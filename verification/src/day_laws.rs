//! Laws of the events shown on a day, stated over what the stored events,
//! templates and schedules hold.
use crate::calendar::{spec_add_seconds, Date, DateTime};
use crate::day_events::{
    accepted_event, first_plan, first_template, phantom_events, plan_taken, planned_on_day,
    schedule_of_plan, seen_at, seen_on_day,
};
use crate::model::{EventPlan, EventTemplateView, EventView, EventVisibility, NewEventView, ScheduleView};
use crate::table::TableId;
use vstd::prelude::*;

verus! {

/// The events seen on a day are exactly the events of that day that a viewer
/// at `level` may see at all (those at or below the level, and those above it
/// unless hidden entirely), in their order: whole at or below the level; above
/// it without name and description when the name is hidden, without the
/// description when that is hidden, and whole when shown.
pub proof fn law_seen_on_day(events: Seq<EventView>, day: i32, level: i32)
    ensures
        seen_on_day(events, day, level) == events.filter(
            |e: EventView|
                e.start.date.days_from_ce == day && (e.access_level <= level || e.visibility
                    != EventVisibility::HideAll),
        ).map_values(
            |e: EventView|
                if e.access_level <= level {
                    e
                } else if e.visibility == EventVisibility::HideName {
                    EventView { name: Seq::empty(), description: None, ..e }
                } else if e.visibility == EventVisibility::HideDescription {
                    EventView { description: None, ..e }
                } else {
                    e
                },
        ),
    decreases events.len(),
{
    let pred = |e: EventView|
        e.start.date.days_from_ce == day && (e.access_level <= level || e.visibility
            != EventVisibility::HideAll);
    let shown = |e: EventView|
        if e.access_level <= level {
            e
        } else if e.visibility == EventVisibility::HideName {
            EventView { name: Seq::empty(), description: None, ..e }
        } else if e.visibility == EventVisibility::HideDescription {
            EventView { description: None, ..e }
        } else {
            e
        };
    reveal(Seq::filter);
    if events.len() == 0 {
        assert(events.filter(pred).map_values(shown) =~= Seq::<EventView>::empty());
    } else {
        let rest = events.drop_last();
        law_seen_on_day(rest, day, level);
        let e = events.last();
        let fr = rest.filter(pred);
        if pred(e) {
            assert(events.filter(pred) == fr.push(e));
            assert(fr.push(e).map_values(shown) =~= fr.map_values(shown).push(shown(e)));
            assert(seen_at(e, level) == Some(shown(e)));
        } else {
            assert(events.filter(pred) == fr);
        }
    }
}


/// Whether `k` is the index of the first template of `templates` with id `id`.
pub open spec fn is_first_template(templates: Seq<EventTemplateView>, id: TableId, k: int) -> bool {
    &&& 0 <= k < templates.len()
    &&& templates[k].id == id
    &&& forall|j: int| 0 <= j < k ==> #[trigger] templates[j].id != id
}

/// Whether plan `pi` of schedule `si` is the first plan with id `plan_id`
/// over all the schedules, taken in order.
pub open spec fn is_first_plan(schedules: Seq<ScheduleView>, plan_id: TableId, si: int, pi: int) -> bool {
    &&& 0 <= si < schedules.len()
    &&& 0 <= pi < schedules[si].event_plans.len()
    &&& schedules[si].event_plans[pi].id == plan_id
    &&& forall|j: int| 0 <= j < pi ==> #[trigger] schedules[si].event_plans[j].id != plan_id
    &&& forall|i: int, j: int|
        0 <= i < si && 0 <= j < schedules[i].event_plans.len()
            ==> #[trigger] schedules[i].event_plans[j].id != plan_id
}

proof fn lemma_first_template_at(templates: Seq<EventTemplateView>, id: TableId, k: int)
    requires
        is_first_template(templates, id, k),
    ensures
        first_template(templates, id) == Some(templates[k]),
    decreases k,
{
    if k > 0 {
        assert(templates[0].id != id);
        let rest = templates.drop_first();
        assert forall|j: int| 0 <= j < k - 1 implies #[trigger] rest[j].id != id by {
            assert(rest[j] == templates[j + 1]);
        }
        lemma_first_template_at(rest, id, k - 1);
    }
}

proof fn lemma_no_template(templates: Seq<EventTemplateView>, id: TableId)
    requires
        forall|k: int| 0 <= k < templates.len() ==> #[trigger] templates[k].id != id,
    ensures
        first_template(templates, id) is None,
    decreases templates.len(),
{
    if templates.len() > 0 {
        let rest = templates.drop_first();
        assert forall|k: int| 0 <= k < rest.len() implies #[trigger] rest[k].id != id by {
            assert(rest[k] == templates[k + 1]);
        }
        lemma_no_template(rest, id);
    }
}

proof fn lemma_first_plan_at(plans: Seq<EventPlan>, plan_id: TableId, k: int)
    requires
        0 <= k < plans.len(),
        plans[k].id == plan_id,
        forall|j: int| 0 <= j < k ==> #[trigger] plans[j].id != plan_id,
    ensures
        first_plan(plans, plan_id) == Some(plans[k]),
    decreases k,
{
    if k > 0 {
        assert(plans[0].id != plan_id);
        let rest = plans.drop_first();
        assert forall|j: int| 0 <= j < k - 1 implies #[trigger] rest[j].id != plan_id by {
            assert(rest[j] == plans[j + 1]);
        }
        lemma_first_plan_at(rest, plan_id, k - 1);
    }
}

proof fn lemma_no_plan(plans: Seq<EventPlan>, plan_id: TableId)
    requires
        forall|k: int| 0 <= k < plans.len() ==> #[trigger] plans[k].id != plan_id,
    ensures
        first_plan(plans, plan_id) is None,
    decreases plans.len(),
{
    if plans.len() > 0 {
        let rest = plans.drop_first();
        assert forall|k: int| 0 <= k < rest.len() implies #[trigger] rest[k].id != plan_id by {
            assert(rest[k] == plans[k + 1]);
        }
        lemma_no_plan(rest, plan_id);
    }
}

proof fn lemma_schedule_of_plan_at(schedules: Seq<ScheduleView>, plan_id: TableId, si: int, pi: int)
    requires
        is_first_plan(schedules, plan_id, si, pi),
    ensures
        schedule_of_plan(schedules, plan_id) == Some((schedules[si], schedules[si].event_plans[pi])),
    decreases si,
{
    if si == 0 {
        lemma_first_plan_at(schedules[0].event_plans, plan_id, pi);
    } else {
        let plans0 = schedules[0].event_plans;
        assert forall|k: int| 0 <= k < plans0.len() implies #[trigger] plans0[k].id != plan_id by {
            assert(schedules[0].event_plans[k].id != plan_id);
        }
        lemma_no_plan(plans0, plan_id);
        let rest = schedules.drop_first();
        assert(rest[si - 1] == schedules[si]);
        assert forall|i: int, j: int|
            0 <= i < si - 1 && 0 <= j < rest[i].event_plans.len() implies
            #[trigger] rest[i].event_plans[j].id != plan_id by {
            assert(rest[i] == schedules[i + 1]);
            assert(schedules[i + 1].event_plans[j].id != plan_id);
        }
        lemma_schedule_of_plan_at(rest, plan_id, si - 1, pi);
    }
}

proof fn lemma_no_schedule_of_plan(schedules: Seq<ScheduleView>, plan_id: TableId)
    requires
        forall|i: int, j: int|
            0 <= i < schedules.len() && 0 <= j < schedules[i].event_plans.len()
                ==> #[trigger] schedules[i].event_plans[j].id != plan_id,
    ensures
        schedule_of_plan(schedules, plan_id) is None,
    decreases schedules.len(),
{
    if schedules.len() > 0 {
        let plans0 = schedules[0].event_plans;
        assert forall|k: int| 0 <= k < plans0.len() implies #[trigger] plans0[k].id != plan_id by {
            assert(schedules[0].event_plans[k].id != plan_id);
        }
        lemma_no_plan(plans0, plan_id);
        let rest = schedules.drop_first();
        assert forall|i: int, j: int|
            0 <= i < rest.len() && 0 <= j < rest[i].event_plans.len() implies
            #[trigger] rest[i].event_plans[j].id != plan_id by {
            assert(rest[i] == schedules[i + 1]);
            assert(schedules[i + 1].event_plans[j].id != plan_id);
        }
        lemma_no_schedule_of_plan(rest, plan_id);
    }
}

/// Accepting a plan finds it in whichever schedule holds it: where plan `pi`
/// of schedule `si` is the first plan with id `plan_id` over all schedules,
/// and template `k` is the first with that schedule's template id, the event
/// asked for carries the template's name, description and level, starts on
/// `date` at the plan's time, lasts the template's duration, is hidden below
/// its level, belongs to the signed-in user and names the plan.
pub proof fn law_accepted_event_found(
    templates: Seq<EventTemplateView>,
    schedules: Seq<ScheduleView>,
    date: Date,
    plan_id: TableId,
    si: int,
    pi: int,
    k: int,
)
    requires
        is_first_plan(schedules, plan_id, si, pi),
        is_first_template(templates, schedules[si].template_id, k),
    ensures
        accepted_event(templates, schedules, date, plan_id) == Some(
            NewEventView {
                user_id: -1i32,
                name: templates[k].event_name,
                description: templates[k].event_description,
                start: DateTime { date, time: schedules[si].event_plans[pi].time },
                end: spec_add_seconds(
                    DateTime { date, time: schedules[si].event_plans[pi].time },
                    templates[k].duration,
                ),
                access_level: templates[k].access_level,
                visibility: EventVisibility::HideAll,
                plan_id: Some(plan_id),
            },
        ),
{
    lemma_schedule_of_plan_at(schedules, plan_id, si, pi);
    lemma_first_template_at(templates, schedules[si].template_id, k);
}

/// Accepting a plan asks for nothing when the first schedule that holds it
/// has no template.
pub proof fn law_accepted_event_no_template(
    templates: Seq<EventTemplateView>,
    schedules: Seq<ScheduleView>,
    date: Date,
    plan_id: TableId,
    si: int,
    pi: int,
)
    requires
        is_first_plan(schedules, plan_id, si, pi),
        forall|k: int| 0 <= k < templates.len() ==> #[trigger] templates[k].id != schedules[si].template_id,
    ensures
        accepted_event(templates, schedules, date, plan_id) is None,
{
    lemma_schedule_of_plan_at(schedules, plan_id, si, pi);
    lemma_no_template(templates, schedules[si].template_id);
}

/// Accepting a plan that no schedule holds asks for nothing.
pub proof fn law_accepted_event_no_plan(
    templates: Seq<EventTemplateView>,
    schedules: Seq<ScheduleView>,
    date: Date,
    plan_id: TableId,
)
    requires
        forall|i: int, j: int|
            0 <= i < schedules.len() && 0 <= j < schedules[i].event_plans.len()
                ==> #[trigger] schedules[i].event_plans[j].id != plan_id,
    ensures
        accepted_event(templates, schedules, date, plan_id) is None,
{
    lemma_no_schedule_of_plan(schedules, plan_id);
}


/// Whether `e` is the event that plan `p` of schedule `s`, made from template
/// `t`, puts on day `day`: no id yet, the schedule's user and level, the
/// template's name and description, from the plan's time on that day for the
/// template's duration, hidden below its level, and naming the plan.
pub open spec fn made_from_plan(e: EventView, s: ScheduleView, t: EventTemplateView, p: EventPlan, day: i32) -> bool {
    &&& e.id == -1
    &&& e.user_id == s.user_id
    &&& e.name == t.event_name
    &&& e.description == t.event_description
    &&& e.start == (DateTime { date: Date { days_from_ce: day }, time: p.time })
    &&& e.end == spec_add_seconds(e.start, t.duration)
    &&& e.access_level == s.access_level
    &&& e.visibility == EventVisibility::HideAll
    &&& e.plan_id == Some(p.id)
}

/// Whether plan `p` falls on day `day`'s weekday and no event of `events`
/// has taken it on that day.
pub open spec fn plan_due(events: Seq<EventView>, p: EventPlan, day: i32) -> bool {
    &&& p.weekday == (Date { days_from_ce: day }).spec_weekday()
    &&& !plan_taken(events, p.id, day)
}

/// Whether plan `pi` of schedule `si`, with template `k`, is one that puts an
/// event on day `day` for a viewer at `level`: the schedule is at or below
/// the level, `k` is the first template with the schedule's template id, and
/// the plan is due that day.
pub open spec fn is_plan_slot(
    events: Seq<EventView>,
    templates: Seq<EventTemplateView>,
    schedules: Seq<ScheduleView>,
    day: i32,
    level: i32,
    si: int,
    k: int,
    pi: int,
) -> bool {
    &&& 0 <= si < schedules.len()
    &&& schedules[si].access_level <= level
    &&& is_first_template(templates, schedules[si].template_id, k)
    &&& 0 <= pi < schedules[si].event_plans.len()
    &&& plan_due(events, schedules[si].event_plans[pi], day)
}

/// Whether `e` is the event that slot (`si`, `k`, `pi`) puts on day `day`.
pub open spec fn planned_by(
    e: EventView,
    events: Seq<EventView>,
    templates: Seq<EventTemplateView>,
    schedules: Seq<ScheduleView>,
    day: i32,
    level: i32,
    si: int,
    k: int,
    pi: int,
) -> bool {
    &&& is_plan_slot(events, templates, schedules, day, level, si, k, pi)
    &&& made_from_plan(e, schedules[si], templates[k], schedules[si].event_plans[pi], day)
}

proof fn lemma_first_template_index(templates: Seq<EventTemplateView>, id: TableId) -> (k: int)
    requires
        first_template(templates, id) is Some,
    ensures
        is_first_template(templates, id, k),
        first_template(templates, id) == Some(templates[k]),
    decreases templates.len(),
{
    if templates[0].id == id {
        0
    } else {
        let rest = templates.drop_first();
        let j = lemma_first_template_index(rest, id);
        assert(rest[j] == templates[j + 1]);
        assert forall|m: int| 0 <= m < j + 1 implies #[trigger] templates[m].id != id by {
            if m > 0 {
                assert(templates[m] == rest[m - 1]);
            }
        }
        j + 1
    }
}

/// Whether `e` is the event that some plan of `plans`, due on day `day`,
/// puts there for schedule `s` with template `t`.
pub open spec fn from_due_plan(
    e: EventView,
    events: Seq<EventView>,
    s: ScheduleView,
    t: EventTemplateView,
    plans: Seq<EventPlan>,
    day: i32,
) -> bool {
    exists|pi: int|
        0 <= pi < plans.len() && plan_due(events, plans[pi], day)
            && #[trigger] made_from_plan(e, s, t, plans[pi], day)
}

/// Whether some event of `po` is the one that plan `p` puts on day `day` for
/// schedule `s` with template `t`.
pub open spec fn has_event_of_plan(
    po: Seq<EventView>,
    s: ScheduleView,
    t: EventTemplateView,
    p: EventPlan,
    day: i32,
) -> bool {
    exists|i: int| 0 <= i < po.len() && #[trigger] made_from_plan(po[i], s, t, p, day)
}

/// Every event that the plans of schedule `s` (with template `t`) put on a
/// day comes from a plan due that day.
proof fn lemma_planned_on_day_sound(
    events: Seq<EventView>,
    s: ScheduleView,
    t: EventTemplateView,
    plans: Seq<EventPlan>,
    day: i32,
)
    ensures
        forall|i: int|
            0 <= i < planned_on_day(events, s, t, plans, day).len() ==> #[trigger] from_due_plan(
                planned_on_day(events, s, t, plans, day)[i],
                events,
                s,
                t,
                plans,
                day,
            ),
    decreases plans.len(),
{
    if plans.len() > 0 {
        let front = plans.drop_last();
        let rest = planned_on_day(events, s, t, front, day);
        let po = planned_on_day(events, s, t, plans, day);
        lemma_planned_on_day_sound(events, s, t, front, day);
        let p = plans.last();
        assert forall|i: int| 0 <= i < po.len() implies #[trigger] from_due_plan(po[i], events, s, t, plans, day) by {
            if i < rest.len() {
                assert(po[i] == rest[i]);
                assert(from_due_plan(rest[i], events, s, t, front, day));
                let pi = choose|pi: int|
                    0 <= pi < front.len() && plan_due(events, front[pi], day)
                        && #[trigger] made_from_plan(rest[i], s, t, front[pi], day);
                assert(front[pi] == plans[pi]);
                assert(made_from_plan(po[i], s, t, plans[pi], day));
            } else {
                assert(plan_due(events, p, day));
                assert(made_from_plan(po[i], s, t, plans[plans.len() - 1], day));
            }
        }
    }
}

/// Every plan of `plans` due on a day puts an event there for schedule `s`
/// with template `t`.
proof fn lemma_planned_on_day_complete(
    events: Seq<EventView>,
    s: ScheduleView,
    t: EventTemplateView,
    plans: Seq<EventPlan>,
    day: i32,
)
    ensures
        forall|pi: int|
            0 <= pi < plans.len() && #[trigger] plan_due(events, plans[pi], day) ==> has_event_of_plan(
                planned_on_day(events, s, t, plans, day),
                s,
                t,
                plans[pi],
                day,
            ),
    decreases plans.len(),
{
    if plans.len() > 0 {
        let front = plans.drop_last();
        let rest = planned_on_day(events, s, t, front, day);
        let po = planned_on_day(events, s, t, plans, day);
        lemma_planned_on_day_complete(events, s, t, front, day);
        assert forall|pi: int| 0 <= pi < plans.len() && #[trigger] plan_due(events, plans[pi], day) implies has_event_of_plan(po, s, t, plans[pi], day) by {
            if pi < front.len() {
                assert(front[pi] == plans[pi]);
                assert(plan_due(events, front[pi], day));
                assert(has_event_of_plan(rest, s, t, front[pi], day));
                let i = choose|i: int| 0 <= i < rest.len() && #[trigger] made_from_plan(rest[i], s, t, front[pi], day);
                assert(po[i] == rest[i]);
                assert(made_from_plan(po[i], s, t, plans[pi], day));
            } else {
                assert(po.len() == rest.len() + 1);
                assert(made_from_plan(po[rest.len() as int], s, t, plans[pi], day));
            }
        }
    }
}


/// Whether `e` is the event that some plan slot puts on day `day` for a
/// viewer at `level`.
pub open spec fn from_plan_slot(
    e: EventView,
    events: Seq<EventView>,
    templates: Seq<EventTemplateView>,
    schedules: Seq<ScheduleView>,
    day: i32,
    level: i32,
) -> bool {
    exists|si: int, k: int, pi: int|
        #[trigger] planned_by(e, events, templates, schedules, day, level, si, k, pi)
}

/// Every event that schedules put on a day is the one that some plan slot
/// puts there: a plan due that day, of a schedule at or below the viewer's
/// level, made from the first template with the schedule's template id, and
/// carrying that template's name, description and duration.
pub proof fn law_phantom_events_from_slots(
    events: Seq<EventView>,
    templates: Seq<EventTemplateView>,
    schedules: Seq<ScheduleView>,
    day: i32,
    level: i32,
)
    ensures
        forall|i: int|
            0 <= i < phantom_events(events, templates, schedules, day, level).len()
                ==> #[trigger] from_plan_slot(
                phantom_events(events, templates, schedules, day, level)[i],
                events,
                templates,
                schedules,
                day,
                level,
            ),
    decreases schedules.len(),
{
    if schedules.len() > 0 {
        let n = schedules.len() - 1;
        let front = schedules.drop_last();
        let rest = phantom_events(events, templates, front, day, level);
        let ph = phantom_events(events, templates, schedules, day, level);
        law_phantom_events_from_slots(events, templates, front, day, level);
        let s = schedules.last();
        assert forall|i: int| 0 <= i < ph.len() implies #[trigger] from_plan_slot(
            ph[i],
            events,
            templates,
            schedules,
            day,
            level,
        ) by {
            if i < rest.len() {
                assert(ph[i] == rest[i]);
                assert(from_plan_slot(rest[i], events, templates, front, day, level));
                let (si, k, pi) = choose|si: int, k: int, pi: int|
                    #[trigger] planned_by(rest[i], events, templates, front, day, level, si, k, pi);
                assert(front[si] == schedules[si]);
                assert(planned_by(ph[i], events, templates, schedules, day, level, si, k, pi));
            } else {
                let t = first_template(templates, s.template_id)->0;
                assert(s.access_level <= level && first_template(templates, s.template_id) is Some);
                let more = planned_on_day(events, s, t, s.event_plans, day);
                assert(ph == rest + more);
                let j = i - rest.len();
                assert(ph[i] == more[j]);
                lemma_planned_on_day_sound(events, s, t, s.event_plans, day);
                assert(from_due_plan(more[j], events, s, t, s.event_plans, day));
                let pi = choose|pi: int|
                    0 <= pi < s.event_plans.len() && plan_due(events, s.event_plans[pi], day)
                        && #[trigger] made_from_plan(more[j], s, t, s.event_plans[pi], day);
                let k = lemma_first_template_index(templates, s.template_id);
                assert(planned_by(ph[i], events, templates, schedules, day, level, n, k, pi));
            }
        }
    }
}

/// Every plan slot puts its event among those that schedules put on the day:
/// for each plan due that day, of a schedule at or below the viewer's level
/// whose template is there, some event carries that template's name,
/// description and duration at the plan's time.
pub proof fn law_phantom_events_cover_slots(
    events: Seq<EventView>,
    templates: Seq<EventTemplateView>,
    schedules: Seq<ScheduleView>,
    day: i32,
    level: i32,
)
    ensures
        forall|si: int, k: int, pi: int|
            #[trigger] is_plan_slot(events, templates, schedules, day, level, si, k, pi)
                ==> has_event_of_plan(
                phantom_events(events, templates, schedules, day, level),
                schedules[si],
                templates[k],
                schedules[si].event_plans[pi],
                day,
            ),
    decreases schedules.len(),
{
    if schedules.len() > 0 {
        let n = schedules.len() - 1;
        let front = schedules.drop_last();
        let rest = phantom_events(events, templates, front, day, level);
        let ph = phantom_events(events, templates, schedules, day, level);
        law_phantom_events_cover_slots(events, templates, front, day, level);
        let s = schedules.last();
        assert forall|si: int, k: int, pi: int|
            #[trigger] is_plan_slot(events, templates, schedules, day, level, si, k, pi) implies has_event_of_plan(
            ph,
            schedules[si],
            templates[k],
            schedules[si].event_plans[pi],
            day,
        ) by {
            let p = schedules[si].event_plans[pi];
            if si < n {
                assert(front[si] == schedules[si]);
                assert(is_plan_slot(events, templates, front, day, level, si, k, pi));
                assert(has_event_of_plan(rest, front[si], templates[k], p, day));
                let i = choose|i: int| 0 <= i < rest.len() && #[trigger] made_from_plan(rest[i], front[si], templates[k], p, day);
                assert(ph[i] == rest[i]);
                assert(made_from_plan(ph[i], schedules[si], templates[k], p, day));
            } else {
                lemma_first_template_at(templates, s.template_id, k);
                let t = templates[k];
                let more = planned_on_day(events, s, t, s.event_plans, day);
                assert(ph == rest + more);
                lemma_planned_on_day_complete(events, s, t, s.event_plans, day);
                assert(plan_due(events, s.event_plans[pi], day));
                assert(has_event_of_plan(more, s, t, s.event_plans[pi], day));
                let j = choose|j: int| 0 <= j < more.len() && #[trigger] made_from_plan(more[j], s, t, p, day);
                assert(ph[rest.len() + j] == more[j]);
                assert(made_from_plan(ph[rest.len() + j], schedules[si], templates[k], p, day));
            }
        }
    }
}

} // verus!
