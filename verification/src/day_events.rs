//! The events shown on one day: the stored events of that day as a viewer at
//! some access level may see them, and the events that schedules plan for
//! that day and that no stored event has taken yet, ordered by start.
use crate::calendar::{moment_le, spec_add_seconds, Date, DateTime, LAST_EXTENSIBLE_DAY};
use crate::model::{
    copy_opt_string, copy_string, Event, EventPlan, EventTemplate, EventTemplateView, EventView,
    EventVisibility, NewEvent, NewEventView, Schedule, ScheduleView,
};
use crate::table::{item_views, TableId};
use itertools::Itertools;
use vstd::prelude::*;

verus! {

/// What a viewer at level `level` sees of event `e`: all of it when the
/// event's level is at most `level`; otherwise what its visibility lets
/// through (nothing, everything but name and description, everything but
/// the description, or everything).
pub open spec fn seen_at(e: EventView, level: i32) -> Option<EventView> {
    if e.access_level <= level {
        Some(e)
    } else {
        match e.visibility {
            EventVisibility::HideAll => None,
            EventVisibility::HideName => Some(
                EventView { name: Seq::empty(), description: None, ..e },
            ),
            EventVisibility::HideDescription => Some(EventView { description: None, ..e }),
            EventVisibility::Show => Some(e),
        }
    }
}

/// The events of `events` that start on day `day`, as a viewer at `level`
/// sees them, in their order.
pub open spec fn seen_on_day(events: Seq<EventView>, day: i32, level: i32) -> Seq<EventView>
    decreases events.len(),
{
    if events.len() == 0 {
        Seq::empty()
    } else {
        let rest = seen_on_day(events.drop_last(), day, level);
        let e = events.last();
        if e.start.date.days_from_ce == day {
            match seen_at(e, level) {
                Some(v) => rest.push(v),
                None => rest,
            }
        } else {
            rest
        }
    }
}

/// Whether some event of `events` was made from plan `plan_id` and starts on day `day`.
pub open spec fn plan_taken(events: Seq<EventView>, plan_id: TableId, day: i32) -> bool {
    exists|i: int|
        0 <= i < events.len() && #[trigger] events[i].plan_id == Some(plan_id)
            && events[i].start.date.days_from_ce == day
}

/// The first template of `templates` with id `id`, if any.
pub open spec fn first_template(templates: Seq<EventTemplateView>, id: TableId) -> Option<
    EventTemplateView,
>
    decreases templates.len(),
{
    if templates.len() == 0 {
        None
    } else if templates[0].id == id {
        Some(templates[0])
    } else {
        first_template(templates.drop_first(), id)
    }
}

/// The event that plan `plan` of schedule `s`, made from template `t`, puts
/// on day `day`: it has no id yet, starts at the plan's time, lasts as long as
/// the template says, and is hidden from viewers below the schedule's level.
pub open spec fn planned_event(s: ScheduleView, t: EventTemplateView, plan: EventPlan, day: i32) -> EventView {
    let start = DateTime { date: Date { days_from_ce: day }, time: plan.time };
    EventView {
        id: -1i32,
        user_id: s.user_id,
        name: t.event_name,
        description: t.event_description,
        start,
        end: spec_add_seconds(start, t.duration),
        access_level: s.access_level,
        visibility: EventVisibility::HideAll,
        plan_id: Some(plan.id),
    }
}

/// The events that the plans `plans` of schedule `s` put on day `day`: one for
/// each plan on that day's weekday that no event of `events` has taken on that day.
pub open spec fn planned_on_day(
    events: Seq<EventView>,
    s: ScheduleView,
    t: EventTemplateView,
    plans: Seq<EventPlan>,
    day: i32,
) -> Seq<EventView>
    decreases plans.len(),
{
    if plans.len() == 0 {
        Seq::empty()
    } else {
        let rest = planned_on_day(events, s, t, plans.drop_last(), day);
        let p = plans.last();
        if p.weekday == (Date { days_from_ce: day }).spec_weekday() && !plan_taken(events, p.id, day) {
            rest.push(planned_event(s, t, p, day))
        } else {
            rest
        }
    }
}

/// The events that the schedules `schedules` at level `level` or below put on
/// day `day`, schedule by schedule; a schedule whose template is missing puts none.
pub open spec fn phantom_events(
    events: Seq<EventView>,
    templates: Seq<EventTemplateView>,
    schedules: Seq<ScheduleView>,
    day: i32,
    level: i32,
) -> Seq<EventView>
    decreases schedules.len(),
{
    if schedules.len() == 0 {
        Seq::empty()
    } else {
        let rest = phantom_events(events, templates, schedules.drop_last(), day, level);
        let s = schedules.last();
        if s.access_level <= level {
            match first_template(templates, s.template_id) {
                Some(t) => rest + planned_on_day(events, s, t, s.event_plans, day),
                None => rest,
            }
        } else {
            rest
        }
    }
}

/// Whether the events of `s` are ordered by start.
pub open spec fn sorted_by_start(s: Seq<EventView>) -> bool {
    forall|i: int, j: int| 0 <= i <= j < s.len() ==> moment_le(s[i].start, s[j].start)
}

/// The events of `s` that start at moment `m`, in their order.
pub open spec fn with_start(s: Seq<EventView>, m: DateTime) -> Seq<EventView> {
    s.filter(|e: EventView| e.start == m)
}

/// Whether `r` is `s` sorted by start, with events of the same start kept in
/// their order (a stable sort).
pub open spec fn is_stable_sort_by_start(s: Seq<EventView>, r: Seq<EventView>) -> bool {
    &&& r.len() == s.len()
    &&& sorted_by_start(r)
    &&& forall|m: DateTime| #[trigger] with_start(r, m) == with_start(s, m)
}

/// Sorts `events` by start with itertools' `sorted_by_key`, which collects
/// the items and sorts them with the standard library's stable `sort_by_key`:
/// the result is ordered by start (day, then time of day), and events with the
/// same start keep their order.
#[verifier::external_body]
pub(crate) fn sort_by_start(events: Vec<Event>) -> (r: Vec<Event>)
    ensures
        is_stable_sort_by_start(item_views(events@), item_views(r@)),
{
    events.into_iter().sorted_by_key(|e| e.start.key()).collect()
}

/// Whether some event of `events` was made from plan `plan_id` and starts on `day`.
pub fn find_plan_taken(events: &Vec<Event>, plan_id: TableId, day: Date) -> (r: bool)
    ensures
        r == plan_taken(item_views(events@), plan_id, day.days_from_ce),
{
    let ghost vs = item_views(events@);
    let mut i: usize = 0;
    while i < events.len()
        invariant
            i <= events@.len(),
            vs == item_views(events@),
            forall|j: int|
                0 <= j < i ==> !(#[trigger] vs[j].plan_id == Some(plan_id)
                    && vs[j].start.date.days_from_ce == day.days_from_ce),
        decreases events@.len() - i,
    {
        let e = &events[i];
        assert(vs[i as int] == e@);
        if e.plan_id == Some(plan_id) && e.start.date.days_from_ce == day.days_from_ce {
            assert(vs[i as int].plan_id == Some(plan_id));
            return true;
        }
        i = i + 1;
    }
    false
}

/// The first template of `templates` with id `id`, if any.
pub fn find_template(templates: &Vec<EventTemplate>, id: TableId) -> (r: Option<&EventTemplate>)
    ensures
        match r {
            Some(t) => first_template(item_views(templates@), id) == Some(t@),
            None => first_template(item_views(templates@), id) is None,
        },
{
    let ghost vs = item_views(templates@);
    let mut i: usize = 0;
    assert(vs.skip(0) =~= vs);
    while i < templates.len()
        invariant
            i <= templates@.len(),
            vs == item_views(templates@),
            first_template(vs, id) == first_template(vs.skip(i as int), id),
        decreases templates@.len() - i,
    {
        let t = &templates[i];
        assert(vs.skip(i as int)[0] == t@);
        assert(vs.skip(i as int).drop_first() =~= vs.skip(i as int + 1));
        if t.id == id {
            return Some(t);
        }
        i = i + 1;
    }
    assert(vs.skip(i as int).len() == 0);
    None
}

/// Appending one item appends its view.
pub proof fn lemma_views_push<T: View>(s: Seq<T>, x: T)
    ensures
        item_views(s.push(x)) == item_views(s).push(x@),
{
    assert(item_views(s.push(x)) =~= item_views(s).push(x@));
}

/// Appends to `out` the events that the plans of schedule `s`, made from
/// template `t`, put on day `day`.
pub fn push_planned(
    events: &Vec<Event>,
    s: &Schedule,
    t: &EventTemplate,
    day: Date,
    out: &mut Vec<Event>,
)
    requires
        day.days_from_ce <= LAST_EXTENSIBLE_DAY,
    ensures
        item_views(final(out)@) == item_views(old(out)@) + planned_on_day(
            item_views(events@),
            s@,
            t@,
            s@.event_plans,
            day.days_from_ce,
        ),
{
    let ghost vs = item_views(events@);
    let ghost start_out = item_views(out@);
    let ghost plans = s@.event_plans;
    let weekday = day.weekday();
    let mut i: usize = 0;
    assert(plans.take(0) =~= Seq::<EventPlan>::empty());
    while i < s.event_plans.len()
        invariant
            i <= plans.len(),
            plans == s.event_plans@,
            plans == s@.event_plans,
            vs == item_views(events@),
            weekday == day.spec_weekday(),
            day.days_from_ce <= LAST_EXTENSIBLE_DAY,
            item_views(out@) == start_out + planned_on_day(
                vs,
                s@,
                t@,
                plans.take(i as int),
                day.days_from_ce,
            ),
        decreases plans.len() - i,
    {
        let plan = s.event_plans[i];
        assert(plans.take(i as int + 1).drop_last() =~= plans.take(i as int));
        assert(plans.take(i as int + 1).last() == plan);
        if plan.weekday.same_day(&weekday) && !find_plan_taken(events, plan.id, day) {
            let start = DateTime::new(day, plan.time);
            let end = start.add_seconds(t.duration);
            let e = Event {
                id: -1,
                user_id: s.user_id,
                name: copy_string(&t.event_name),
                description: copy_opt_string(&t.event_description),
                start,
                end,
                access_level: s.access_level,
                visibility: EventVisibility::HideAll,
                plan_id: Some(plan.id),
            };
            assert(e@ == planned_event(s@, t@, plan, day.days_from_ce));
            proof {
                lemma_views_push(out@, e);
            }
            out.push(e);
            assert(item_views(out@) =~= start_out + planned_on_day(
                vs,
                s@,
                t@,
                plans.take(i as int + 1),
                day.days_from_ce,
            ));
        } else {
            assert(planned_on_day(vs, s@, t@, plans.take(i as int + 1), day.days_from_ce)
                == planned_on_day(vs, s@, t@, plans.take(i as int), day.days_from_ce));
        }
        i = i + 1;
    }
    assert(plans.take(i as int) =~= plans);
}

/// The events that the schedules at level `level` or below put on day `day`.
pub fn planned_events(
    events: &Vec<Event>,
    templates: &Vec<EventTemplate>,
    schedules: &Vec<Schedule>,
    day: Date,
    level: i32,
) -> (r: Vec<Event>)
    requires
        day.days_from_ce <= LAST_EXTENSIBLE_DAY,
    ensures
        item_views(r@) == phantom_events(
            item_views(events@),
            item_views(templates@),
            item_views(schedules@),
            day.days_from_ce,
            level,
        ),
{
    let ghost vs = item_views(events@);
    let ghost ts = item_views(templates@);
    let ghost ss = item_views(schedules@);
    let mut out: Vec<Event> = Vec::new();
    let mut i: usize = 0;
    assert(ss.take(0) =~= Seq::<ScheduleView>::empty());
    assert(item_views(out@) =~= Seq::<EventView>::empty());
    while i < schedules.len()
        invariant
            i <= schedules@.len(),
            vs == item_views(events@),
            ts == item_views(templates@),
            ss == item_views(schedules@),
            day.days_from_ce <= LAST_EXTENSIBLE_DAY,
            item_views(out@) == phantom_events(vs, ts, ss.take(i as int), day.days_from_ce, level),
        decreases schedules@.len() - i,
    {
        let s = &schedules[i];
        assert(ss.take(i as int + 1).drop_last() =~= ss.take(i as int));
        assert(ss.take(i as int + 1).last() == s@);
        if s.access_level <= level {
            match find_template(templates, s.template_id) {
                Some(t) => {
                    push_planned(events, s, t, day, &mut out);
                },
                None => {},
            }
        }
        i = i + 1;
    }
    assert(ss.take(i as int) =~= ss);
    out
}

/// What a viewer at level `level` sees of event `e`.
pub fn seen_event(e: &Event, level: i32) -> (r: Option<Event>)
    ensures
        match r {
            Some(v) => seen_at(e@, level) == Some(v@),
            None => seen_at(e@, level) is None,
        },
{
    if e.access_level <= level {
        Some(e.clone())
    } else {
        match e.visibility {
            EventVisibility::HideAll => None,
            EventVisibility::HideName => {
                let v = Event { name: String::new(), description: None, ..e.clone() };
                assert(v@ =~= EventView { name: Seq::empty(), description: None, ..e@ });
                Some(v)
            },
            EventVisibility::HideDescription => {
                let v = Event { description: None, ..e.clone() };
                assert(v@ =~= EventView { description: None, ..e@ });
                Some(v)
            },
            EventVisibility::Show => Some(e.clone()),
        }
    }
}

/// The events of `events` that start on `day`, as a viewer at `level` sees them.
pub fn events_seen_on_day(events: &Vec<Event>, day: Date, level: i32) -> (r: Vec<Event>)
    ensures
        item_views(r@) == seen_on_day(item_views(events@), day.days_from_ce, level),
{
    let ghost vs = item_views(events@);
    let mut out: Vec<Event> = Vec::new();
    let mut i: usize = 0;
    assert(vs.take(0) =~= Seq::<EventView>::empty());
    assert(item_views(out@) =~= Seq::<EventView>::empty());
    while i < events.len()
        invariant
            i <= events@.len(),
            vs == item_views(events@),
            item_views(out@) == seen_on_day(vs.take(i as int), day.days_from_ce, level),
        decreases events@.len() - i,
    {
        let e = &events[i];
        assert(vs.take(i as int + 1).drop_last() =~= vs.take(i as int));
        assert(vs.take(i as int + 1).last() == e@);
        if e.start.date.days_from_ce == day.days_from_ce {
            match seen_event(e, level) {
                Some(v) => {
                    proof {
                        lemma_views_push(out@, v);
                    }
                    out.push(v);
                },
                None => {},
            }
        }
        i = i + 1;
    }
    assert(vs.take(i as int) =~= vs);
    out
}

/// The first plan of `plans` with id `plan_id`, if any.
pub open spec fn first_plan(plans: Seq<EventPlan>, plan_id: TableId) -> Option<EventPlan>
    decreases plans.len(),
{
    if plans.len() == 0 {
        None
    } else if plans[0].id == plan_id {
        Some(plans[0])
    } else {
        first_plan(plans.drop_first(), plan_id)
    }
}

/// The first schedule of `schedules` that has a plan with id `plan_id`, with
/// its first such plan.
pub open spec fn schedule_of_plan(schedules: Seq<ScheduleView>, plan_id: TableId) -> Option<
    (ScheduleView, EventPlan),
>
    decreases schedules.len(),
{
    if schedules.len() == 0 {
        None
    } else {
        match first_plan(schedules[0].event_plans, plan_id) {
            Some(p) => Some((schedules[0], p)),
            None => schedule_of_plan(schedules.drop_first(), plan_id),
        }
    }
}

/// The event that accepting plan `plan_id` on day `date` asks for: made from
/// the template of the plan's schedule, at the plan's time, lasting as long as
/// the template says, at the template's level, hidden from viewers below it,
/// and for user -1 (the signed-in user). None when the plan or the template is missing.
pub open spec fn accepted_event(
    templates: Seq<EventTemplateView>,
    schedules: Seq<ScheduleView>,
    date: Date,
    plan_id: TableId,
) -> Option<NewEventView> {
    match schedule_of_plan(schedules, plan_id) {
        Some((s, p)) => match first_template(templates, s.template_id) {
            Some(t) => {
                let start = DateTime { date, time: p.time };
                Some(
                    NewEventView {
                        user_id: -1i32,
                        name: t.event_name,
                        description: t.event_description,
                        start,
                        end: spec_add_seconds(start, t.duration),
                        access_level: t.access_level,
                        visibility: EventVisibility::HideAll,
                        plan_id: Some(plan_id),
                    },
                )
            },
            None => None,
        },
        None => None,
    }
}

/// The first plan of `plans` with id `plan_id`, if any.
pub fn find_plan(plans: &Vec<EventPlan>, plan_id: TableId) -> (r: Option<EventPlan>)
    ensures
        r == first_plan(plans@, plan_id),
{
    let mut i: usize = 0;
    assert(plans@.skip(0) =~= plans@);
    while i < plans.len()
        invariant
            i <= plans@.len(),
            first_plan(plans@, plan_id) == first_plan(plans@.skip(i as int), plan_id),
        decreases plans@.len() - i,
    {
        let p = plans[i];
        assert(plans@.skip(i as int)[0] == p);
        assert(plans@.skip(i as int).drop_first() =~= plans@.skip(i as int + 1));
        if p.id == plan_id {
            return Some(p);
        }
        i = i + 1;
    }
    assert(plans@.skip(i as int).len() == 0);
    None
}

/// The first schedule of `schedules` that has a plan with id `plan_id`, with that plan.
pub fn find_schedule_of_plan(schedules: &Vec<Schedule>, plan_id: TableId) -> (r: Option<
    (&Schedule, EventPlan),
>)
    ensures
        match r {
            Some((s, p)) => schedule_of_plan(item_views(schedules@), plan_id) == Some((s@, p)),
            None => schedule_of_plan(item_views(schedules@), plan_id) is None,
        },
{
    let ghost ss = item_views(schedules@);
    let mut i: usize = 0;
    assert(ss.skip(0) =~= ss);
    while i < schedules.len()
        invariant
            i <= schedules@.len(),
            ss == item_views(schedules@),
            schedule_of_plan(ss, plan_id) == schedule_of_plan(ss.skip(i as int), plan_id),
        decreases schedules@.len() - i,
    {
        let s = &schedules[i];
        assert(ss.skip(i as int)[0] == s@);
        assert(ss.skip(i as int).drop_first() =~= ss.skip(i as int + 1));
        match find_plan(&s.event_plans, plan_id) {
            Some(p) => {
                return Some((s, p));
            },
            None => {},
        }
        i = i + 1;
    }
    assert(ss.skip(i as int).len() == 0);
    None
}

/// The event that accepting plan `plan_id` on day `date` asks for, if the
/// plan and its schedule's template are there.
pub fn make_accepted_event(
    templates: &Vec<EventTemplate>,
    schedules: &Vec<Schedule>,
    date: Date,
    plan_id: TableId,
) -> (r: Option<NewEvent>)
    requires
        accepted_event(item_views(templates@), item_views(schedules@), date, plan_id) is Some
            ==> date.days_from_ce <= LAST_EXTENSIBLE_DAY,
    ensures
        match r {
            Some(n) => accepted_event(item_views(templates@), item_views(schedules@), date, plan_id)
                == Some(n@),
            None => accepted_event(item_views(templates@), item_views(schedules@), date, plan_id) is None,
        },
{
    match find_schedule_of_plan(schedules, plan_id) {
        Some((schedule, plan)) => match find_template(templates, schedule.template_id) {
            Some(template) => {
                let start = DateTime::new(date, plan.time);
                let end = start.add_seconds(template.duration);
                Some(
                    NewEvent {
                        user_id: -1,
                        name: copy_string(&template.event_name),
                        description: copy_opt_string(&template.event_description),
                        start,
                        end,
                        access_level: template.access_level,
                        visibility: EventVisibility::HideAll,
                        plan_id: Some(plan_id),
                    },
                )
            },
            None => None,
        },
        None => None,
    }
}

/// Whether every event of `s` starts on day `day`.
pub open spec fn all_on_day(s: Seq<EventView>, day: i32) -> bool {
    forall|i: int| 0 <= i < s.len() ==> #[trigger] s[i].start.date.days_from_ce == day
}

/// Whether every event of `s` is one that a plan puts on day `day` at level
/// `level` or below: it has no id yet, it is hidden below its level, and its
/// plan is taken by no event of `events` on that day.
pub open spec fn all_untaken_plans(s: Seq<EventView>, events: Seq<EventView>, day: i32, level: i32) -> bool {
    forall|i: int|
        0 <= i < s.len() ==> {
            &&& #[trigger] s[i].id == -1
            &&& s[i].visibility == EventVisibility::HideAll
            &&& s[i].access_level <= level
            &&& s[i].plan_id is Some
            &&& !plan_taken(events, s[i].plan_id->0, day)
        }
}

/// The stored events seen on a day all start on that day.
pub proof fn law_seen_on_day_is_on_day(events: Seq<EventView>, day: i32, level: i32)
    ensures
        all_on_day(seen_on_day(events, day, level), day),
    decreases events.len(),
{
    if events.len() > 0 {
        law_seen_on_day_is_on_day(events.drop_last(), day, level);
    }
}

/// The events that a schedule's plans put on a day start on that day, and
/// each comes from a plan that no event has taken on that day.
proof fn lemma_planned_on_day(
    events: Seq<EventView>,
    s: ScheduleView,
    t: EventTemplateView,
    plans: Seq<EventPlan>,
    day: i32,
    level: i32,
)
    requires
        s.access_level <= level,
    ensures
        all_on_day(planned_on_day(events, s, t, plans, day), day),
        all_untaken_plans(planned_on_day(events, s, t, plans, day), events, day, level),
    decreases plans.len(),
{
    if plans.len() > 0 {
        lemma_planned_on_day(events, s, t, plans.drop_last(), day, level);
    }
}

/// The events that schedules put on a day start on that day; each has no id
/// yet, is hidden below its level, is at level `level` or below, and comes
/// from a plan that no stored event has taken on that day.
pub proof fn law_phantom_events(
    events: Seq<EventView>,
    templates: Seq<EventTemplateView>,
    schedules: Seq<ScheduleView>,
    day: i32,
    level: i32,
)
    ensures
        all_on_day(phantom_events(events, templates, schedules, day, level), day),
        all_untaken_plans(phantom_events(events, templates, schedules, day, level), events, day, level),
    decreases schedules.len(),
{
    if schedules.len() > 0 {
        let rest = phantom_events(events, templates, schedules.drop_last(), day, level);
        law_phantom_events(events, templates, schedules.drop_last(), day, level);
        let s = schedules.last();
        if s.access_level <= level {
            match first_template(templates, s.template_id) {
                Some(t) => {
                    let more = planned_on_day(events, s, t, s.event_plans, day);
                    lemma_planned_on_day(events, s, t, s.event_plans, day, level);
                    let all = rest + more;
                    assert forall|i: int| 0 <= i < all.len() implies #[trigger] all[i].start.date.days_from_ce == day by {
                        if i < rest.len() {
                            assert(all[i] == rest[i]);
                        } else {
                            assert(all[i] == more[i - rest.len()]);
                        }
                    }
                    assert forall|i: int| 0 <= i < all.len() implies {
                        &&& #[trigger] all[i].id == -1
                        &&& all[i].visibility == EventVisibility::HideAll
                        &&& all[i].access_level <= level
                        &&& all[i].plan_id is Some
                        &&& !plan_taken(events, all[i].plan_id->0, day)
                    } by {
                        if i < rest.len() {
                            assert(all[i] == rest[i]);
                            assert(rest[i].id == -1);
                        } else {
                            assert(all[i] == more[i - rest.len()]);
                            assert(more[i - rest.len()].id == -1);
                        }
                    }
                    assert(all_untaken_plans(all, events, day, level));
                    assert(phantom_events(events, templates, schedules, day, level) == all);
                },
                None => {},
            }
        }
    }
}

/// A stable sort by start keeps the same events: an event is in the result
/// exactly when it is in what was sorted.
pub proof fn law_stable_sort_keeps_events(s: Seq<EventView>, r: Seq<EventView>, x: EventView)
    requires
        is_stable_sort_by_start(s, r),
    ensures
        r.contains(x) <==> s.contains(x),
{
    let pred = |e: EventView| e.start == x.start;
    assert(with_start(r, x.start) == r.filter(pred));
    assert(with_start(s, x.start) == s.filter(pred));
    if r.contains(x) {
        let i = choose|i: int| 0 <= i < r.len() && r[i] == x;
        r.lemma_filter_contains(pred, i);
        s.lemma_filter_contains_rev(pred, x);
    }
    if s.contains(x) {
        let i = choose|i: int| 0 <= i < s.len() && s[i] == x;
        s.lemma_filter_contains(pred, i);
        r.lemma_filter_contains_rev(pred, x);
    }
}

} // verus!
