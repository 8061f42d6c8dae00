use calendar_frontend::calendar::{Date, DateTime, Time, Weekday};
use calendar_frontend::day_events::{
    events_seen_on_day, find_plan, find_plan_taken, find_schedule_of_plan, find_template,
    make_accepted_event, planned_events, seen_event,
};
use calendar_frontend::model::{Event, EventPlan, EventTemplate, EventVisibility, Schedule};

const MONDAY: i32 = 738886;

fn at(day: i32, hours: u32) -> DateTime {
    DateTime::new(Date { days_from_ce: day }, Time { secs: hours * 3600 })
}

fn event(id: i32, day: i32, hours: u32, level: i32, visibility: EventVisibility) -> Event {
    Event {
        id,
        user_id: 1,
        name: format!("event {id}"),
        description: Some(format!("about {id}")),
        start: at(day, hours),
        end: at(day, hours + 1),
        access_level: level,
        visibility,
        plan_id: None,
    }
}

fn template(id: i32, duration: u32) -> EventTemplate {
    EventTemplate {
        id,
        user_id: 1,
        name: format!("template {id}"),
        event_name: format!("from template {id}"),
        event_description: None,
        duration,
        access_level: 3,
    }
}

fn plan(id: i32, weekday: Weekday, hours: u32) -> EventPlan {
    EventPlan { id, schedule_id: 50, weekday, time: Time { secs: hours * 3600 } }
}

fn schedule(id: i32, template_id: i32, level: i32, plans: Vec<EventPlan>) -> Schedule {
    Schedule {
        id,
        user_id: 2,
        template_id,
        name: format!("schedule {id}"),
        description: None,
        access_level: level,
        event_plans: plans,
    }
}

#[test]
fn a_viewer_at_or_above_the_level_sees_everything() {
    let e = event(1, MONDAY, 9, 2, EventVisibility::HideAll);
    let seen = seen_event(&e, 2).unwrap();
    assert_eq!(seen.name, "event 1");
    assert_eq!(seen.description.as_deref(), Some("about 1"));
}

#[test]
fn below_the_level_visibility_decides() {
    let hide_all = event(1, MONDAY, 9, 5, EventVisibility::HideAll);
    assert!(seen_event(&hide_all, 0).is_none());
    let hide_name = seen_event(&event(2, MONDAY, 9, 5, EventVisibility::HideName), 0).unwrap();
    assert_eq!(hide_name.name, "");
    assert!(hide_name.description.is_none());
    let hide_description = seen_event(&event(3, MONDAY, 9, 5, EventVisibility::HideDescription), 0).unwrap();
    assert_eq!(hide_description.name, "event 3");
    assert!(hide_description.description.is_none());
    let show = seen_event(&event(4, MONDAY, 9, 5, EventVisibility::Show), 0).unwrap();
    assert_eq!(show.description.as_deref(), Some("about 4"));
}

#[test]
fn only_the_day_events_are_seen() {
    let events = vec![
        event(1, MONDAY, 9, 0, EventVisibility::Show),
        event(2, MONDAY + 1, 9, 0, EventVisibility::Show),
        event(3, MONDAY, 8, 9, EventVisibility::HideAll),
        event(4, MONDAY, 7, 0, EventVisibility::Show),
    ];
    let seen = events_seen_on_day(&events, Date { days_from_ce: MONDAY }, 0);
    let ids: Vec<i32> = seen.iter().map(|e| e.id).collect();
    assert_eq!(ids, vec![1, 4]);
}

#[test]
fn plans_on_the_weekday_become_events() {
    let templates = vec![template(7, 1800)];
    let schedules = vec![schedule(
        50,
        7,
        1,
        vec![plan(100, Weekday::Mon, 9), plan(101, Weekday::Tue, 9), plan(102, Weekday::Mon, 14)],
    )];
    let events: Vec<Event> = vec![];
    let planned = planned_events(&events, &templates, &schedules, Date { days_from_ce: MONDAY }, 1);
    assert_eq!(planned.len(), 2);
    let e = &planned[0];
    assert_eq!(e.id, -1);
    assert_eq!(e.user_id, 2);
    assert_eq!(e.name, "from template 7");
    assert_eq!(e.start, at(MONDAY, 9));
    assert_eq!(e.end, DateTime::new(Date { days_from_ce: MONDAY }, Time { secs: 9 * 3600 + 1800 }));
    assert_eq!(e.access_level, 1);
    assert_eq!(e.visibility, EventVisibility::HideAll);
    assert_eq!(e.plan_id, Some(100));
    assert_eq!(planned[1].plan_id, Some(102));
}

#[test]
fn taken_plans_and_hidden_schedules_plan_nothing() {
    let templates = vec![template(7, 1800)];
    let schedules = vec![
        schedule(50, 7, 1, vec![plan(100, Weekday::Mon, 9), plan(102, Weekday::Mon, 14)]),
        schedule(51, 7, 4, vec![plan(103, Weekday::Mon, 10)]),
        schedule(52, 99, 0, vec![plan(104, Weekday::Mon, 11)]),
    ];
    let mut taken = event(1, MONDAY, 9, 0, EventVisibility::Show);
    taken.plan_id = Some(100);
    let events = vec![taken];
    assert!(find_plan_taken(&events, 100, Date { days_from_ce: MONDAY }));
    assert!(!find_plan_taken(&events, 100, Date { days_from_ce: MONDAY + 7 }));
    let planned = planned_events(&events, &templates, &schedules, Date { days_from_ce: MONDAY }, 1);
    let plans: Vec<Option<i32>> = planned.iter().map(|e| e.plan_id).collect();
    assert_eq!(plans, vec![Some(102)]);
}

#[test]
fn lookups_take_the_first_match() {
    let templates = vec![template(7, 10), template(8, 20), template(7, 30)];
    assert_eq!(find_template(&templates, 7).unwrap().duration, 10);
    assert!(find_template(&templates, 9).is_none());
    let plans = vec![plan(1, Weekday::Mon, 1), plan(2, Weekday::Tue, 2), plan(2, Weekday::Wed, 3)];
    assert_eq!(find_plan(&plans, 2).unwrap().weekday, Weekday::Tue);
    assert!(find_plan(&plans, 3).is_none());
    let schedules = vec![
        schedule(50, 7, 0, vec![plan(1, Weekday::Mon, 1)]),
        schedule(51, 8, 0, vec![plan(2, Weekday::Mon, 1)]),
    ];
    let (s, p) = find_schedule_of_plan(&schedules, 2).unwrap();
    assert_eq!(s.id, 51);
    assert_eq!(p.id, 2);
    assert!(find_schedule_of_plan(&schedules, 3).is_none());
}

#[test]
fn accepting_a_plan_makes_the_event() {
    let templates = vec![template(7, 5400)];
    let schedules = vec![schedule(50, 7, 0, vec![plan(100, Weekday::Mon, 22)])];
    let e = make_accepted_event(&templates, &schedules, Date { days_from_ce: MONDAY }, 100).unwrap();
    assert_eq!(e.user_id, -1);
    assert_eq!(e.name, "from template 7");
    assert_eq!(e.start, at(MONDAY, 22));
    assert_eq!(e.end, DateTime::new(Date { days_from_ce: MONDAY }, Time { secs: 22 * 3600 + 5400 }));
    assert_eq!(e.access_level, 3);
    assert_eq!(e.visibility, EventVisibility::HideAll);
    assert_eq!(e.plan_id, Some(100));
    assert!(make_accepted_event(&templates, &schedules, Date { days_from_ce: MONDAY }, 101).is_none());
    let orphan = vec![schedule(50, 8, 0, vec![plan(100, Weekday::Mon, 22)])];
    assert!(make_accepted_event(&templates, &orphan, Date { days_from_ce: MONDAY }, 100).is_none());
}

#[test]
fn accepted_events_may_end_the_next_day() {
    let templates = vec![template(7, 3 * 3600)];
    let schedules = vec![schedule(50, 7, 0, vec![plan(100, Weekday::Mon, 23)])];
    let e = make_accepted_event(&templates, &schedules, Date { days_from_ce: MONDAY }, 100).unwrap();
    assert_eq!(e.end, at(MONDAY + 1, 2));
}
