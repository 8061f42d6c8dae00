use calendar_frontend::calendar::{Date, DateTime, Time, Weekday};
use calendar_frontend::config::Config;
use calendar_frontend::model::{
    AccessLevel, Event, EventPlan, EventTemplate, EventVisibility, NewEvent, Role, Schedule, User,
};
use calendar_frontend::requests::{
    ApiRequest, AppRequestInfo, AppRequestResponse, LoginResponse, RequestDescription,
};
use calendar_frontend::signal::{RequestSignal, StateSignal};
use calendar_frontend::state::State;

const MONDAY: i32 = 738886;

fn config() -> Config {
    Config { is_localhost: false, api_url: "http://api.example:80/".to_string() }
}

fn level(id: i32, level: i32, edit_rights: bool) -> AccessLevel {
    AccessLevel { id, user_id: 7, name: format!("level {id}"), level, edit_rights }
}

fn login_response() -> LoginResponse {
    LoginResponse {
        user: User { id: 7, name: "Ann".to_string(), email: "ann@mail".to_string(), roles: vec![] },
        key: vec![1, 2, 3],
        access_level: level(1, 0, true),
    }
}

fn signed_in() -> State {
    let mut s = State::new(&config());
    s.parse_request(AppRequestResponse::Login(login_response()), AppRequestInfo::Empty);
    s.take_outgoing_requests();
    s
}

fn at(day: i32, hours: u32) -> DateTime {
    DateTime::new(Date { days_from_ce: day }, Time { secs: hours * 3600 })
}

fn event(id: i32, day: i32, hours: u32, level: i32, visibility: EventVisibility) -> Event {
    Event {
        id,
        user_id: 7,
        name: format!("event {id}"),
        description: None,
        start: at(day, hours),
        end: at(day, hours + 1),
        access_level: level,
        visibility,
        plan_id: None,
    }
}

#[test]
fn a_new_state_has_nobody_and_nothing() {
    let s = State::new(&config());
    assert!(s.get_me().is_none());
    assert!(s.get_events().is_empty());
    assert!(s.get_access_levels().is_empty());
    assert_eq!(s.connector.server_url(), "http://api.example:80/");
}

#[test]
fn login_queues_an_unsigned_request() {
    let mut s = State::new(&config());
    let id = s.login("ann@mail", "secret", RequestDescription::new());
    assert_eq!(id, 0);
    let out = s.take_outgoing_requests();
    assert_eq!(out.len(), 1);
    assert_eq!(out[0].id, 0);
    assert!(out[0].credentials.is_none());
    assert!(matches!(&out[0].request, ApiRequest::Login { email, password } if email == "ann@mail" && password == "secret"));
    assert!(s.take_outgoing_requests().is_empty());
}

#[test]
fn a_sign_in_reply_signs_in_and_loads_everything() {
    let mut s = State::new(&config());
    s.login("ann@mail", "secret", RequestDescription::new());
    s.take_outgoing_requests();
    let polled = s.poll(vec![(0, AppRequestResponse::Login(login_response()))]);
    assert_eq!(polled, vec![0]);
    let me = s.get_me().as_ref().unwrap();
    assert_eq!(me.user.id, 7);
    assert_eq!(me.key, vec![1, 2, 3]);
    assert_eq!(s.get_access_level().id, 1);
    let out = s.take_outgoing_requests();
    assert_eq!(out.len(), 5);
    assert!(matches!(out[0].request, ApiRequest::LoadAccessLevels));
    assert!(matches!(out[1].request, ApiRequest::LoadEvents));
    assert!(matches!(out[2].request, ApiRequest::LoadUserRoles));
    assert!(matches!(out[3].request, ApiRequest::LoadEventTemplates));
    assert!(matches!(out[4].request, ApiRequest::LoadSchedules));
    for (k, o) in out.iter().enumerate() {
        assert_eq!(o.id as usize, k + 1);
        let c = o.credentials.as_ref().unwrap();
        assert_eq!(c.user_id, 7);
        assert_eq!(c.key, vec![1, 2, 3]);
    }
}

#[test]
fn replies_to_unknown_requests_are_ignored() {
    let mut s = State::new(&config());
    let polled = s.poll(vec![(42, AppRequestResponse::Login(login_response()))]);
    assert_eq!(polled, vec![42]);
    assert!(s.get_me().is_none());
    assert!(s.take_outgoing_requests().is_empty());
}

#[test]
fn access_levels_are_sorted_stably_by_level() {
    let mut s = signed_in();
    s.parse_request(
        AppRequestResponse::LoadAccessLevels(vec![level(10, 2, false), level(11, 0, false), level(12, 2, true)]),
        AppRequestInfo::Empty,
    );
    let ids: Vec<i32> = s.get_access_levels().iter().map(|l| l.id).collect();
    assert_eq!(ids, vec![11, 10, 12]);
}

#[test]
fn the_access_level_in_use_prefers_editors_then_the_first() {
    let mut s = signed_in();
    s.parse_request(
        AppRequestResponse::LoadAccessLevels(vec![level(10, 2, false), level(11, 0, false), level(12, 2, true)]),
        AppRequestInfo::Empty,
    );
    assert_eq!(s.get_access_level().id, 11);
    s.change_access_level(2);
    assert_eq!(s.get_access_level().id, 12);
    s.change_access_level(5);
    assert_eq!(s.get_access_level().id, 12);
    s.parse_request(
        AppRequestResponse::LoadAccessLevels(vec![level(20, 3, false), level(21, 3, false)]),
        AppRequestInfo::Empty,
    );
    s.change_access_level(3);
    assert_eq!(s.get_access_level().id, 20);
}

#[test]
fn roles_go_to_the_signed_in_user() {
    let mut s = signed_in();
    s.parse_request(AppRequestResponse::LoadUserRoles(vec![Role::Admin]), AppRequestInfo::Empty);
    assert_eq!(s.get_me().as_ref().unwrap().roles, vec![Role::Admin]);
}

#[test]
fn prepared_days_hold_seen_and_planned_events_by_start() {
    let mut s = signed_in();
    s.parse_request(
        AppRequestResponse::LoadEvents(vec![
            event(1, MONDAY, 15, 0, EventVisibility::Show),
            event(2, MONDAY, 8, 5, EventVisibility::HideName),
            event(3, MONDAY, 9, 5, EventVisibility::HideAll),
            event(4, MONDAY + 1, 9, 0, EventVisibility::Show),
        ]),
        AppRequestInfo::Empty,
    );
    s.parse_request(
        AppRequestResponse::LoadEventTemplates(vec![EventTemplate {
            id: 30,
            user_id: 7,
            name: "standup".to_string(),
            event_name: "Standup".to_string(),
            event_description: None,
            duration: 900,
            access_level: 0,
        }]),
        AppRequestInfo::Empty,
    );
    s.parse_request(
        AppRequestResponse::LoadSchedules(vec![Schedule {
            id: 40,
            user_id: 7,
            template_id: 30,
            name: "daily".to_string(),
            description: None,
            access_level: 0,
            event_plans: vec![
                EventPlan { id: 100, schedule_id: 40, weekday: Weekday::Mon, time: Time { secs: 15 * 3600 } },
                EventPlan { id: 101, schedule_id: 40, weekday: Weekday::Tue, time: Time { secs: 10 * 3600 } },
            ],
        }]),
        AppRequestInfo::Empty,
    );
    let day = s.get_prepared_events_for_date(Date { days_from_ce: MONDAY });
    let summary: Vec<(i32, String, Option<i32>)> =
        day.iter().map(|e| (e.id, e.name.clone(), e.plan_id)).collect();
    assert_eq!(
        summary,
        vec![
            (2, "".to_string(), None),
            (1, "event 1".to_string(), None),
            (-1, "Standup".to_string(), Some(100)),
        ]
    );
    assert_eq!(day[2].end, DateTime::new(Date { days_from_ce: MONDAY }, Time { secs: 15 * 3600 + 900 }));
    assert_eq!(s.get_events_for_date(Date { days_from_ce: MONDAY }).len(), 3);
}

#[test]
fn changing_the_access_level_drops_prepared_days() {
    let mut s = signed_in();
    s.parse_request(
        AppRequestResponse::LoadEvents(vec![event(1, MONDAY, 9, 3, EventVisibility::HideAll)]),
        AppRequestInfo::Empty,
    );
    assert!(s.get_prepared_events_for_date(Date { days_from_ce: MONDAY }).is_empty());
    s.parse_request(
        AppRequestResponse::LoadAccessLevels(vec![level(1, 0, true), level(2, 3, true)]),
        AppRequestInfo::Empty,
    );
    s.change_access_level(3);
    assert_eq!(s.get_prepared_events_for_date(Date { days_from_ce: MONDAY }).len(), 1);
}

#[test]
fn a_deleted_event_leaves_the_table() {
    let mut s = signed_in();
    s.parse_request(
        AppRequestResponse::LoadEvents(vec![
            event(1, MONDAY, 9, 0, EventVisibility::Show),
            event(2, MONDAY, 10, 0, EventVisibility::Show),
        ]),
        AppRequestInfo::Empty,
    );
    s.parse_request(AppRequestResponse::DeleteEvent, AppRequestInfo::DeleteEvent(1));
    let ids: Vec<i32> = s.get_events().iter().map(|e| e.id).collect();
    assert_eq!(ids, vec![2]);
}

#[test]
fn an_updated_event_is_loaded_again() {
    let mut s = signed_in();
    s.parse_request(AppRequestResponse::UpdateEvent, AppRequestInfo::UpdateEvent(5));
    let out = s.take_outgoing_requests();
    assert_eq!(out.len(), 1);
    assert!(matches!(out[0].request, ApiRequest::LoadEvent { id: 5 }));
    s.parse_request(AppRequestResponse::LoadEvent(event(5, MONDAY, 9, 0, EventVisibility::Show)), AppRequestInfo::LoadEvent(5));
    assert_eq!(s.get_events()[0].id, 5);
}

#[test]
fn logout_forgets_the_user() {
    let mut s = signed_in();
    s.parse_request(
        AppRequestResponse::LoadEvents(vec![event(1, MONDAY, 9, 0, EventVisibility::Show)]),
        AppRequestInfo::Empty,
    );
    s.logout(RequestDescription::new());
    assert!(s.get_me().is_none());
    assert!(s.get_events().is_empty());
    let out = s.take_outgoing_requests();
    assert!(matches!(out[0].request, ApiRequest::Logout));
    assert_eq!(out[0].credentials.as_ref().unwrap().user_id, 7);
}

#[test]
fn inserting_an_event_for_nobody_inserts_it_for_the_user() {
    let mut s = signed_in();
    let e = NewEvent {
        user_id: -1,
        name: "lunch".to_string(),
        description: None,
        start: at(MONDAY, 12),
        end: at(MONDAY, 13),
        access_level: 0,
        visibility: EventVisibility::Show,
        plan_id: None,
    };
    s.insert_event(e, RequestDescription::new());
    let out = s.take_outgoing_requests();
    assert!(matches!(&out[0].request, ApiRequest::InsertEvent(n) if n.user_id == 7 && n.name == "lunch"));
}

#[test]
fn accepting_a_scheduled_event_inserts_it() {
    let mut s = signed_in();
    s.parse_request(
        AppRequestResponse::LoadEventTemplates(vec![EventTemplate {
            id: 30,
            user_id: 7,
            name: "gym".to_string(),
            event_name: "Gym".to_string(),
            event_description: Some("legs".to_string()),
            duration: 3600,
            access_level: 2,
        }]),
        AppRequestInfo::Empty,
    );
    s.parse_request(
        AppRequestResponse::LoadSchedules(vec![Schedule {
            id: 40,
            user_id: 7,
            template_id: 30,
            name: "weekly".to_string(),
            description: None,
            access_level: 0,
            event_plans: vec![EventPlan { id: 100, schedule_id: 40, weekday: Weekday::Mon, time: Time { secs: 18 * 3600 } }],
        }]),
        AppRequestInfo::Empty,
    );
    s.parse_signal(StateSignal::RequestSignal(
        RequestDescription::new(),
        RequestSignal::AcceptScheduledEvent(Date { days_from_ce: MONDAY }, 100),
    ));
    let out = s.take_outgoing_requests();
    assert_eq!(out.len(), 1);
    match &out[0].request {
        ApiRequest::InsertEvent(n) => {
            assert_eq!(n.user_id, 7);
            assert_eq!(n.name, "Gym");
            assert_eq!(n.description.as_deref(), Some("legs"));
            assert_eq!(n.start, at(MONDAY, 18));
            assert_eq!(n.end, at(MONDAY, 19));
            assert_eq!(n.access_level, 2);
            assert_eq!(n.visibility, EventVisibility::HideAll);
            assert_eq!(n.plan_id, Some(100));
        }
        other => panic!("unexpected request {other:?}"),
    }
    s.parse_signal(StateSignal::RequestSignal(
        RequestDescription::new(),
        RequestSignal::AcceptScheduledEvent(Date { days_from_ce: MONDAY }, 999),
    ));
    assert!(s.take_outgoing_requests().is_empty());
}

#[test]
fn a_chosen_request_id_is_kept() {
    let mut s = signed_in();
    let id = s.load_events(RequestDescription::new().with_request_id(77));
    assert_eq!(id, 77);
    let next = s.load_events(RequestDescription::new());
    assert_eq!(next, 5);
}

#[test]
fn signals_change_the_level_and_sign_in() {
    let mut s = signed_in();
    s.parse_signal(StateSignal::ChangeAccessLevel(4));
    s.parse_signal(StateSignal::RequestSignal(
        RequestDescription::new(),
        RequestSignal::Login("b@mail".to_string(), "pw".to_string()),
    ));
    let out = s.take_outgoing_requests();
    assert!(matches!(&out[0].request, ApiRequest::Login { email, .. } if email == "b@mail"));
}
