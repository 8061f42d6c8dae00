use calendar_frontend::calendar::{Date, DateTime, Time, Weekday};
use calendar_frontend::main_state::{LoadGrantedPermissionsRequest, LoadStateRequest, LoginRequest, State};
use calendar_frontend::model::{AccessLevel, Event, EventPlan, EventTemplate, EventVisibility, Role, Schedule, User};
use calendar_frontend::requests::{LoadBadRequestResponse, UserStateBadRequestResponse, UserStateData};
use calendar_frontend::user_state::{
    GrantedPermission, Permissions, StateRequest, TableKind, TablePermissions, UserUtils,
};

const MONDAY: i32 = 738886;

fn user(id: i32, roles: Vec<Role>) -> User {
    User { id, name: format!("user {id}"), email: format!("{id}@mail"), roles }
}

fn event(id: i32, hours: u32, level: i32) -> Event {
    Event {
        id,
        user_id: 7,
        name: format!("event {id}"),
        description: None,
        start: DateTime::new(Date { days_from_ce: MONDAY }, Time { secs: hours * 3600 }),
        end: DateTime::new(Date { days_from_ce: MONDAY }, Time { secs: hours * 3600 + 60 }),
        access_level: level,
        visibility: EventVisibility::Show,
        plan_id: None,
    }
}

fn view_only() -> Permissions {
    let view = TablePermissions { view: true, create: false };
    Permissions { access_levels: view, events: view, event_templates: view, schedules: view, allow_share: false }
}

fn grant(id: i32, giver: i32, receiver: i32) -> GrantedPermission {
    GrantedPermission { id, giver_user_id: giver, receiver_user_id: receiver, permissions: view_only() }
}

fn signed_in(id: i32, roles: Vec<Role>) -> State {
    let mut s = State::new();
    LoginRequest::push_to_state(user(id, roles), "token".to_string(), &mut s);
    s.take_requests();
    s
}

#[test]
fn nobody_is_signed_in_at_first() {
    let s = State::new();
    assert!(s.try_get_me().is_none());
    assert_eq!(s.get_me().id, 0);
    assert!(s.user_state.events.items().is_empty());
}

#[test]
fn signing_in_loads_the_own_data() {
    let mut s = State::new();
    LoginRequest::push_to_state(user(7, vec![]), "token".to_string(), &mut s);
    assert_eq!(s.try_get_me().unwrap().id, 7);
    assert_eq!(s.user_state.user_id(), 7);
    assert_eq!(s.user_state.events.user_id(), 7);
    let out = s.take_requests();
    assert_eq!(out.len(), 1);
    assert!(matches!(out[0], StateRequest::LoadState { user_id: 7 }));
}

#[test]
fn an_administrator_signing_in_loads_all_users() {
    let mut s = State::new();
    LoginRequest::push_to_state(user(1, vec![Role::SuperAdmin]), "t".to_string(), &mut s);
    assert!(s.get_me().is_admin());
    let out = s.take_requests();
    assert!(matches!(out[0], StateRequest::LoadAll { table: TableKind::Users, .. }));
}

#[test]
fn roles_decide_who_is_an_administrator() {
    assert!(user(1, vec![Role::Admin]).is_admin());
    assert!(user(1, vec![Role::SuperAdmin]).is_admin());
    assert!(!user(1, vec![]).is_admin());
    assert!(user(1, vec![Role::Admin]).has_role(Role::Admin));
    assert!(!user(1, vec![Role::Admin]).has_role(Role::SuperAdmin));
}

#[test]
fn loaded_data_is_what_reading_gives() {
    let mut s = signed_in(7, vec![]);
    let data = UserStateData {
        access_levels: vec![AccessLevel { id: 1, user_id: 7, name: "all".to_string(), level: 0, edit_rights: true }],
        events: vec![event(1, 9, 0)],
        schedules: vec![],
        event_templates: vec![],
    };
    LoadStateRequest::push_to_state(data, 7, &mut s);
    let us = s.get_user_state(7);
    assert_eq!(us.events.items().len(), 1);
    assert_eq!(us.access_levels.items()[0].id, 1);
}

#[test]
fn permissions_are_full_for_oneself_and_granted_for_others() {
    let mut s = signed_in(7, vec![]);
    assert_eq!(s.get_user_permissions(7), Permissions::full());
    assert_eq!(s.get_user_permissions(8), Permissions::none());
    LoadGrantedPermissionsRequest::push_to_state(vec![(user(8, vec![]), grant(1, 8, 7))], 7, &mut s);
    assert_eq!(s.get_user_permissions(8), view_only());
    assert_eq!(s.granted_states.len(), 1);
    assert_eq!(s.get_user_state(7).granted_permissions.items().len(), 1);
    let out = s.take_requests();
    assert!(matches!(out[0], StateRequest::LoadState { user_id: 8 }));
    let admin = signed_in(1, vec![Role::Admin]);
    assert_eq!(admin.get_user_permissions(99), Permissions::full());
}

#[test]
fn reading_an_unknown_user_gives_the_own_data() {
    let s = signed_in(7, vec![]);
    assert!(s.try_get_user_state(8).is_none());
    assert_eq!(s.get_user_state(8).user_id(), 7);
}

#[test]
fn new_grants_start_granted_data_once() {
    let mut s = signed_in(7, vec![]);
    GrantedPermission::push_from_load_all(&mut s, 7, vec![grant(1, 8, 7), grant(2, 9, 7), grant(3, 7, 5)]);
    assert_eq!(s.granted_states.len(), 2);
    assert_eq!(s.granted_states[0].user.id, 8);
    assert_eq!(s.granted_states[1].user.id, 9);
    let out = s.take_requests();
    assert!(matches!(out[0], StateRequest::LoadState { user_id: 8 }));
    assert!(matches!(out[1], StateRequest::LoadState { user_id: 9 }));
    assert!(matches!(out[2], StateRequest::LoadAll { table: TableKind::Users, .. }));
    s.populate_granted_user_states(7);
    assert_eq!(s.granted_states.len(), 2);
    assert!(s.take_requests().is_empty());
}

#[test]
fn granted_users_are_refreshed_from_the_own_users() {
    let mut s = signed_in(7, vec![]);
    GrantedPermission::push_from_load_all(&mut s, 7, vec![grant(1, 8, 7)]);
    assert_eq!(s.granted_states[0].user.name, "");
    User::push_from_load_all(&mut s, 7, vec![user(8, vec![])]);
    assert_eq!(s.granted_states[0].user.name, "user 8");
}

#[test]
fn table_replies_change_the_right_table() {
    let mut s = signed_in(7, vec![]);
    Event::push_from_load_all(&mut s, 7, vec![event(1, 9, 0), event(2, 10, 0)]);
    Event::push_from_load_by_id(&mut s, 7, 3, event(3, 11, 0));
    Event::push_from_delete(&mut s, 7, 1);
    let ids: Vec<i32> = s.user_state.events.items().iter().map(|e| e.id).collect();
    assert_eq!(ids, vec![2, 3]);
    Event::push_bad_from_load_by_id(&mut s, 7, 2, LoadBadRequestResponse::NotFound);
    let ids: Vec<i32> = s.user_state.events.items().iter().map(|e| e.id).collect();
    assert_eq!(ids, vec![3]);
    Event::push_from_update(&mut s, 7, 3);
    Event::push_from_insert(&mut s, 7);
    let out = s.take_requests();
    assert!(matches!(out[0], StateRequest::LoadById { table: TableKind::Events, user_id: 7, id: 3 }));
    assert!(matches!(out[1], StateRequest::LoadAll { table: TableKind::Events, user_id: 7 }));
    Schedule::push_from_load_all(&mut s, 7, vec![]);
    EventTemplate::push_bad_from_delete(&mut s, 7, 4);
    let out = s.take_requests();
    assert!(matches!(out[0], StateRequest::LoadById { table: TableKind::EventTemplates, user_id: 7, id: 4 }));
    AccessLevel::push_from_load_all(&mut s, 7, vec![]);
    Role::push_from_load_all(&mut s, 7, vec![Role::Admin]);
    assert!(s.get_me().is_admin());
}

#[test]
fn an_administrator_gets_fresh_data_for_any_user() {
    let mut s = signed_in(1, vec![Role::Admin]);
    assert!(s.try_get_user_state(5).is_none());
    Event::push_from_load_all(&mut s, 5, vec![event(1, 9, 0)]);
    assert_eq!(s.try_get_user_state(5).unwrap().events.items().len(), 1);
    assert_eq!(s.get_user_state_mut(6).user_id(), 6);
    LoadStateRequest::push_bad_to_state(UserStateBadRequestResponse::UserNotFound, 5, &mut s);
    assert!(s.try_get_user_state(5).is_none());
}

#[test]
fn prepared_days_follow_the_user() {
    let mut s = signed_in(7, vec![]);
    Event::push_from_load_all(&mut s, 7, vec![event(1, 9, 0), event(2, 8, 0)]);
    EventTemplate::push_from_load_all(
        &mut s,
        7,
        vec![EventTemplate {
            id: 3,
            user_id: 7,
            name: "t".to_string(),
            event_name: "planned".to_string(),
            event_description: None,
            duration: 60,
            access_level: 0,
        }],
    );
    Schedule::push_from_load_all(
        &mut s,
        7,
        vec![Schedule {
            id: 4,
            user_id: 7,
            template_id: 3,
            name: "s".to_string(),
            description: None,
            access_level: 0,
            event_plans: vec![EventPlan { id: 5, schedule_id: 4, weekday: Weekday::Mon, time: Time { secs: 7 * 3600 } }],
        }],
    );
    s.prepare_date(7, 0, Date { days_from_ce: MONDAY });
    let names: Vec<String> = s.get_events_for_date(Date { days_from_ce: MONDAY }).iter().map(|e| e.name.clone()).collect();
    assert_eq!(names, vec!["planned", "event 2", "event 1"]);
    s.prepare_date(8, 0, Date { days_from_ce: MONDAY });
    assert_eq!(s.get_events_for_date(Date { days_from_ce: MONDAY }).len(), 3);
    let phantom = s.generate_phantom_events(7, 0, Date { days_from_ce: MONDAY + 1 });
    assert!(phantom.is_empty());
}

#[test]
fn accepting_a_plan_asks_for_the_event() {
    let mut s = signed_in(7, vec![]);
    EventTemplate::push_from_load_all(
        &mut s,
        7,
        vec![EventTemplate {
            id: 3,
            user_id: 7,
            name: "t".to_string(),
            event_name: "planned".to_string(),
            event_description: None,
            duration: 600,
            access_level: 1,
        }],
    );
    Schedule::push_from_load_all(
        &mut s,
        7,
        vec![
            Schedule {
                id: 4,
                user_id: 7,
                template_id: 99,
                name: "orphan".to_string(),
                description: None,
                access_level: 0,
                event_plans: vec![EventPlan { id: 5, schedule_id: 4, weekday: Weekday::Mon, time: Time { secs: 3600 } }],
            },
            Schedule {
                id: 6,
                user_id: 7,
                template_id: 3,
                name: "good".to_string(),
                description: None,
                access_level: 0,
                event_plans: vec![EventPlan { id: 5, schedule_id: 6, weekday: Weekday::Mon, time: Time { secs: 7200 } }],
            },
        ],
    );
    let request = s.user_state.accept_scheduled_event(5, Date { days_from_ce: MONDAY }).unwrap();
    match &request {
        StateRequest::InsertEvent { user_id, event } => {
            assert_eq!(*user_id, 7);
            assert_eq!(event.user_id, -1);
            assert_eq!(event.start.time.secs, 7200);
            assert_eq!(event.end.time.secs, 7800);
            assert_eq!(event.access_level, 1);
        }
        other => panic!("unexpected {other:?}"),
    }
    s.push_request(request);
    assert_eq!(s.take_requests().len(), 1);
    assert!(s.user_state.accept_scheduled_event(6, Date { days_from_ce: MONDAY }).is_none());
}

#[test]
fn signing_out_forgets_everything_and_queues_the_sign_out() {
    let mut s = signed_in(7, vec![]);
    Event::push_from_load_all(&mut s, 7, vec![event(1, 9, 0)]);
    s.logout();
    assert!(s.try_get_me().is_none());
    assert!(s.user_state.events.items().is_empty());
    assert!(matches!(s.take_requests()[0], StateRequest::Logout));
    s.login("a@mail".to_string(), "pw".to_string());
    s.login_by_jwt("jwt".to_string());
    s.register("n".to_string(), "e".to_string(), "p".to_string());
    assert_eq!(s.take_requests().len(), 3);
}

#[test]
fn refused_grants_drop_the_granted_data() {
    let mut s = signed_in(7, vec![]);
    LoadGrantedPermissionsRequest::push_to_state(vec![(user(8, vec![]), grant(1, 8, 7))], 7, &mut s);
    LoadGrantedPermissionsRequest::push_bad_to_state(7, &mut s);
    assert!(s.granted_states.is_empty());
    assert_eq!(s.get_user_permissions(8), Permissions::none());
}
