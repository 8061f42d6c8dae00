use calendar_frontend::config::Config;
use calendar_frontend::model::{AccessLevel, Event, User};
use calendar_frontend::requests::{
    classify_reply, ApiRequest, AppRequestInfo, AppRequestResponse, LoginResponse, ReplyClass,
    RequestDescription,
};
use calendar_frontend::state::{reply_needs_signed_in, reply_request_count, State};
use calendar_frontend::user_state::{StateRequest, StateRequestInfo, StateTable, TableKind};

fn login_response() -> LoginResponse {
    LoginResponse {
        user: User { id: 3, name: "Bo".to_string(), email: "bo@mail".to_string(), roles: vec![] },
        key: vec![9],
        access_level: AccessLevel { id: 1, user_id: 3, name: "all".to_string(), level: 0, edit_rights: true },
    }
}

#[test]
fn successful_replies_are_answers() {
    assert_eq!(classify_reply(&ApiRequest::LoadEvents, 200), ReplyClass::Success);
    assert_eq!(classify_reply(&ApiRequest::Logout, 200), ReplyClass::Success);
}

#[test]
fn named_refusals_are_read_as_reasons() {
    let login = ApiRequest::Login { email: "e".to_string(), password: "p".to_string() };
    assert_eq!(classify_reply(&login, 400), ReplyClass::Refusal);
    assert_eq!(classify_reply(&ApiRequest::LoadEvent { id: 1 }, 400), ReplyClass::Refusal);
    assert_eq!(classify_reply(&ApiRequest::LoadEvents, 400), ReplyClass::Error);
    assert_eq!(classify_reply(&login, 500), ReplyClass::Error);
}

#[test]
fn a_failed_sign_out_says_so() {
    assert_eq!(classify_reply(&ApiRequest::Logout, 400), ReplyClass::LogoutError);
    assert_eq!(classify_reply(&ApiRequest::Logout, 500), ReplyClass::LogoutError);
}

#[test]
fn which_replies_need_a_signed_in_user() {
    assert!(!reply_needs_signed_in(&AppRequestResponse::Login(login_response()), &AppRequestInfo::Empty));
    assert!(reply_needs_signed_in(&AppRequestResponse::InsertEvent, &AppRequestInfo::Empty));
    assert!(!reply_needs_signed_in(&AppRequestResponse::UpdateEvent, &AppRequestInfo::Empty));
    assert!(reply_needs_signed_in(&AppRequestResponse::UpdateEvent, &AppRequestInfo::UpdateEvent(1)));
    assert_eq!(reply_request_count(&AppRequestResponse::Login(login_response()), &AppRequestInfo::Empty), 5);
    assert_eq!(reply_request_count(&AppRequestResponse::LoadEvents(vec![]), &AppRequestInfo::Empty), 0);
}

#[test]
fn replies_that_need_a_user_wait_for_one() {
    let mut s = State::new(&Config { is_localhost: false, api_url: "u".to_string() });
    assert!(!s.try_parse_request(AppRequestResponse::InsertEvent, AppRequestInfo::Empty));
    assert!(s.take_outgoing_requests().is_empty());
    assert!(s.try_parse_request(AppRequestResponse::Login(login_response()), AppRequestInfo::Empty));
    assert!(s.try_parse_request(AppRequestResponse::InsertEvent, AppRequestInfo::Empty));
    assert_eq!(s.take_outgoing_requests().len(), 6);
}

#[test]
fn checked_polling_handles_what_it_can() {
    let mut s = State::new(&Config { is_localhost: false, api_url: "u".to_string() });
    let a = s.load_events(RequestDescription::new());
    let b = s.login("bo@mail", "pw", RequestDescription::new());
    s.take_outgoing_requests();
    let (polled, unhandled) = s.poll_checked(vec![
        (a, AppRequestResponse::InsertEvent),
        (b, AppRequestResponse::Login(login_response())),
    ]);
    assert_eq!(polled, vec![a, b]);
    assert_eq!(unhandled, vec![a]);
    assert_eq!(s.get_me().as_ref().unwrap().user.id, 3);
    assert_eq!(s.take_outgoing_requests().len(), 5);
    assert_eq!(s.connector.next_request_id(), 7);
}

#[test]
fn state_tables_make_their_requests() {
    let t: StateTable<Event> = StateTable::new();
    assert_eq!(t.user_id(), -1);
    assert!(matches!(t.load_all(), StateRequest::LoadAll { table: TableKind::Events, user_id: -1 }));
    assert!(matches!(t.load_by_id(4), StateRequest::LoadById { table: TableKind::Events, user_id: -1, id: 4 }));
    assert!(matches!(t.delete(4), StateRequest::Delete { table: TableKind::Events, user_id: -1, id: 4 }));
    let mut users: StateTable<User> = StateTable::new();
    users.set_user_id(5);
    assert!(matches!(users.load_all(), StateRequest::LoadAll { table: TableKind::Users, user_id: 5 }));
}

#[test]
fn request_infos_remember_the_user() {
    let i = StateRequestInfo::new(4, 17);
    assert_eq!(i.user_id, 4);
    assert_eq!(i.info, 17);
    let d = StateRequestInfo::new_default(9);
    assert_eq!(d.user_id, 9);
}
