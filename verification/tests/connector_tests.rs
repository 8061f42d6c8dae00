use calendar_frontend::config::Config;
use calendar_frontend::connector::DbConnector;
use calendar_frontend::requests::{
    ApiRequest, AppRequestInfo, AppRequestResponse, AppRequestResponseInfo, LoginBadRequestResponse,
    RequestDescription,
};
use calendar_frontend::requests_container::RequestCounter;

type Connector = DbConnector<AppRequestResponse, AppRequestInfo, AppRequestResponseInfo, u8>;
type Counter = RequestCounter<AppRequestResponse, AppRequestInfo, AppRequestResponseInfo, u8>;

fn connector() -> Connector {
    DbConnector::new(&Config { is_localhost: false, api_url: "http://s/".to_string() })
}

#[test]
fn request_ids_count_up_from_zero() {
    let mut c = connector();
    assert_eq!(c.request(ApiRequest::LoadEvents, None, AppRequestInfo::Empty, RequestDescription::new(), None), 0);
    assert_eq!(c.request(ApiRequest::LoadSchedules, None, AppRequestInfo::Empty, RequestDescription::new(), None), 1);
    assert_eq!(c.reserve_request_id(), 2);
    assert_eq!(c.request(ApiRequest::LoadEvents, None, AppRequestInfo::Empty, RequestDescription::new(), None), 3);
    let out = c.take_outgoing();
    let ids: Vec<u16> = out.iter().map(|o| o.id).collect();
    assert_eq!(ids, vec![0, 1, 3]);
    assert!(c.take_outgoing().is_empty());
}

#[test]
fn a_request_is_in_progress_until_its_reply_comes() {
    let mut c = connector();
    assert!(!c.any_request_in_progress());
    let id = c.request(ApiRequest::LoadEvents, None, AppRequestInfo::LoadEvent(3), RequestDescription::new(), Some(9));
    assert!(c.any_request_in_progress());
    assert!(matches!(c.get_request_info(id), Some(AppRequestInfo::LoadEvent(3))));
    let polled = c.poll(vec![(id, AppRequestResponse::LoadEvents(vec![]))]);
    assert_eq!(polled, vec![id]);
    assert!(!c.any_request_in_progress());
    assert!(matches!(c.get_response_info(id), Some(AppRequestResponseInfo::Empty)));
    assert_eq!(c.take_callback(id), Some(9));
    assert!(matches!(c.get_response(id), Some(AppRequestResponse::LoadEvents(_))));
    assert!(c.get_response(id).is_none());
}

#[test]
fn kept_results_can_be_read_again() {
    let mut c = connector();
    let id = c.request(ApiRequest::LoadEvents, None, AppRequestInfo::Empty, RequestDescription::new().save_results(), None);
    c.poll(vec![(id, AppRequestResponse::Error(500, "boom".to_string()))]);
    assert!(matches!(c.get_response(id), Some(AppRequestResponse::Error(500, _))));
    assert!(matches!(c.get_response(id), Some(AppRequestResponse::Error(500, _))));
    assert!(matches!(c.get_response_info(id), Some(AppRequestResponseInfo::Error(500, t)) if t == "boom"));
}

#[test]
fn error_summaries_name_the_refusal() {
    let mut c = connector();
    let id = c.request(ApiRequest::LoadEvents, None, AppRequestInfo::Empty, RequestDescription::new(), None);
    c.poll(vec![(id, AppRequestResponse::LoginError(LoginBadRequestResponse::WrongPassword))]);
    assert!(matches!(
        c.get_response_info(id),
        Some(AppRequestResponseInfo::LoginError(LoginBadRequestResponse::WrongPassword))
    ));
}

#[test]
fn counters_register_and_answer() {
    let mut r = Counter::new();
    let id = r.push(AppRequestInfo::Empty, RequestDescription::new(), None);
    assert_eq!(id, 0);
    assert_eq!(r.get_description(id), Some(RequestDescription::new()));
    assert!(r.get_description(5).is_none());
    assert!(r.any_request_in_progress());
    r.parse(id, AppRequestResponse::Register);
    assert!(!r.any_request_in_progress());
    assert!(matches!(r.clone_response(id), Some(AppRequestResponse::Register)));
    assert!(matches!(r.get_response(id), Some(AppRequestResponse::Register)));
    assert!(r.get_response(id).is_none());
    assert!(r.get_info(id).is_some());
    assert_eq!(r.reserve_id(), 1);
    let chosen = r.push(AppRequestInfo::Empty, RequestDescription::new().with_request_id(40), None);
    assert_eq!(chosen, 40);
    assert_eq!(r.push(AppRequestInfo::Empty, RequestDescription::new(), None), 2);
}

#[test]
fn replies_to_unregistered_requests_are_dropped() {
    let mut r = Counter::new();
    r.parse(3, AppRequestResponse::Register);
    assert!(r.get_info(3).is_none());
    assert!(r.clone_response(3).is_none());
}
