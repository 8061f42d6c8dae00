use calendar_frontend::config::Config;

#[test]
fn remote_pages_use_the_api_subdomain() {
    let c = Config::from_location("calendar.example", "8080");
    assert!(!c.is_localhost);
    assert_eq!(c.api_url, "http://api.calendar.example:8080/");
}

#[test]
fn local_pages_use_the_local_server() {
    let c = Config::from_location("127.0.0.1", "3000");
    assert!(c.is_localhost);
    assert_eq!(c.api_url, "http://api.locahost:8081/");
    let c = Config::from_location("locahost", "1");
    assert!(c.is_localhost);
    assert_eq!(c.api_url, "http://api.locahost:8081/");
}

#[test]
fn configs_clone() {
    let c = Config { is_localhost: true, api_url: "u".to_string() };
    let d = c.clone();
    assert_eq!(d.api_url, "u");
    assert!(d.is_localhost);
}
