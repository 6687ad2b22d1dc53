use oqto::ctl::{
    admin_socket_path, auth_header, is_bus_event, mux_ws_url, replace_str, tail_limit_reached,
    use_admin_socket,
};

#[test]
fn admin_socket_choice() {
    assert_eq!(admin_socket_path(&Some("/a.sock".to_string()), &Some("/b.sock".to_string())), "/a.sock");
    assert_eq!(admin_socket_path(&None, &Some("/b.sock".to_string())), "/b.sock");
    assert_eq!(admin_socket_path(&None, &None), "/run/oqto/oqtoctl.sock");
    assert!(use_admin_socket(false, "http://localhost:8080/api", false, true));
    assert!(!use_admin_socket(false, "http://example.com/api", false, true));
    assert!(use_admin_socket(true, "http://example.com/api", false, true));
    assert!(!use_admin_socket(true, "http://localhost:8080/api", true, true));
    assert!(!use_admin_socket(true, "http://localhost:8080/api", false, false));
}

#[test]
fn credentials_header() {
    assert_eq!(
        auth_header(&Some("tok".to_string()), &Some("dev".to_string())),
        Some(("Authorization".to_string(), "Bearer tok".to_string()))
    );
    assert_eq!(
        auth_header(&None, &Some("dev".to_string())),
        Some(("X-Dev-User".to_string(), "dev".to_string()))
    );
    assert_eq!(auth_header(&None, &None), None);
}

#[test]
fn replacing_and_mux_address() {
    assert_eq!(replace_str("a-b-c", "-", "+"), "a+b+c");
    assert_eq!(replace_str("aaa", "aa", "b"), "ba");
    assert_eq!(replace_str("xyz", "q", "r"), "xyz");
    assert_eq!(replace_str("abc", "", "-"), "abc".replace("", "-"));
    assert_eq!(replace_str("", "", "-"), "-");
    assert_eq!(mux_ws_url("http://localhost:8080/api/"), "ws://localhost:8080/api/ws/mux");
    assert_eq!(mux_ws_url("https://host/api"), "wss://host/api/ws/mux");
}

#[test]
fn bus_tail_filters_and_limits() {
    assert!(is_bus_event(Some("bus"), Some("event")));
    assert!(!is_bus_event(Some("bus"), Some("ack")));
    assert!(!is_bus_event(Some("ui"), Some("event")));
    assert!(!is_bus_event(None, Some("event")));
    assert!(tail_limit_reached(3, Some(3)));
    assert!(!tail_limit_reached(2, Some(3)));
    assert!(!tail_limit_reached(100, None));
}
