use oqto::terminal::{
    frame_client_binary, frame_client_text, relay_server_binary, relay_server_text,
    ttyd_init_message, ttyd_subprotocol, ttyd_url,
};

#[test]
fn client_messages_get_command_prefixes() {
    assert_eq!(frame_client_text("ls\r"), b"0ls\r".to_vec());
    assert_eq!(frame_client_text("{\"columns\":80,\"rows\":24}"), b"1{\"columns\":80,\"rows\":24}".to_vec());
    assert_eq!(frame_client_text("{no}"), b"0{no}".to_vec());
    assert_eq!(frame_client_text("é"), vec![b'0', 0xC3, 0xA9]);
    assert_eq!(frame_client_binary(&b"2".to_vec()), b"2".to_vec());
    assert_eq!(frame_client_binary(&b"xy".to_vec()), b"0xy".to_vec());
    assert_eq!(frame_client_binary(&vec![]), b"0".to_vec());
}

#[test]
fn server_messages_are_unwrapped_or_dropped() {
    assert_eq!(relay_server_text("0hello").as_deref(), Some("hello"));
    assert_eq!(relay_server_text("1title"), None);
    assert_eq!(relay_server_text("2{}"), None);
    assert_eq!(relay_server_text(""), None);
    assert_eq!(relay_server_text("other").as_deref(), Some("other"));
    assert_eq!(relay_server_binary(&b"0ab".to_vec()), Some(b"ab".to_vec()));
    assert_eq!(relay_server_binary(&b"1t".to_vec()), None);
    assert_eq!(relay_server_binary(&b"9z".to_vec()), Some(b"9z".to_vec()));
    assert_eq!(relay_server_binary(&vec![]), None);
}

#[test]
fn ttyd_connection_settings() {
    assert_eq!(ttyd_url(7681), "ws://localhost:7681/ws");
    assert_eq!(ttyd_init_message(), r#"{"AuthToken":"","columns":120,"rows":40}"#);
    assert_eq!(ttyd_subprotocol(), "tty");
}
