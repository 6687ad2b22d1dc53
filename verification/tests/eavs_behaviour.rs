use oqto::eavs::{
    bearer, body_error, connection_error, error_from_body, health_url, key_url, keys_url,
    read_revoke_status, read_status, status_is_success, usage_url, ApiErrorResponse, EavsError,
    StatusReading,
};

#[test]
fn endpoint_addresses() {
    let base = "http://localhost:41823";
    assert_eq!(health_url(base), "http://localhost:41823/health");
    assert_eq!(keys_url(base), "http://localhost:41823/admin/keys");
    assert_eq!(key_url(base, "k1"), "http://localhost:41823/admin/keys/k1");
    assert_eq!(usage_url(base, "k1"), "http://localhost:41823/admin/keys/k1/usage");
    assert_eq!(bearer("test-master-key"), "Bearer test-master-key");
}

#[test]
fn reply_statuses_for_reads() {
    assert!(matches!(read_status(200), StatusReading::Body));
    assert!(matches!(read_status(201), StatusReading::Body));
    assert!(matches!(read_status(401), StatusReading::Fail(EavsError::Unauthorized)));
    match read_status(404) {
        StatusReading::Fail(EavsError::KeyNotFound(k)) => assert_eq!(k, "unknown"),
        _ => panic!("expected key not found"),
    }
    assert!(matches!(read_status(503), StatusReading::Fail(EavsError::KeysDisabled)));
    assert!(matches!(read_status(500), StatusReading::ErrorBody));
    assert!(matches!(read_status(400), StatusReading::ErrorBody));
}

#[test]
fn reply_statuses_for_revocation() {
    assert!(matches!(read_revoke_status(204, "k1"), StatusReading::Empty));
    match read_revoke_status(404, "k1") {
        StatusReading::Fail(EavsError::KeyNotFound(k)) => assert_eq!(k, "k1"),
        _ => panic!("expected key not found"),
    }
    assert!(matches!(read_revoke_status(401, "k1"), StatusReading::Fail(EavsError::Unauthorized)));
    assert!(matches!(read_revoke_status(503, "k1"), StatusReading::Fail(EavsError::KeysDisabled)));
    assert!(matches!(read_revoke_status(200, "k1"), StatusReading::ErrorBody));
}

#[test]
fn health_follows_success_statuses() {
    assert!(status_is_success(200));
    assert!(status_is_success(299));
    assert!(!status_is_success(300));
    assert!(!status_is_success(199));
}

#[test]
fn error_texts() {
    let e = error_from_body(Ok(ApiErrorResponse { error: "bad".to_string(), code: "E1".to_string() }));
    assert_eq!(e.message(), "EAVS error: bad (code: E1)");
    let e = error_from_body(Err("eof".to_string()));
    assert_eq!(e.message(), "Failed to parse response: Failed to parse error response: eof");
    assert_eq!(body_error("eof").message(), "Failed to parse response: Failed to parse response: eof");
    assert_eq!(
        connection_error("http://x/health", "refused").message(),
        "Failed to connect to EAVS at http://x/health: refused"
    );
    assert_eq!(EavsError::Unauthorized.message(), "Unauthorized: invalid master key");
    assert_eq!(EavsError::KeysDisabled.message(), "EAVS keys feature is disabled");
    assert_eq!(EavsError::KeyNotFound("k".to_string()).message(), "Key not found: k");
    assert_eq!(EavsError::RequestFailed("timeout".to_string()).message(), "HTTP request failed: timeout");
}
