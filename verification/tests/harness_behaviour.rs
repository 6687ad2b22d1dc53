use oqto::api::{
    dev_mode_enabled, harness_refusal, mock_event_sent, mock_surface_broadcast,
    new_sample_request_id, new_test_request_id, new_test_surface_id, sample_broadcast,
    sample_is_blocking, sample_surface_id,
};

fn some(s: &str) -> Option<String> {
    Some(s.to_string())
}

#[test]
fn dev_mode_from_environment() {
    assert!(dev_mode_enabled(&some("1"), &None, false));
    assert!(dev_mode_enabled(&some("TRUE"), &None, false));
    assert!(dev_mode_enabled(&some("true"), &None, false));
    assert!(!dev_mode_enabled(&some("yes"), &None, false));
    assert!(dev_mode_enabled(&None, &some("development"), false));
    assert!(!dev_mode_enabled(&None, &some("production"), false));
    assert!(dev_mode_enabled(&None, &None, true));
    assert!(!dev_mode_enabled(&None, &None, false));
}

#[test]
fn harness_answers() {
    let (status, msg) = harness_refusal();
    assert_eq!(status, 403);
    assert_eq!(msg, "Test harness is only available in development mode");
    let r = mock_event_sent("ses_1");
    assert!(r.success);
    assert_eq!(r.message, "Mock event sent to session ses_1");
    let r = mock_surface_broadcast("s1", 3, "ses_1");
    assert_eq!(r.message, "A2UI surface s1 broadcast to 3 connected users (session ses_1)");
}

#[test]
fn mock_ids_have_their_prefixes() {
    let id = new_test_surface_id();
    assert!(id.starts_with("test_surface_"));
    assert_eq!(id.len(), "test_surface_".len() + 36);
    let req = new_test_request_id(true).unwrap();
    assert!(req.starts_with("test_req_"));
    assert_eq!(req.len(), "test_req_".len() + 36);
    assert!(new_test_request_id(false).is_none());
}

#[test]
fn sample_surfaces() {
    assert_eq!(sample_surface_id("form"), "sample_form");
    assert!(sample_is_blocking("question"));
    assert!(!sample_is_blocking("form"));
    let id = new_sample_request_id("question").unwrap();
    assert!(id.starts_with("sample_req_"));
    assert_eq!(id.len(), "sample_req_".len() + 36);
    assert!(new_sample_request_id("card").is_none());
    assert_eq!(
        sample_broadcast("card", 2, "ses_1").message,
        "Sample A2UI 'card' broadcast to 2 connected users (session ses_1)"
    );
}
