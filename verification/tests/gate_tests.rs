use server::gate::{ensure_real_protocol_enabled, is_real_protocol_enabled, REAL_PROTOCOL_ENV};

#[test]
fn only_exact_one_enables_real_protocol() {
    assert!(is_real_protocol_enabled(Some("1")));
    assert!(!is_real_protocol_enabled(Some("true")));
    assert!(!is_real_protocol_enabled(Some(" 1 ")));
    assert!(!is_real_protocol_enabled(None));
}

#[test]
fn ensure_reports_disabled_protocol() {
    assert!(ensure_real_protocol_enabled(Some("1")).is_ok());
    assert!(ensure_real_protocol_enabled(Some("0")).is_err());
    assert!(ensure_real_protocol_enabled(None).is_err());
    assert_eq!(REAL_PROTOCOL_ENV, "SJTU_REAL_PROTOCOL_TEST");
}
