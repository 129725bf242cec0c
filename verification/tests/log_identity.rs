use screentime_pro::logging::LogIdentity;

#[test]
fn first_setup_is_recorded_once() {
    let mut id = LogIdentity::new();
    assert_eq!(id.app_version(), "unknown");
    assert_eq!(id.session_id(), "");
    id.record("0.9.7", 0x1f, 0xa);
    assert_eq!(id.app_version(), "0.9.7");
    assert_eq!(id.session_id(), "s1fa");
    id.record("1.0.0", 99, 1);
    assert_eq!(id.app_version(), "0.9.7");
    assert_eq!(id.session_id(), "s1fa");
    let s = id.session_id();
    assert!(s.len() > 1 && s.starts_with('s'));
    assert!(s[1..].chars().all(|c| c.is_ascii_hexdigit() && !c.is_ascii_uppercase()));
}
