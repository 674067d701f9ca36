use request_tracing::Severity;

#[test]
fn it_works() {
    assert_eq!(2 + 2, 4);
}

#[test]
fn severity_scale_is_ordered() {
    assert!(Severity::Error.at_least(Severity::Warn));
    assert!(Severity::Warn.at_least(Severity::Info));
    assert!(Severity::Info.at_least(Severity::Debug));
    assert!(Severity::Debug.at_least(Severity::Trace));
    assert!(!Severity::Trace.at_least(Severity::Debug));
    assert!(Severity::Info.at_least(Severity::Info));
}
