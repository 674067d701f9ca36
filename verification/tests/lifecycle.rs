use request_tracing::{
    current_field, current_request_id, current_request_id_text, record_field,
    DefaultRootSpanBuilder, ErrorEventPolicy, RequestLifecycle, RequestMeta, RequestOutcome,
    Severity, TracingLogger,
};

fn meta(method: &str, route: &str, headers: Vec<(String, String)>) -> RequestMeta {
    RequestMeta {
        method: method.to_string(),
        route: route.to_string(),
        version: "HTTP/1.1".to_string(),
        target: route.to_string(),
        client_addr: Some("127.0.0.1:9000".to_string()),
        user_agent: None,
        headers,
    }
}

fn logger(policy: ErrorEventPolicy) -> TracingLogger<DefaultRootSpanBuilder> {
    TracingLogger::new(policy)
}

const GOOD: &str = "00-0af7651916cd43dd8448eb211c80319c-b7ad6b7169203331-01";

#[test]
fn health_check_scenario() {
    // GET /health, no headers: span fields {method=GET, route=/health,
    // status=200}, no parent trace id, exactly one finalize call
    let mw = logger(ErrorEventPolicy::OncePerError);
    let mut lc = RequestLifecycle::new();
    let m = meta("GET", "/health", Vec::new());
    mw.begin_with_bits(&mut lc, &m, 7);
    assert_eq!(lc.starts, 1);
    assert_eq!(current_field(&lc, "method"), Some(Some("GET".to_string())));
    assert_eq!(current_field(&lc, "route"), Some(Some("/health".to_string())));
    assert_eq!(current_field(&lc, "status_code"), Some(None));
    assert_eq!(current_field(&lc, "trace_id"), Some(None));
    let finished = mw.finish(&mut lc, &RequestOutcome::Success { status: 200 });
    assert_eq!(lc.starts, 1);
    assert_eq!(lc.ends, 1);
    assert_eq!(finished.get_field("method"), Some(Some("GET".to_string())));
    assert_eq!(finished.get_field("route"), Some(Some("/health".to_string())));
    assert_eq!(finished.get_field("status_code"), Some(Some("200".to_string())));
    assert!(finished.parent.is_none());
    assert!(!finished.error);
    assert!(lc.events.is_empty());
}

#[test]
fn well_formed_header_sets_the_recorded_trace_id() {
    let mw = logger(ErrorEventPolicy::OncePerError);
    let mut lc = RequestLifecycle::new();
    let m = meta("GET", "/work", vec![("traceparent".to_string(), GOOD.to_string())]);
    mw.begin_with_bits(&mut lc, &m, 7);
    assert_eq!(
        current_field(&lc, "trace_id"),
        Some(Some("0af7651916cd43dd8448eb211c80319c".to_string()))
    );
    let finished = mw.finish(&mut lc, &RequestOutcome::Success { status: 200 });
    let parent = finished.parent.expect("remote parent must be recorded");
    assert_eq!(parent.trace_id, 0x0af7651916cd43dd8448eb211c80319c);
    assert_eq!(parent.parent_id, 0xb7ad6b7169203331);
    assert_eq!(
        finished.get_field("trace_id"),
        Some(Some("0af7651916cd43dd8448eb211c80319c".to_string()))
    );
}

#[test]
fn garbage_header_scenario() {
    // traceparent: garbage — extraction yields no parent, the request
    // completes normally, no error surfaces to the caller
    let mw = logger(ErrorEventPolicy::OncePerError);
    let mut lc = RequestLifecycle::new();
    let m = meta("GET", "/work", vec![("traceparent".to_string(), "garbage".to_string())]);
    mw.begin_with_bits(&mut lc, &m, 7);
    assert_eq!(current_field(&lc, "trace_id"), Some(None));
    let finished = mw.finish(&mut lc, &RequestOutcome::Success { status: 200 });
    assert_eq!(lc.ends, 1);
    assert!(finished.parent.is_none());
    assert!(!finished.error);
    assert_eq!(finished.get_field("status_code"), Some(Some("200".to_string())));
}

#[test]
fn handler_filled_field_appears_on_the_finished_span() {
    // declared empty at creation, filled by handler code, filled on the
    // finalized span
    let mw = logger(ErrorEventPolicy::OncePerError);
    let mut lc = RequestLifecycle::new();
    let m = meta("POST", "/orders", Vec::new());
    mw.begin_with_bits(&mut lc, &m, 7);
    assert_eq!(current_field(&lc, "user_agent"), Some(None));
    let updated = record_field(&mut lc, "user_agent", "curl/8".to_string());
    assert!(updated);
    // an undeclared name is rejected as a no-op
    assert!(!record_field(&mut lc, "brand_new_field", "x".to_string()));
    assert_eq!(current_field(&lc, "brand_new_field"), None);
    let finished = mw.finish(&mut lc, &RequestOutcome::Success { status: 201 });
    assert_eq!(finished.get_field("user_agent"), Some(Some("curl/8".to_string())));
    assert_eq!(finished.get_field("brand_new_field"), None);
    assert_eq!(finished.get_field("status_code"), Some(Some("201".to_string())));
}

#[test]
fn internal_error_scenario() {
    // handler returns an internal error: status recorded as an error, one
    // additional error event emitted, and the outcome stays the caller's
    let mw = logger(ErrorEventPolicy::OncePerError);
    let mut lc = RequestLifecycle::new();
    let m = meta("GET", "/fail", Vec::new());
    mw.begin_with_bits(&mut lc, &m, 7);
    let outcome = RequestOutcome::Failure {
        status: None,
        message: "boom".to_string(),
        cause_chain: vec!["connection reset".to_string()],
    };
    let finished = mw.finish(&mut lc, &outcome);
    assert_eq!(lc.starts, 1);
    assert_eq!(lc.ends, 1);
    assert!(finished.error);
    assert_eq!(finished.get_field("status_code"), Some(Some("500".to_string())));
    assert_eq!(lc.events.len(), 1);
    assert_eq!(lc.events[0].level, Severity::Error);
    assert_eq!(lc.events[0].message, "boom");
    assert_eq!(lc.events[0].cause_chain, vec!["connection reset".to_string()]);
    assert_eq!(
        lc.events[0].request_id.as_deref(),
        Some("00000000-0000-0000-0000-000000000007")
    );
    // the outcome itself was observed, not swallowed
    match outcome {
        RequestOutcome::Failure { message, .. } => assert_eq!(message, "boom"),
        _ => panic!("outcome must be unchanged"),
    }
}

#[test]
fn error_event_policy_controls_emission() {
    let outcome = RequestOutcome::Failure {
        status: Some(503),
        message: "boom".to_string(),
        cause_chain: vec!["a".to_string(), "b".to_string()],
    };

    let mw = logger(ErrorEventPolicy::Disabled);
    let mut lc = RequestLifecycle::new();
    mw.begin_with_bits(&mut lc, &meta("GET", "/x", Vec::new()), 7);
    let finished = mw.finish(&mut lc, &outcome);
    assert!(lc.events.is_empty());
    assert!(finished.error);
    assert_eq!(finished.get_field("status_code"), Some(Some("503".to_string())));

    let mw = logger(ErrorEventPolicy::PerCauseLink);
    let mut lc = RequestLifecycle::new();
    mw.begin_with_bits(&mut lc, &meta("GET", "/x", Vec::new()), 7);
    let _ = mw.finish(&mut lc, &outcome);
    assert_eq!(lc.events.len(), 3);
    assert_eq!(lc.events[0].message, "boom");
    assert_eq!(lc.events[0].cause_chain, vec!["a".to_string(), "b".to_string()]);
    assert_eq!(lc.events[1].message, "a");
    assert!(lc.events[1].cause_chain.is_empty());
    assert_eq!(lc.events[2].message, "b");
    assert!(lc.events[2].cause_chain.is_empty());
    for e in &lc.events {
        assert_eq!(e.level, Severity::Error);
        assert!(e.request_id.is_some());
    }
}

#[test]
fn cancellation_still_finalizes() {
    let mw = logger(ErrorEventPolicy::OncePerError);
    let mut lc = RequestLifecycle::new();
    mw.begin_with_bits(&mut lc, &meta("GET", "/slow", Vec::new()), 7);
    let finished = mw.finish(&mut lc, &RequestOutcome::Canceled);
    assert_eq!(lc.starts, 1);
    assert_eq!(lc.ends, 1);
    assert!(finished.error);
    assert_eq!(finished.get_field("status_code"), Some(Some("499".to_string())));
    // cancellation is an aborted outcome, not an error chain: no event
    assert!(lc.events.is_empty());
}

#[test]
fn server_error_response_sets_the_error_mark() {
    let mw = logger(ErrorEventPolicy::OncePerError);
    let mut lc = RequestLifecycle::new();
    mw.begin_with_bits(&mut lc, &meta("GET", "/x", Vec::new()), 7);
    let finished = mw.finish(&mut lc, &RequestOutcome::Success { status: 502 });
    assert!(finished.error);
    assert_eq!(finished.get_field("status_code"), Some(Some("502".to_string())));
    assert!(lc.events.is_empty());
}

#[test]
fn accessors_degrade_gracefully_outside_middleware_scope() {
    let lc = RequestLifecycle::new();
    assert!(current_request_id(&lc).is_none());
    assert!(current_request_id_text(&lc).is_none());
    assert_eq!(current_field(&lc, "method"), None);
    let mut lc = RequestLifecycle::new();
    assert!(!record_field(&mut lc, "method", "GET".to_string()));
}

#[test]
fn accessors_read_the_active_request() {
    let mw = logger(ErrorEventPolicy::OncePerError);
    let mut lc = RequestLifecycle::new();
    mw.begin_with_bits(&mut lc, &meta("GET", "/x", Vec::new()), 42);
    let id = current_request_id(&lc).expect("an identifier is assigned");
    assert_eq!(id.bits, 42);
    assert_eq!(
        current_request_id_text(&lc).as_deref(),
        Some("00000000-0000-0000-0000-00000000002a")
    );
}

#[test]
fn generated_identifier_is_used_when_none_is_supplied() {
    let mw = logger(ErrorEventPolicy::OncePerError);
    let mut lc = RequestLifecycle::new();
    mw.begin(&mut lc, &meta("GET", "/x", Vec::new()));
    let text = current_request_id_text(&lc).expect("an identifier is assigned");
    assert_eq!(text.len(), 36);
    assert_eq!(text.chars().nth(14), Some('4'));
}
