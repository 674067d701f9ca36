use request_tracing::{EventLayer, EventRecord, LayerCallback, Severity};

fn native(level: Severity) -> EventRecord {
    EventRecord {
        level,
        legacy_level: None,
        message: String::new(),
        cause_chain: Vec::new(),
        request_id: None,
    }
}

fn legacy(native: Severity, normalized: Severity) -> EventRecord {
    EventRecord {
        level: native,
        legacy_level: Some(normalized),
        message: String::new(),
        cause_chain: Vec::new(),
        request_id: None,
    }
}

#[test]
fn info_threshold_drops_debug_and_forwards_warn() {
    let layer = EventLayer::new(Severity::Info);
    assert!(!layer.event_passes(&native(Severity::Debug)));
    assert!(layer.event_passes(&native(Severity::Warn)));
    assert!(layer.event_passes(&native(Severity::Info)));
    assert!(layer.event_passes(&native(Severity::Error)));
    assert!(!layer.event_passes(&native(Severity::Trace)));
}

#[test]
fn legacy_events_are_judged_by_their_normalized_level() {
    let layer = EventLayer::new(Severity::Info);
    // a bridged record whose adapter-normalized severity is Warn passes
    // even though its native level would not
    assert!(layer.event_passes(&legacy(Severity::Trace, Severity::Warn)));
    // and one normalized to Debug is dropped even with a severe native level
    assert!(!layer.event_passes(&legacy(Severity::Error, Severity::Debug)));
}

#[test]
fn lifecycle_callbacks_pass_through_unconditionally() {
    let layer = EventLayer::new(Severity::Error);
    for kind in [
        LayerCallback::RegisterCallsite,
        LayerCallback::Enabled,
        LayerCallback::NewSpan,
        LayerCallback::MaxLevelHint,
        LayerCallback::OnRecord,
        LayerCallback::OnFollowsFrom,
        LayerCallback::OnEnter,
        LayerCallback::OnExit,
        LayerCallback::OnClose,
        LayerCallback::OnIdChange,
    ] {
        assert!(layer.forwards(kind, None));
        assert!(layer.forwards(kind, Some(&native(Severity::Trace))));
    }
    // only the event-emission path is thresholded
    assert!(!layer.forwards(LayerCallback::OnEvent, Some(&native(Severity::Warn))));
    assert!(layer.forwards(LayerCallback::OnEvent, Some(&native(Severity::Error))));
}

#[test]
fn threshold_composes_with_the_global_filter_by_intersection() {
    let layer = EventLayer::new(Severity::Info);
    assert!(layer.reaches_inner(true, &native(Severity::Warn)));
    assert!(!layer.reaches_inner(false, &native(Severity::Warn)));
    assert!(!layer.reaches_inner(true, &native(Severity::Debug)));
    assert!(!layer.reaches_inner(false, &native(Severity::Debug)));
}
