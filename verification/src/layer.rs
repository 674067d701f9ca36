//! The severity-gated forwarding layer. It wraps one inner event consumer:
//! every lifecycle callback passes through unconditionally, and only the
//! event-emission path is thresholded, by a fixed level chosen when the
//! layer is built. The decision is a pure comparison of the event's
//! effective severity against that threshold; nothing the inner consumer
//! reports about its own interests takes part in it.

use vstd::prelude::*;

use crate::severity::{effective_level, EventRecord, Severity};

verus! {

/// The callbacks an output layer receives. Only `OnEvent` is subject to
/// the threshold; every other callback is forwarded unconditionally.
#[derive(Clone, Copy, Debug, PartialEq, Eq, Structural)]
pub enum LayerCallback {
    RegisterCallsite,
    Enabled,
    NewSpan,
    MaxLevelHint,
    OnRecord,
    OnFollowsFrom,
    OnEvent,
    OnEnter,
    OnExit,
    OnClose,
    OnIdChange,
}

/// A severity threshold wrapped around one inner event consumer.
pub struct EventLayer {
    pub level: Severity,
}

/// Whether an event of effective severity drawn from `e` clears the
/// threshold `level`.
pub open spec fn passes_threshold(level: Severity, e: crate::severity::EventView) -> bool {
    effective_level(e).ord() >= level.ord()
}

impl EventLayer {
    /// Build a layer that forwards only events at least as severe as
    /// `level`. The inner consumer itself stays outside the verified
    /// boundary; this value carries the decision it is wrapped with.
    pub fn new(level: Severity) -> (r: EventLayer)
        ensures
            r.level == level,
    {
        EventLayer { level }
    }

    /// The filtered emission path: `e` reaches the inner consumer exactly
    /// when its effective severity is at least the configured threshold.
    pub fn event_passes(&self, e: &EventRecord) -> (r: bool)
        ensures
            r == passes_threshold(self.level, e@),
    {
        e.effective().at_least(self.level)
    }

    /// Whether a callback of kind `kind`, carrying `event` when it is an
    /// emission, is forwarded to the inner consumer: lifecycle callbacks
    /// always, emissions only past the threshold.
    pub fn forwards(&self, kind: LayerCallback, event: Option<&EventRecord>) -> (r: bool)
        ensures
            r == match kind {
                LayerCallback::OnEvent => match event {
                    Some(e) => passes_threshold(self.level, e@),
                    None => false,
                },
                _ => true,
            },
    {
        match kind {
            LayerCallback::OnEvent => match event {
                Some(e) => self.event_passes(e),
                None => false,
            },
            _ => true,
        }
    }

    /// Composition with the process-wide verbosity directive: an event
    /// reaches the inner consumer only if the global filter let it through
    /// and it clears this layer's own threshold — the intersection of the
    /// two decisions.
    pub fn reaches_inner(&self, global_enabled: bool, e: &EventRecord) -> (r: bool)
        ensures
            r == (global_enabled && passes_threshold(self.level, e@)),
    {
        global_enabled && self.event_passes(e)
    }
}

} // verus!
