//! The per-request lifecycle orchestrator. One lifecycle value exists per
//! request and is never reused: it moves from `Idle` through `SpanActive`
//! and `Finalizing` to `Closed`, and never re-enters an earlier phase. On
//! entry the middleware draws the request identifier, runs the propagator
//! against the inbound headers, invokes the builder's start hook exactly
//! once and installs the span; on exit — success, error or cancellation
//! alike — it invokes the end hook exactly once, optionally emits error
//! events, and releases the span.

use vstd::prelude::*;

use crate::builder::{outcome_is_error, outcome_status, finalized_fields, RequestMeta,
    RequestOutcome, RootSpanBuilder};
use crate::hex::hex_seq;
use crate::propagation::{extract, extract_spec};
use crate::request_id::{id_chars, RequestId};
use crate::severity::{clone_strings, strings_view, EventRecord, EventView, Severity};
use crate::span::SpanView;
use crate::span::Span;

verus! {

/// The phases of one request's lifecycle, in order; a lifecycle never
/// moves backwards.
#[derive(Clone, Copy, Debug, PartialEq, Eq, Structural)]
pub enum Phase {
    Idle,
    SpanActive,
    Finalizing,
    Closed,
}

/// How many error events finalization emits for a failed request: none,
/// one per error, or one per link of the error's cause chain.
#[derive(Clone, Copy, Debug, PartialEq, Eq, Structural)]
pub enum ErrorEventPolicy {
    Disabled,
    OncePerError,
    PerCauseLink,
}

/// Per-request scoped storage: the request identifier, assigned exactly
/// once, and the root span handle.
pub struct RequestContext {
    pub request_id: RequestId,
    pub span: Span,
}

/// The state the middleware keeps for one request, together with the
/// count of start- and end-hook invocations and the events emitted on its
/// behalf.
pub struct RequestLifecycle {
    pub phase: Phase,
    pub context: Option<RequestContext>,
    pub starts: u32,
    pub ends: u32,
    pub events: Vec<EventRecord>,
}

/// The views of a sequence of emitted events.
pub open spec fn events_view(s: Seq<EventRecord>) -> Seq<EventView> {
    s.map_values(|e: EventRecord| e@)
}

impl RequestLifecycle {
    /// The span handle is well formed whenever one is installed, and one
    /// is installed whenever the span is active.
    pub open spec fn wf(&self) -> bool {
        &&& match self.context {
            Some(c) => c.span.wf(),
            None => true,
        }
        &&& (self.phase is SpanActive ==> self.context is Some)
    }

    /// A lifecycle begins idle: no span, no identifier, no hook invoked.
    pub fn new() -> (r: RequestLifecycle)
        ensures
            r.wf(),
            r.phase is Idle,
            r.context is None,
            r.starts == 0,
            r.ends == 0,
            r.events@.len() == 0,
    {
        RequestLifecycle {
            phase: Phase::Idle,
            context: None,
            starts: 0,
            ends: 0,
            events: Vec::new(),
        }
    }
}

/// One emitted error event: `Error` severity, a message, a cause chain,
/// and the rendered request identifier for correlation.
pub open spec fn error_event(
    message: Seq<char>,
    chain: Seq<Seq<char>>,
    rid: Seq<char>,
) -> EventView {
    EventView {
        level: Severity::Error,
        legacy_level: None,
        message,
        cause_chain: chain,
        request_id: Some(rid),
    }
}

/// One error event per link of a cause chain, each carrying that link's
/// message alone.
pub open spec fn chain_events(chain: Seq<String>, rid: Seq<char>) -> Seq<EventView> {
    chain.map_values(|c: String| error_event(c@, Seq::empty(), rid))
}

/// The error events finalization emits: none for a delivered response or a
/// cancellation, and for a failure as many as the policy asks — each at
/// `Error` severity and embedding the rendered request identifier. The
/// head event carries the failure's message and its whole cause chain;
/// under the per-link policy one further event follows for each link.
pub open spec fn error_events_spec(
    policy: ErrorEventPolicy,
    o: &RequestOutcome,
    rid: Seq<char>,
) -> Seq<EventView> {
    match o {
        RequestOutcome::Failure { message, cause_chain, .. } => match policy {
            ErrorEventPolicy::Disabled => Seq::empty(),
            ErrorEventPolicy::OncePerError => seq![
                error_event(message@, strings_view(cause_chain@), rid),
            ],
            ErrorEventPolicy::PerCauseLink => seq![
                error_event(message@, strings_view(cause_chain@), rid),
            ] + chain_events(cause_chain@, rid),
        },
        _ => Seq::empty(),
    }
}

/// Appending one record appends its view.
proof fn lemma_events_view_push(s: Seq<EventRecord>, e: EventRecord)
    ensures
        events_view(s.push(e)) =~= events_view(s).push(e@),
{
    assert forall|k: int| 0 <= k < s.len() + 1 implies events_view(s.push(e))[k] == events_view(
        s,
    ).push(e@)[k] by {
        if k < s.len() {
            assert(s.push(e)[k] == s[k]);
        } else {
            assert(s.push(e)[k] == e);
        }
    }
}

/// The fields of the span `begin` installs: what the builder declared,
/// with the `trace_id` placeholder filled from the extracted remote
/// context when one was found and the builder declared that field.
pub open spec fn begun_fields<B: RootSpanBuilder>(meta: &RequestMeta) -> Map<
    Seq<char>,
    Option<Seq<char>>,
> {
    let base = B::start_view(meta).fields;
    match extract_spec(meta.headers@) {
        Some(c) => if base.contains_key("trace_id"@) {
            base.insert("trace_id"@, Some(hex_seq(c.trace_id as nat, 32)))
        } else {
            base
        },
        None => base,
    }
}

/// The steps a lifecycle can take: entering the span-active phase (the
/// start hook), the handler's completion, error or cancellation, and
/// finalization (the end hook).
#[derive(Clone, Copy, Debug, PartialEq, Eq, Structural)]
pub enum LifecycleStep {
    Start,
    HandlerDone,
    Finalize,
}

/// Whether a step may be taken from a phase: the lifecycle is a straight
/// line, with no step ever repeated or skipped.
pub open spec fn step_allowed(p: Phase, s: LifecycleStep) -> bool {
    match s {
        LifecycleStep::Start => p is Idle,
        LifecycleStep::HandlerDone => p is SpanActive,
        LifecycleStep::Finalize => p is Finalizing,
    }
}

/// The phase a step leads to; no step leads back to `Idle`.
pub open spec fn step_target(s: LifecycleStep) -> Phase {
    match s {
        LifecycleStep::Start => Phase::SpanActive,
        LifecycleStep::HandlerDone => Phase::Finalizing,
        LifecycleStep::Finalize => Phase::Closed,
    }
}

/// The phase reached after a sequence of steps, starting idle.
pub open spec fn phase_after(steps: Seq<LifecycleStep>) -> Phase
    decreases steps.len(),
{
    if steps.len() == 0 {
        Phase::Idle
    } else {
        step_target(steps.last())
    }
}

/// A sequence of steps each of which was allowed in the phase it found.
pub open spec fn run_valid(steps: Seq<LifecycleStep>) -> bool
    decreases steps.len(),
{
    if steps.len() == 0 {
        true
    } else {
        run_valid(steps.drop_last()) && step_allowed(phase_after(steps.drop_last()), steps.last())
    }
}

/// How often a step occurs in a run.
pub open spec fn count_step(steps: Seq<LifecycleStep>, s: LifecycleStep) -> nat
    decreases steps.len(),
{
    if steps.len() == 0 {
        0
    } else {
        count_step(steps.drop_last(), s) + if steps.last() == s {
            1nat
        } else {
            0nat
        }
    }
}

/// For every request, exactly one start-hook and exactly one end-hook
/// invocation occur, regardless of success, error, or cancellation: every
/// valid run of the lifecycle that reaches `Closed` took exactly the three
/// steps `Start`, `HandlerDone`, `Finalize`, once each, in that order.
pub proof fn lemma_exactly_one_start_and_finalize(steps: Seq<LifecycleStep>)
    requires
        run_valid(steps),
        phase_after(steps) is Closed,
    ensures
        steps =~= seq![LifecycleStep::Start, LifecycleStep::HandlerDone, LifecycleStep::Finalize],
        count_step(steps, LifecycleStep::Start) == 1,
        count_step(steps, LifecycleStep::HandlerDone) == 1,
        count_step(steps, LifecycleStep::Finalize) == 1,
{
    reveal_with_fuel(run_valid, 4);
    reveal_with_fuel(count_step, 4);
    let s2 = steps.drop_last();
    let s1 = s2.drop_last();
    let s0 = s1.drop_last();
    assert(steps.len() > 0);
    assert(steps.last() == LifecycleStep::Finalize);
    assert(phase_after(s2) is Finalizing);
    assert(s2.len() > 0);
    assert(s2.last() == LifecycleStep::HandlerDone);
    assert(phase_after(s1) is SpanActive);
    assert(s1.len() > 0);
    assert(s1.last() == LifecycleStep::Start);
    assert(phase_after(s0) is Idle);
    assert(s0.len() == 0) by {
        if s0.len() > 0 {
            assert(phase_after(s0) == step_target(s0.last()));
        }
    }
    assert(count_step(s0, LifecycleStep::Start) == 0);
}

/// A field declared at creation and filled by handler code is still
/// filled, with the same value, on the finalized span: finalization only
/// touches the `status_code` field and never drops or overwrites another.
pub proof fn lemma_filled_field_survives_finalize(
    fields: Map<Seq<char>, Option<Seq<char>>>,
    name: Seq<char>,
    value: Seq<char>,
    o: &RequestOutcome,
)
    requires
        fields.contains_key(name),
        name != "status_code"@,
    ensures
        finalized_fields(fields.insert(name, Some(value)), o).contains_key(name),
        finalized_fields(fields.insert(name, Some(value)), o)[name] == Some(value),
{
}

/// A well-formed header carrying trace id `T` yields a root span whose
/// recorded trace id equals `T` — rendered as its thirty-two hex digits —
/// whenever the builder declared the field.
pub proof fn lemma_trace_id_recorded<B: RootSpanBuilder>(
    meta: &RequestMeta,
    c: crate::propagation::TraceContext,
)
    requires
        extract_spec(meta.headers@) == Some(c),
        B::start_view(meta).fields.contains_key("trace_id"@),
    ensures
        begun_fields::<B>(meta).contains_key("trace_id"@),
        begun_fields::<B>(meta)["trace_id"@] == Some(hex_seq(c.trace_id as nat, 32)),
{
}

/// An absent or malformed header yields a root span that is itself a new
/// trace root: the installed span's fields are exactly what the builder
/// declared, with the trace-id placeholder left empty (and, by the entry
/// contract, no parent).
pub proof fn lemma_no_remote_parent_is_new_root<B: RootSpanBuilder>(meta: &RequestMeta)
    requires
        extract_spec(meta.headers@) is None,
    ensures
        begun_fields::<B>(meta) == B::start_view(meta).fields,
{
}

/// The request-tracing middleware: orchestrates the lifecycle of every
/// request against one root-span builder, with one error-event policy.
pub struct TracingLogger<B: RootSpanBuilder> {
    pub policy: ErrorEventPolicy,
    pub builder: core::marker::PhantomData<B>,
}

impl<B: RootSpanBuilder> TracingLogger<B> {
    pub fn new(policy: ErrorEventPolicy) -> (r: TracingLogger<B>)
        ensures
            r.policy == policy,
    {
        TracingLogger { policy, builder: core::marker::PhantomData }
    }

    /// Enter the span-active phase with the given identifier bits: run the
    /// propagator, invoke the start hook — the one start-hook invocation
    /// of this request — fill the `trace_id` placeholder when a remote
    /// parent was found, and install the span.
    pub fn begin_with_bits(
        &self,
        lc: &mut RequestLifecycle,
        meta: &RequestMeta,
        id_bits: u128,
    )
        requires
            old(lc).wf(),
            old(lc).phase is Idle,
            old(lc).starts == 0,
        ensures
            final(lc).wf(),
            final(lc).phase is SpanActive,
            final(lc).starts == 1,
            final(lc).ends == old(lc).ends,
            final(lc).events == old(lc).events,
            match final(lc).context {
                Some(c) => {
                    &&& c.request_id.bits == id_bits
                    &&& c.span.wf()
                    &&& c.span@.parent == extract_spec(meta.headers@)
                    &&& c.span@.name == B::start_view(meta).name
                    &&& c.span@.error == B::start_view(meta).error
                    &&& c.span@.fields == begun_fields::<B>(meta)
                },
                None => false,
            },
    {
        let remote = extract(&meta.headers);
        let mut span = B::on_request_start(meta);
        span.parent = remote;
        if let Some(c) = remote {
            let rendered = crate::hex::render_hex(c.trace_id, 32);
            let _declared = span.record("trace_id", rendered);
        }
        lc.context = Some(RequestContext { request_id: RequestId { bits: id_bits }, span });
        lc.phase = Phase::SpanActive;
        lc.starts = lc.starts + 1;
    }

    /// Enter the span-active phase with a freshly drawn random request
    /// identifier.
    pub fn begin(&self, lc: &mut RequestLifecycle, meta: &RequestMeta)
        requires
            old(lc).wf(),
            old(lc).phase is Idle,
            old(lc).starts == 0,
        ensures
            final(lc).wf(),
            final(lc).phase is SpanActive,
            final(lc).starts == 1,
            final(lc).ends == old(lc).ends,
            final(lc).events == old(lc).events,
            match final(lc).context {
                Some(c) => {
                    &&& c.span.wf()
                    &&& c.span@.parent == extract_spec(meta.headers@)
                    &&& c.span@.name == B::start_view(meta).name
                    &&& c.span@.error == B::start_view(meta).error
                    &&& c.span@.fields == begun_fields::<B>(meta)
                },
                None => false,
            },
    {
        let id = RequestId::generate();
        self.begin_with_bits(lc, meta, id.bits);
    }

    /// Finalize with the real outcome — triggered by handler completion,
    /// handler error, or cancellation alike. Invokes the end hook — the
    /// one end-hook invocation of this request — emits the error events
    /// the policy asks for, releases the span handle and returns the
    /// finished span as it leaves for the export sinks. The outcome itself
    /// is the caller's to deliver: the middleware observes it and never
    /// swallows it.
    pub fn finish(&self, lc: &mut RequestLifecycle, outcome: &RequestOutcome) -> (finished: Span)
        requires
            old(lc).wf(),
            old(lc).phase is SpanActive,
            old(lc).ends == 0,
        ensures
            final(lc).wf(),
            final(lc).phase is Closed,
            final(lc).starts == old(lc).starts,
            final(lc).ends == 1,
            final(lc).context is None,
            finished.wf(),
            finished@.error == outcome_is_error(outcome),
            match old(lc).context {
                Some(c) => {
                    &&& finished@.name == c.span@.name
                    &&& finished@.parent == c.span@.parent
                    &&& finished@.fields == finalized_fields(c.span@.fields, outcome)
                    &&& events_view(final(lc).events@) == events_view(old(lc).events@)
                        + error_events_spec(self.policy, outcome, id_chars(c.request_id.bits))
                },
                None => false,
            },
    {
        let taken = lc.context.take();
        let ctx = taken.unwrap();
        let request_id = ctx.request_id;
        let mut span = ctx.span;
        lc.phase = Phase::Finalizing;
        B::on_request_end(&mut span, outcome);
        let rid_text = request_id.render();
        let ghost before = lc.events@;
        let ghost rid = id_chars(request_id.bits);
        match outcome {
            RequestOutcome::Failure { message, cause_chain, .. } => {
                match self.policy {
                    ErrorEventPolicy::Disabled => {},
                    ErrorEventPolicy::OncePerError => {
                        let head = EventRecord {
                            level: Severity::Error,
                            legacy_level: None,
                            message: message.clone(),
                            cause_chain: clone_strings(cause_chain),
                            request_id: Some(rid_text),
                        };
                        proof {
                            lemma_events_view_push(before, head);
                        }
                        lc.events.push(head);
                        proof {
                            assert(events_view(lc.events@) =~= events_view(before) + seq![
                                error_event(message@, strings_view(cause_chain@), rid),
                            ]);
                        }
                    },
                    ErrorEventPolicy::PerCauseLink => {
                        let head = EventRecord {
                            level: Severity::Error,
                            legacy_level: None,
                            message: message.clone(),
                            cause_chain: clone_strings(cause_chain),
                            request_id: Some(rid_text.clone()),
                        };
                        proof {
                            lemma_events_view_push(before, head);
                        }
                        lc.events.push(head);
                        let n = cause_chain.len();
                        let mut i: usize = 0;
                        while i < n
                            invariant
                                0 <= i <= n,
                                n == cause_chain@.len(),
                                lc.phase is Finalizing,
                                lc.context is None,
                                lc.starts == old(lc).starts,
                                lc.ends == old(lc).ends,
                                rid_text@ == rid,
                                lc.events@.len() == before.len() + 1 + i,
                                forall|k: int|
                                    0 <= k < before.len() ==> (#[trigger] lc.events@[k])
                                        == before[k],
                                lc.events@[before.len() as int]@ == error_event(
                                    message@,
                                    strings_view(cause_chain@),
                                    rid,
                                ),
                                forall|j: int|
                                    0 <= j < i ==> (#[trigger] lc.events@[before.len() + 1 + j])@
                                        == error_event(cause_chain@[j]@, Seq::empty(), rid),
                            decreases n - i,
                        {
                            let link = EventRecord {
                                level: Severity::Error,
                                legacy_level: None,
                                message: cause_chain[i].clone(),
                                cause_chain: Vec::new(),
                                request_id: Some(rid_text.clone()),
                            };
                            lc.events.push(link);
                            i = i + 1;
                            proof {
                                assert(lc.events@[before.len() + 1 + (i - 1)] == link);
                                assert(link@.cause_chain =~= Seq::<Seq<char>>::empty());
                                assert(link@ == error_event(
                                    cause_chain@[i - 1]@,
                                    Seq::empty(),
                                    rid,
                                ));
                            }
                        }
                        proof {
                            let target = events_view(before) + seq![
                                error_event(message@, strings_view(cause_chain@), rid),
                            ] + chain_events(cause_chain@, rid);
                            assert(events_view(lc.events@).len() == target.len());
                            assert forall|k: int| 0 <= k < target.len() implies events_view(
                                lc.events@,
                            )[k] == target[k] by {
                                assert(events_view(lc.events@)[k] == lc.events@[k]@);
                                if k < before.len() {
                                    assert(target[k] == events_view(before)[k]);
                                    assert(events_view(before)[k] == before[k]@);
                                } else if k == before.len() {
                                    assert(target[k] == error_event(
                                        message@,
                                        strings_view(cause_chain@),
                                        rid,
                                    ));
                                } else {
                                    let j = k - before.len() - 1;
                                    assert(target[k] == chain_events(cause_chain@, rid)[j]);
                                    assert(chain_events(cause_chain@, rid)[j] == error_event(
                                        cause_chain@[j]@,
                                        Seq::empty(),
                                        rid,
                                    ));
                                    assert(lc.events@[before.len() + 1 + j]@ == error_event(
                                        cause_chain@[j]@,
                                        Seq::empty(),
                                        rid,
                                    ));
                                }
                            }
                            assert(events_view(lc.events@) =~= target);
                        }
                    },
                }
            },
            _ => {},
        }
        lc.phase = Phase::Closed;
        lc.ends = lc.ends + 1;
        proof {
            assert(events_view(lc.events@) =~= events_view(old(lc).events@) + error_events_spec(
                self.policy,
                outcome,
                rid,
            ));
        }
        span
    }
}

/// Read the active request's identifier. Outside middleware scope there is
/// none, and the lookup yields an empty result, never a failure.
pub fn current_request_id(lc: &RequestLifecycle) -> (r: Option<RequestId>)
    ensures
        match lc.context {
            Some(c) => r == Some(c.request_id),
            None => r is None,
        },
{
    match &lc.context {
        Some(c) => Some(c.request_id),
        None => None,
    }
}

/// Read the active request's identifier as text, for correlation.
pub fn current_request_id_text(lc: &RequestLifecycle) -> (r: Option<String>)
    ensures
        match lc.context {
            Some(c) => match r {
                Some(t) => t@ == id_chars(c.request_id.bits),
                None => false,
            },
            None => r is None,
        },
{
    match &lc.context {
        Some(c) => Some(c.request_id.render()),
        None => None,
    }
}

/// Fill a previously declared field of the active root span from handler
/// code. An undeclared name, or a lookup outside middleware scope, is a
/// no-op — the accessor can neither add a field nor break the request.
pub fn record_field(lc: &mut RequestLifecycle, name: &str, value: String) -> (updated: bool)
    requires
        old(lc).wf(),
    ensures
        final(lc).wf(),
        final(lc).phase == old(lc).phase,
        final(lc).starts == old(lc).starts,
        final(lc).ends == old(lc).ends,
        final(lc).events == old(lc).events,
        old(lc).context is None ==> !updated && *final(lc) == *old(lc),
        match old(lc).context {
            Some(c) => {
                &&& updated == c.span@.fields.contains_key(name@)
                &&& match final(lc).context {
                    Some(d) => {
                        &&& d.request_id == c.request_id
                        &&& d.span@.name == c.span@.name
                        &&& d.span@.parent == c.span@.parent
                        &&& d.span@.error == c.span@.error
                        &&& d.span@.fields == if updated {
                            c.span@.fields.insert(name@, Some(value@))
                        } else {
                            c.span@.fields
                        }
                    },
                    None => false,
                }
            },
            None => true,
        },
{
    let taken = lc.context.take();
    match taken {
        Some(mut c) => {
            let updated = c.span.record(name, value);
            lc.context = Some(c);
            updated
        },
        None => false,
    }
}

/// Read a declared field of the active root span: its (possibly still
/// placeholder) value, or `None` when the name was never declared or no
/// span is active.
pub fn current_field(lc: &RequestLifecycle, name: &str) -> (r: Option<Option<String>>)
    requires
        lc.wf(),
    ensures
        match lc.context {
            Some(c) => match r {
                Some(v) => c.span@.fields.contains_key(name@) && c.span@.fields[name@]
                    == crate::span::value_view(v),
                None => !c.span@.fields.contains_key(name@),
            },
            None => r is None,
        },
{
    match &lc.context {
        Some(c) => c.span.get_field(name),
        None => None,
    }
}

} // verus!
