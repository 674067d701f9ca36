//! The root-span builder capability: polymorphic construction and
//! finalization of the per-request root span. The start hook is pure and
//! declares the span's whole field set; the end hook records the final
//! status code (synthesizing an internal-error code when none is
//! derivable) and the error mark, and touches nothing else. A default
//! variant captures the usual HTTP context; custom variants may declare
//! more fields up front.

use vstd::prelude::*;

use crate::hex::dec_chars;
use crate::render_dec;
use crate::span::{distinct_names, fields_map, value_view, Span, SpanField, SpanView};

verus! {

/// What the middleware knows of an inbound request when the root span is
/// built: the request line, the matched route (or the raw path when no
/// route matched), addressing context, and the raw header carrier.
pub struct RequestMeta {
    pub method: String,
    pub route: String,
    pub version: String,
    pub target: String,
    pub client_addr: Option<String>,
    pub user_agent: Option<String>,
    pub headers: Vec<(String, String)>,
}

/// How a request left the system: a response with its status, an error
/// with its message and cause chain (and a status when one is derivable),
/// or cancellation — disconnect, timeout or abort — which is finalized as
/// a best-effort aborted outcome rather than dropped.
pub enum RequestOutcome {
    Success { status: u16 },
    Failure { status: Option<u16>, message: String, cause_chain: Vec<String> },
    Canceled,
}

/// The status code the span records for an outcome: the response's own, an
/// error's when derivable and the internal-error code 500 otherwise, and
/// the client-closed-request code 499 for a cancelled request.
pub open spec fn outcome_status(o: &RequestOutcome) -> u16 {
    match o {
        RequestOutcome::Success { status } => *status,
        RequestOutcome::Failure { status: Some(s), .. } => *s,
        RequestOutcome::Failure { status: None, .. } => 500,
        RequestOutcome::Canceled => 499,
    }
}

/// Whether the span's error mark is set for an outcome: every failure and
/// cancellation, and any response whose status is a server error.
pub open spec fn outcome_is_error(o: &RequestOutcome) -> bool {
    match o {
        RequestOutcome::Success { status } => *status >= 500,
        RequestOutcome::Failure { .. } => true,
        RequestOutcome::Canceled => true,
    }
}

/// Executable status of an outcome, equal to the specification-level one.
pub fn status_of(o: &RequestOutcome) -> (r: u16)
    ensures
        r == outcome_status(o),
{
    match o {
        RequestOutcome::Success { status } => *status,
        RequestOutcome::Failure { status: Some(s), .. } => *s,
        RequestOutcome::Failure { status: None, .. } => 500,
        RequestOutcome::Canceled => 499,
    }
}

/// Executable error mark of an outcome, equal to the specification-level
/// one.
pub fn error_of(o: &RequestOutcome) -> (r: bool)
    ensures
        r == outcome_is_error(o),
{
    match o {
        RequestOutcome::Success { status } => *status >= 500,
        RequestOutcome::Failure { .. } => true,
        RequestOutcome::Canceled => true,
    }
}

/// Finalizing a span's fields records the outcome's status in the
/// `status_code` field when the builder declared it, and adds no field in
/// any case.
pub open spec fn finalized_fields(
    m: Map<Seq<char>, Option<Seq<char>>>,
    o: &RequestOutcome,
) -> Map<Seq<char>, Option<Seq<char>>> {
    if m.contains_key("status_code"@) {
        m.insert("status_code"@, Some(dec_chars(outcome_status(o) as nat)))
    } else {
        m
    }
}

/// Construction and finalization of the per-request root span. The start
/// hook is pure: it builds the span named by `start_view`, closing its
/// field set. The end hook is invoked exactly once per request, after the
/// outcome is known; it records the final status and the error mark and
/// leaves name, parent and every other field untouched.
pub trait RootSpanBuilder {
    /// The span this builder creates for a request, as a mathematical
    /// value.
    spec fn start_view(meta: &RequestMeta) -> SpanView;

    /// Start hook: build the root span for an inbound request.
    fn on_request_start(meta: &RequestMeta) -> (s: Span)
        ensures
            s.wf(),
            s@ == Self::start_view(meta),
    ;

    /// End hook: record the outcome on the span.
    fn on_request_end(span: &mut Span, outcome: &RequestOutcome)
        requires
            old(span).wf(),
        ensures
            final(span).wf(),
            final(span)@.name == old(span)@.name,
            final(span)@.parent == old(span)@.parent,
            final(span)@.fields == finalized_fields(old(span)@.fields, outcome),
            final(span)@.error == outcome_is_error(outcome),
    ;
}

/// The field set the default builder declares: the request line and
/// addressing context, with placeholders for the status code — filled at
/// finalization — and the distributed trace id — filled by the middleware
/// when a remote context is found.
pub open spec fn default_fields(meta: &RequestMeta) -> Map<Seq<char>, Option<Seq<char>>> {
    Map::empty()
        .insert("method"@, Some(meta.method@))
        .insert("route"@, Some(meta.route@))
        .insert("version"@, Some(meta.version@))
        .insert("target"@, Some(meta.target@))
        .insert("client_addr"@, value_view(meta.client_addr))
        .insert("user_agent"@, value_view(meta.user_agent))
        .insert("status_code"@, None)
        .insert("trace_id"@, None)
}

/// The default root-span builder: captures the usual HTTP dimensions of a
/// request and nothing else.
pub struct DefaultRootSpanBuilder;

/// Push one declared field, tracking the map the declared fields denote.
fn push_field(v: &mut Vec<SpanField>, name: String, value: Option<String>)
    ensures
        final(v)@ == old(v)@.push(SpanField { name, value }),
        fields_map(final(v)@) == fields_map(old(v)@).insert(name@, value_view(value)),
{
    let ghost prev = v@;
    let ghost gname = name@;
    let ghost gvalue = value_view(value);
    v.push(SpanField { name, value });
    proof {
        assert(v@.drop_last() =~= prev);
        assert(v@.last().name@ == gname);
        assert(value_view(v@.last().value) == gvalue);
    }
}

impl RootSpanBuilder for DefaultRootSpanBuilder {
    open spec fn start_view(meta: &RequestMeta) -> SpanView {
        SpanView {
            name: "HTTP request"@,
            fields: default_fields(meta),
            parent: None,
            error: false,
        }
    }

    fn on_request_start(meta: &RequestMeta) -> (s: Span) {
        let mut fields: Vec<SpanField> = Vec::new();
        push_field(&mut fields, String::from_str("method"), Some(meta.method.clone()));
        push_field(&mut fields, String::from_str("route"), Some(meta.route.clone()));
        push_field(&mut fields, String::from_str("version"), Some(meta.version.clone()));
        push_field(&mut fields, String::from_str("target"), Some(meta.target.clone()));
        let client_addr = match &meta.client_addr {
            Some(a) => Some(a.clone()),
            None => None,
        };
        push_field(&mut fields, String::from_str("client_addr"), client_addr);
        let user_agent = match &meta.user_agent {
            Some(a) => Some(a.clone()),
            None => None,
        };
        push_field(&mut fields, String::from_str("user_agent"), user_agent);
        push_field(&mut fields, String::from_str("status_code"), None);
        push_field(&mut fields, String::from_str("trace_id"), None);
        proof {
            reveal_strlit("method");
            reveal_strlit("route");
            reveal_strlit("version");
            reveal_strlit("target");
            reveal_strlit("client_addr");
            reveal_strlit("user_agent");
            reveal_strlit("status_code");
            reveal_strlit("trace_id");
            assert(fields@.len() == 8);
            assert(fields@[0].name@ == "method"@);
            assert(fields@[1].name@ == "route"@);
            assert(fields@[2].name@ == "version"@);
            assert(fields@[3].name@ == "target"@);
            assert(fields@[4].name@ == "client_addr"@);
            assert(fields@[5].name@ == "user_agent"@);
            assert(fields@[6].name@ == "status_code"@);
            assert(fields@[7].name@ == "trace_id"@);
            assert("method"@[0] == 'm' && "target"@[0] == 't');
            assert("client_addr"@[0] == 'c' && "status_code"@[0] == 's');
            assert(distinct_names(fields@)) by {
                assert forall|i: int, j: int| 0 <= i < j < fields@.len() implies (
                #[trigger] fields@[i].name@) != (#[trigger] fields@[j].name@) by {
                    assert(fields@[i].name@.len() != fields@[j].name@.len() || fields@[i].name@[0]
                        != fields@[j].name@[0]);
                }
            }
        }
        let s = Span::create(String::from_str("HTTP request"), fields);
        proof {
            assert(s@.fields =~= default_fields(meta));
        }
        s
    }

    fn on_request_end(span: &mut Span, outcome: &RequestOutcome) {
        let status = status_of(outcome);
        let _declared = span.record("status_code", render_dec(status as u64));
        span.error = error_of(outcome);
        proof {
            assert(span@.fields =~= finalized_fields(old(span)@.fields, outcome));
        }
    }
}

} // verus!
