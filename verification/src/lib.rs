//! Request-scoped tracing instrumentation: a root span per inbound request
//! with declared fields, distributed trace-context extraction from header
//! carriers, random per-request correlation identifiers, and a severity-gated
//! layer that forwards events to an inner consumer only when they reach a
//! configured threshold.

pub mod builder;
pub mod hex;
pub mod layer;
pub mod middleware;
pub mod propagation;
pub mod request_id;
pub mod severity;
pub mod span;

pub use builder::{DefaultRootSpanBuilder, RequestMeta, RequestOutcome, RootSpanBuilder};
pub use hex::{render_hex, render_dec};
pub use layer::{EventLayer, LayerCallback};
pub use middleware::{
    current_field, current_request_id, current_request_id_text, record_field, ErrorEventPolicy,
    Phase, RequestLifecycle, TracingLogger,
};
pub use propagation::{extract, parse_traceparent, TraceContext};
pub use request_id::RequestId;
pub use severity::{EventRecord, Severity};
pub use span::{Span, SpanField};
