//! The ordinal severity scale shared by spans and events, and the event
//! record consumed by output layers. Events that arrive through a legacy
//! leveled-logging adapter carry a normalized severity beside the native
//! one; the effective severity prefers the normalized value, bridging both
//! kinds onto one scale.

use vstd::prelude::*;

verus! {

/// Ordinal event importance: `Error` is the most severe, `Trace` the least.
#[derive(Clone, Copy, Debug, PartialEq, Eq, Structural)]
pub enum Severity {
    Trace,
    Debug,
    Info,
    Warn,
    Error,
}

impl Severity {
    /// Position on the ordinal scale; more severe levels are larger.
    pub open spec fn ord(self) -> int {
        match self {
            Severity::Trace => 0,
            Severity::Debug => 1,
            Severity::Info => 2,
            Severity::Warn => 3,
            Severity::Error => 4,
        }
    }

    /// Executable ordinal, equal to the specification-level one.
    pub fn ord_u8(self) -> (r: u8)
        ensures
            r as int == self.ord(),
    {
        match self {
            Severity::Trace => 0,
            Severity::Debug => 1,
            Severity::Info => 2,
            Severity::Warn => 3,
            Severity::Error => 4,
        }
    }

    /// Whether `self` is at least as severe as `other`.
    pub fn at_least(self, other: Severity) -> (r: bool)
        ensures
            r == (self.ord() >= other.ord()),
    {
        self.ord_u8() >= other.ord_u8()
    }
}

/// A point-in-time structured record handed to output layers. An event that
/// arrived through a legacy leveled-logging adapter carries the severity the
/// adapter normalized in `legacy_level`; a native event carries `None` there.
/// An event emitted for a request error embeds the error's cause chain and
/// the rendered request identifier for cross-log correlation.
pub struct EventRecord {
    pub level: Severity,
    pub legacy_level: Option<Severity>,
    pub message: String,
    pub cause_chain: Vec<String>,
    pub request_id: Option<String>,
}

/// The character sequences of a sequence of strings.
pub open spec fn strings_view(s: Seq<String>) -> Seq<Seq<char>> {
    s.map_values(|x: String| x@)
}

/// Copy a list of strings; the copy reads the same.
pub fn clone_strings(v: &Vec<String>) -> (r: Vec<String>)
    ensures
        r@ == v@,
{
    let n = v.len();
    let mut r: Vec<String> = Vec::new();
    let mut j: usize = 0;
    while j < n
        invariant
            0 <= j <= n,
            n == v@.len(),
            r@ =~= v@.subrange(0, j as int),
        decreases n - j,
    {
        r.push(v[j].clone());
        j = j + 1;
        proof {
            assert(r@ =~= v@.subrange(0, j as int));
        }
    }
    proof {
        assert(v@.subrange(0, n as int) =~= v@);
    }
    r
}

/// Mathematical image of an [`EventRecord`].
pub struct EventView {
    pub level: Severity,
    pub legacy_level: Option<Severity>,
    pub message: Seq<char>,
    pub cause_chain: Seq<Seq<char>>,
    pub request_id: Option<Seq<char>>,
}

impl View for EventRecord {
    type V = EventView;

    open spec fn view(&self) -> EventView {
        EventView {
            level: self.level,
            legacy_level: self.legacy_level,
            message: self.message@,
            cause_chain: strings_view(self.cause_chain@),
            request_id: match self.request_id {
                Some(ref r) => Some(r@),
                None => None,
            },
        }
    }
}

/// The severity an event is judged by: the normalized severity of a bridged
/// legacy event, or the native severity of an ordinary one.
pub open spec fn effective_level(e: EventView) -> Severity {
    match e.legacy_level {
        Some(l) => l,
        None => e.level,
    }
}

impl EventRecord {
    /// Executable effective severity, equal to the specification-level one.
    pub fn effective(&self) -> (r: Severity)
        ensures
            r == effective_level(self@),
    {
        match self.legacy_level {
            Some(l) => l,
            None => self.level,
        }
    }
}

} // verus!
