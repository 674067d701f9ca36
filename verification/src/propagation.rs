//! Distributed trace-context extraction. An inbound request carries its
//! remote parent, if any, in a `traceparent` header: a dash-separated text
//! of version, trace id, parent span id and flags, all lowercase
//! hexadecimal. Header names are matched without regard to ASCII case.
//! Absent or malformed input always degrades to "no parent" — extraction
//! never fails destructively.

use vstd::prelude::*;

use crate::hex::{
    all_hex, hex_val, is_hex_digit, lemma_hex_val_bound, lemma_pow16_monotone, pow16,
};

verus! {

/// A remote parent extracted from inbound headers: the trace this request
/// belongs to, the span that caused it, and the trace flags.
#[derive(Clone, Copy, Debug, PartialEq, Eq, Structural)]
pub struct TraceContext {
    pub trace_id: u128,
    pub parent_id: u64,
    pub flags: u8,
}

impl TraceContext {
    /// The sampled bit of the trace flags.
    pub fn sampled(&self) -> (r: bool)
        ensures
            r == (self.flags & 1 == 1),
    {
        self.flags & 1 == 1
    }
}

/// A well-formed `traceparent` value: fifty-five characters, dashes after
/// the version, trace id and parent id fields, every other character a
/// lowercase hex digit, a version that is not the reserved `ff`, and a
/// trace id and parent id that are not all zeros.
pub open spec fn well_formed_traceparent(s: Seq<char>) -> bool {
    &&& s.len() == 55
    &&& s[2] == '-'
    &&& s[35] == '-'
    &&& s[52] == '-'
    &&& all_hex(s.subrange(0, 2))
    &&& all_hex(s.subrange(3, 35))
    &&& all_hex(s.subrange(36, 52))
    &&& all_hex(s.subrange(53, 55))
    &&& !(s[0] == 'f' && s[1] == 'f')
    &&& hex_val(s.subrange(3, 35)) != 0
    &&& hex_val(s.subrange(36, 52)) != 0
}

pub open spec fn parsed_trace_id(s: Seq<char>) -> u128 {
    hex_val(s.subrange(3, 35)) as u128
}

pub open spec fn parsed_parent_id(s: Seq<char>) -> u64 {
    hex_val(s.subrange(36, 52)) as u64
}

pub open spec fn parsed_flags(s: Seq<char>) -> u8 {
    hex_val(s.subrange(53, 55)) as u8
}

/// What parsing a `traceparent` value yields: the carried context when the
/// value is well formed, nothing otherwise.
pub open spec fn parse_spec(s: Seq<char>) -> Option<TraceContext> {
    if well_formed_traceparent(s) {
        Some(
            TraceContext {
                trace_id: parsed_trace_id(s),
                parent_id: parsed_parent_id(s),
                flags: parsed_flags(s),
            },
        )
    } else {
        None
    }
}

/// Read the characters of `s` between `start` and `end` as one lowercase
/// hexadecimal number, or report that one of them is no such digit.
fn parse_hex_range(s: &str, start: usize, end: usize) -> (r: Option<u128>)
    requires
        start <= end,
        end <= s@.len(),
        end - start <= 32,
    ensures
        match r {
            Some(v) => all_hex(s@.subrange(start as int, end as int)) && v as nat == hex_val(
                s@.subrange(start as int, end as int),
            ),
            None => !all_hex(s@.subrange(start as int, end as int)),
        },
{
    let mut acc: u128 = 0;
    let mut i: usize = start;
    proof {
        assert(s@.subrange(start as int, start as int) =~= Seq::<char>::empty());
    }
    while i < end
        invariant
            start <= i <= end,
            end <= s@.len(),
            end - start <= 32,
            all_hex(s@.subrange(start as int, i as int)),
            acc as nat == hex_val(s@.subrange(start as int, i as int)),
        decreases end - i,
    {
        let c = s.get_char(i);
        let is_digit = '0' <= c && c <= '9';
        let is_lower = 'a' <= c && c <= 'f';
        if !is_digit && !is_lower {
            proof {
                assert(s@.subrange(start as int, end as int)[i - start] == s@[i as int]);
                assert(!is_hex_digit(s@[i as int]));
            }
            return None;
        }
        let code: u32 = c as u32;
        let d: u32 = if is_digit {
            code - 48
        } else {
            code - 97 + 10
        };
        proof {
            lemma_hex_val_bound(s@.subrange(start as int, i as int));
            lemma_pow16_monotone((i - start) as nat, 31);
            reveal_with_fuel(pow16, 33);
            assert(pow16(32) == 0x100000000000000000000000000000000);
            assert(acc * 16 + 15 < pow16(32));
        }
        let ghost prev = s@.subrange(start as int, i as int);
        acc = acc * 16 + (d as u128);
        i = i + 1;
        proof {
            let sub_new = s@.subrange(start as int, i as int);
            assert(sub_new.drop_last() =~= prev);
            assert(sub_new.last() == s@[i - 1]);
            assert(crate::hex::hex_digit_val(s@[i - 1]) == d as nat);
        }
    }
    Some(acc)
}

/// Parse one `traceparent` value. Returns the carried context exactly when
/// the value is well formed, and nothing on any malformed input.
pub fn parse_traceparent(s: &str) -> (r: Option<TraceContext>)
    ensures
        r == parse_spec(s@),
{
    if s.unicode_len() != 55 {
        return None;
    }
    if s.get_char(2) != '-' || s.get_char(35) != '-' || s.get_char(52) != '-' {
        return None;
    }
    if parse_hex_range(s, 0, 2).is_none() {
        return None;
    }
    if s.get_char(0) == 'f' && s.get_char(1) == 'f' {
        return None;
    }
    let trace_id = match parse_hex_range(s, 3, 35) {
        Some(t) => t,
        None => {
            return None;
        },
    };
    if trace_id == 0 {
        return None;
    }
    let parent_wide = match parse_hex_range(s, 36, 52) {
        Some(p) => p,
        None => {
            return None;
        },
    };
    if parent_wide == 0 {
        return None;
    }
    let flags_wide = match parse_hex_range(s, 53, 55) {
        Some(f) => f,
        None => {
            return None;
        },
    };
    proof {
        lemma_hex_val_bound(s@.subrange(36, 52));
        lemma_hex_val_bound(s@.subrange(53, 55));
        reveal_with_fuel(pow16, 17);
        assert(pow16(16) == 0x10000000000000000);
        assert(pow16(2) == 256);
    }
    Some(
        TraceContext {
            trace_id,
            parent_id: parent_wide as u64,
            flags: flags_wide as u8,
        },
    )
}

/// The ASCII-lowercase code of a character: uppercase letters fold onto
/// their lowercase forms, every other character stands for itself.
pub open spec fn lower_code(c: char) -> int {
    if 65 <= c as int && c as int <= 90 {
        c as int + 32
    } else {
        c as int
    }
}

/// Two names are the same header name when they agree character by
/// character up to ASCII case.
pub open spec fn names_match(a: Seq<char>, b: Seq<char>) -> bool {
    a.len() == b.len() && forall|i: int|
        0 <= i < a.len() ==> lower_code(#[trigger] a[i]) == lower_code(b[i])
}

/// Case-insensitive comparison of two header names.
pub fn name_eq(a: &str, b: &str) -> (r: bool)
    ensures
        r == names_match(a@, b@),
{
    let n = a.unicode_len();
    if n != b.unicode_len() {
        return false;
    }
    let mut i: usize = 0;
    while i < n
        invariant
            0 <= i <= n,
            n == a@.len(),
            n == b@.len(),
            forall|j: int| 0 <= j < i ==> lower_code(#[trigger] a@[j]) == lower_code(b@[j]),
        decreases n - i,
    {
        let ca: u32 = a.get_char(i) as u32;
        let cb: u32 = b.get_char(i) as u32;
        let la: u32 = if 65 <= ca && ca <= 90 {
            ca + 32
        } else {
            ca
        };
        let lb: u32 = if 65 <= cb && cb <= 90 {
            cb + 32
        } else {
            cb
        };
        if la != lb {
            return false;
        }
        i = i + 1;
    }
    true
}

/// The value of the first header whose name matches `name` up to ASCII
/// case, scanning from position `i`.
pub open spec fn header_lookup_from(
    hs: Seq<(String, String)>,
    name: Seq<char>,
    i: int,
) -> Option<Seq<char>>
    decreases hs.len() - i,
{
    if i < 0 || i >= hs.len() {
        None
    } else if names_match(hs[i].0@, name) {
        Some(hs[i].1@)
    } else {
        header_lookup_from(hs, name, i + 1)
    }
}

/// The value of the first header whose name matches `name` up to ASCII case.
pub open spec fn header_lookup(hs: Seq<(String, String)>, name: Seq<char>) -> Option<Seq<char>> {
    header_lookup_from(hs, name, 0)
}

/// Find the first header named `name`, without regard to ASCII case.
pub fn find_header(headers: &Vec<(String, String)>, name: &str) -> (r: Option<String>)
    ensures
        match r {
            Some(v) => header_lookup(headers@, name@) == Some(v@),
            None => header_lookup(headers@, name@) is None,
        },
{
    let n = headers.len();
    let mut i: usize = 0;
    while i < n
        invariant
            0 <= i <= n,
            n == headers@.len(),
            header_lookup(headers@, name@) == header_lookup_from(headers@, name@, i as int),
        decreases n - i,
    {
        if name_eq(headers[i].0.as_str(), name) {
            return Some(headers[i].1.clone());
        }
        i = i + 1;
    }
    None
}

/// What extraction against a header carrier yields: the context carried by
/// the first `traceparent` header when it is present and well formed,
/// nothing otherwise.
pub open spec fn extract_spec(hs: Seq<(String, String)>) -> Option<TraceContext> {
    match header_lookup(hs, "traceparent"@) {
        Some(v) => parse_spec(v),
        None => None,
    }
}

/// Extract the remote parent context from an inbound header carrier.
/// Malformed or absent input yields `None` — a new trace root — and never
/// an error.
pub fn extract(headers: &Vec<(String, String)>) -> (r: Option<TraceContext>)
    ensures
        r == extract_spec(headers@),
{
    match find_header(headers, "traceparent") {
        Some(v) => parse_traceparent(v.as_str()),
        None => None,
    }
}

} // verus!
