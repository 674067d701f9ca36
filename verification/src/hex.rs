//! Digit-sequence views of machine integers: lowercase hexadecimal sequences
//! of a fixed width, decimal sequences, and the numeric value of a sequence
//! of hex digits. These back the rendering of request identifiers and status
//! codes and the parsing of distributed trace-context headers.

use vstd::prelude::*;

verus! {

/// The digit character for a value below sixteen, lowercase.
pub open spec fn digit_char(d: nat) -> char {
    if d == 0 {
        '0'
    } else if d == 1 {
        '1'
    } else if d == 2 {
        '2'
    } else if d == 3 {
        '3'
    } else if d == 4 {
        '4'
    } else if d == 5 {
        '5'
    } else if d == 6 {
        '6'
    } else if d == 7 {
        '7'
    } else if d == 8 {
        '8'
    } else if d == 9 {
        '9'
    } else if d == 10 {
        'a'
    } else if d == 11 {
        'b'
    } else if d == 12 {
        'c'
    } else if d == 13 {
        'd'
    } else if d == 14 {
        'e'
    } else {
        'f'
    }
}

/// A lowercase hexadecimal digit character.
pub open spec fn is_hex_digit(c: char) -> bool {
    ('0' <= c && c <= '9') || ('a' <= c && c <= 'f')
}

/// Numeric value of a lowercase hexadecimal digit character.
pub open spec fn hex_digit_val(c: char) -> nat {
    if '0' <= c && c <= '9' {
        (c as int - '0' as int) as nat
    } else if 'a' <= c && c <= 'f' {
        (c as int - 'a' as int + 10) as nat
    } else {
        0
    }
}

pub proof fn lemma_digit_char_val(d: nat)
    requires
        d < 16,
    ensures
        is_hex_digit(digit_char(d)),
        hex_digit_val(digit_char(d)) == d,
{
}

/// Sixteen raised to the given power.
pub open spec fn pow16(w: nat) -> nat
    decreases w,
{
    if w == 0 {
        1
    } else {
        16 * pow16((w - 1) as nat)
    }
}

/// The lowercase hexadecimal rendering of `v`, exactly `w` digits wide,
/// most significant digit first; only the low `w` digits of `v` appear.
pub open spec fn hex_seq(v: nat, w: nat) -> Seq<char>
    decreases w,
{
    if w == 0 {
        Seq::empty()
    } else {
        hex_seq(v / 16, (w - 1) as nat).push(digit_char(v % 16))
    }
}

/// The numeric value of a sequence of lowercase hexadecimal digit
/// characters, most significant digit first.
pub open spec fn hex_val(s: Seq<char>) -> nat
    decreases s.len(),
{
    if s.len() == 0 {
        0
    } else {
        hex_val(s.drop_last()) * 16 + hex_digit_val(s.last())
    }
}

/// The decimal rendering of `v`, without leading zeros.
pub open spec fn dec_chars(v: nat) -> Seq<char>
    decreases v,
{
    if v < 10 {
        seq![digit_char(v)]
    } else {
        dec_chars(v / 10).push(digit_char(v % 10))
    }
}

pub proof fn lemma_hex_seq_props(v: nat, w: nat)
    ensures
        hex_seq(v, w).len() == w,
        forall|i: int| 0 <= i < w ==> is_hex_digit(#[trigger] hex_seq(v, w)[i]),
        v < pow16(w) ==> hex_val(hex_seq(v, w)) == v,
    decreases w,
{
    if w > 0 {
        lemma_hex_seq_props(v / 16, (w - 1) as nat);
        let s = hex_seq(v, w);
        let prefix = hex_seq(v / 16, (w - 1) as nat);
        assert(s.drop_last() =~= prefix);
        lemma_digit_char_val(v % 16);
        assert forall|i: int| 0 <= i < w implies is_hex_digit(#[trigger] s[i]) by {
            if i < w - 1 {
                assert(s[i] == prefix[i]);
            }
        }
        if v < pow16(w) {
            assert(v / 16 < pow16((w - 1) as nat)) by (nonlinear_arith)
                requires
                    v < 16 * pow16((w - 1) as nat),
            ;
            assert(v == (v / 16) * 16 + v % 16) by (nonlinear_arith);
        }
    }
}

/// Distinct values below `pow16(w)` have distinct `w`-wide hex renderings.
pub proof fn lemma_hex_seq_injective(v1: nat, v2: nat, w: nat)
    requires
        v1 < pow16(w),
        v2 < pow16(w),
        hex_seq(v1, w) == hex_seq(v2, w),
    ensures
        v1 == v2,
{
    lemma_hex_seq_props(v1, w);
    lemma_hex_seq_props(v2, w);
}

/// Every character of `s` is a lowercase hexadecimal digit.
pub open spec fn all_hex(s: Seq<char>) -> bool {
    forall|i: int| 0 <= i < s.len() ==> is_hex_digit(#[trigger] s[i])
}

pub proof fn lemma_pow16_monotone(a: nat, b: nat)
    requires
        a <= b,
    ensures
        pow16(a) <= pow16(b),
    decreases b,
{
    if a < b {
        lemma_pow16_monotone(a, (b - 1) as nat);
        assert(pow16(b) == 16 * pow16((b - 1) as nat));
    }
}

/// A sequence of hex digits of length `w` has a value below `pow16(w)`.
pub proof fn lemma_hex_val_bound(s: Seq<char>)
    ensures
        hex_val(s) < pow16(s.len()),
    decreases s.len(),
{
    if s.len() > 0 {
        lemma_hex_val_bound(s.drop_last());
        assert(hex_digit_val(s.last()) < 16);
        assert(hex_val(s.drop_last()) * 16 + 15 < 16 * pow16((s.len() - 1) as nat))
            by (nonlinear_arith)
            requires
                hex_val(s.drop_last()) < pow16((s.len() - 1) as nat),
        ;
    }
}

fn digit_str(d: u8) -> (r: &'static str)
    requires
        d < 16,
    ensures
        r@ =~= seq![digit_char(d as nat)],
{
    let r = match d {
        0 => "0",
        1 => "1",
        2 => "2",
        3 => "3",
        4 => "4",
        5 => "5",
        6 => "6",
        7 => "7",
        8 => "8",
        9 => "9",
        10 => "a",
        11 => "b",
        12 => "c",
        13 => "d",
        14 => "e",
        _ => "f",
    };
    proof {
        reveal_strlit("0");
        reveal_strlit("1");
        reveal_strlit("2");
        reveal_strlit("3");
        reveal_strlit("4");
        reveal_strlit("5");
        reveal_strlit("6");
        reveal_strlit("7");
        reveal_strlit("8");
        reveal_strlit("9");
        reveal_strlit("a");
        reveal_strlit("b");
        reveal_strlit("c");
        reveal_strlit("d");
        reveal_strlit("e");
        reveal_strlit("f");
    }
    r
}

/// Render `v` as exactly `w` lowercase hexadecimal digits, most significant
/// first; only the low `w` digits of `v` appear.
pub fn render_hex(v: u128, w: usize) -> (r: String)
    ensures
        r@ == hex_seq(v as nat, w as nat),
    decreases w,
{
    if w == 0 {
        String::new()
    } else {
        let mut r = render_hex(v / 16, w - 1);
        r.append(digit_str((v % 16) as u8));
        proof {
            assert(hex_seq(v as nat, w as nat)
                == hex_seq(v as nat / 16, (w - 1) as nat).push(digit_char(v as nat % 16)));
            assert(r@ =~= hex_seq(v as nat, w as nat));
        }
        r
    }
}

/// Render `v` in decimal, without leading zeros.
pub fn render_dec(v: u64) -> (r: String)
    ensures
        r@ == dec_chars(v as nat),
    decreases v,
{
    if v < 10 {
        let mut r = String::new();
        r.append(digit_str(v as u8));
        proof {
            assert(r@ =~= seq![digit_char(v as nat)]);
        }
        r
    } else {
        let mut r = render_dec(v / 10);
        r.append(digit_str((v % 10) as u8));
        proof {
            assert(r@ =~= dec_chars(v as nat));
        }
        r
    }
}

} // verus!
