//! Per-request correlation identifiers: a 128-bit random value, assigned
//! once when a request arrives, immutable afterwards, and rendered as the
//! conventional hyphenated lowercase hexadecimal text for use in logs and
//! error payloads. Rendering is injective, so distinct identifiers always
//! render as distinct strings.

use vstd::arithmetic::div_mod::{
    lemma_fundamental_div_mod, lemma_mod_breakdown, lemma_mod_bound, lemma_multiply_divide_lt,
};
use vstd::prelude::*;

use crate::hex::{hex_seq, pow16, render_hex, lemma_hex_seq_injective, lemma_hex_seq_props};

verus! {

/// The five dash-separated groups of the hyphenated rendering, drawn from
/// the identifier's bits, most significant group first.
pub open spec fn id_group_1(id: u128) -> nat {
    (id as nat) / 0x1000000000000000000000000
}

pub open spec fn id_group_2(id: u128) -> nat {
    ((id as nat) / 0x100000000000000000000) % 0x10000
}

pub open spec fn id_group_3(id: u128) -> nat {
    ((id as nat) / 0x10000000000000000) % 0x10000
}

pub open spec fn id_group_4(id: u128) -> nat {
    ((id as nat) / 0x1000000000000) % 0x10000
}

pub open spec fn id_group_5(id: u128) -> nat {
    (id as nat) % 0x1000000000000
}

/// The hyphenated lowercase hexadecimal rendering of a 128-bit identifier:
/// groups of 8, 4, 4, 4 and 12 digits, separated by dashes.
pub open spec fn id_chars(id: u128) -> Seq<char> {
    hex_seq(id_group_1(id), 8) + seq!['-'] + hex_seq(id_group_2(id), 4) + seq!['-'] + hex_seq(
        id_group_3(id),
        4,
    ) + seq!['-'] + hex_seq(id_group_4(id), 4) + seq!['-'] + hex_seq(id_group_5(id), 12)
}

/// An identifier is exactly the weighted sum of its five groups, so the
/// groups determine it.
proof fn lemma_id_group_decomposition(id: u128)
    ensures
        id as int == id_group_1(id) * 0x1000000000000000000000000 + id_group_2(id)
            * 0x100000000000000000000 + id_group_3(id) * 0x10000000000000000 + id_group_4(id)
            * 0x1000000000000 + id_group_5(id),
{
    let x = id as int;
    lemma_fundamental_div_mod(x, 0x1000000000000000000000000);
    lemma_mod_breakdown(x, 0x100000000000000000000, 0x10000);
    lemma_mod_breakdown(x, 0x10000000000000000, 0x10000);
    lemma_mod_breakdown(x, 0x1000000000000, 0x10000);
}

/// Distinct identifiers have distinct hyphenated renderings.
pub proof fn lemma_id_chars_injective(a: u128, b: u128)
    requires
        id_chars(a) == id_chars(b),
    ensures
        a == b,
{
    reveal_with_fuel(pow16, 25);
    assert(pow16(4) == 0x10000);
    assert(pow16(8) == 0x100000000);
    assert(pow16(12) == 0x1000000000000);
    assert(pow16(24) == 0x1000000000000000000000000);
    lemma_hex_seq_props(id_group_1(a), 8);
    lemma_hex_seq_props(id_group_2(a), 4);
    lemma_hex_seq_props(id_group_3(a), 4);
    lemma_hex_seq_props(id_group_4(a), 4);
    lemma_hex_seq_props(id_group_5(a), 12);
    lemma_hex_seq_props(id_group_1(b), 8);
    lemma_hex_seq_props(id_group_2(b), 4);
    lemma_hex_seq_props(id_group_3(b), 4);
    lemma_hex_seq_props(id_group_4(b), 4);
    lemma_hex_seq_props(id_group_5(b), 12);
    assert forall|i: int| 0 <= i < 8 implies #[trigger] hex_seq(id_group_1(a), 8)[i] == hex_seq(
        id_group_1(b),
        8,
    )[i] by {
        assert(id_chars(a)[i] == hex_seq(id_group_1(a), 8)[i]);
        assert(id_chars(b)[i] == hex_seq(id_group_1(b), 8)[i]);
    }
    assert(hex_seq(id_group_1(a), 8) =~= hex_seq(id_group_1(b), 8));
    assert forall|i: int| 0 <= i < 4 implies #[trigger] hex_seq(id_group_2(a), 4)[i] == hex_seq(
        id_group_2(b),
        4,
    )[i] by {
        assert(id_chars(a)[9 + i] == hex_seq(id_group_2(a), 4)[i]);
        assert(id_chars(b)[9 + i] == hex_seq(id_group_2(b), 4)[i]);
    }
    assert(hex_seq(id_group_2(a), 4) =~= hex_seq(id_group_2(b), 4));
    assert forall|i: int| 0 <= i < 4 implies #[trigger] hex_seq(id_group_3(a), 4)[i] == hex_seq(
        id_group_3(b),
        4,
    )[i] by {
        assert(id_chars(a)[14 + i] == hex_seq(id_group_3(a), 4)[i]);
        assert(id_chars(b)[14 + i] == hex_seq(id_group_3(b), 4)[i]);
    }
    assert(hex_seq(id_group_3(a), 4) =~= hex_seq(id_group_3(b), 4));
    assert forall|i: int| 0 <= i < 4 implies #[trigger] hex_seq(id_group_4(a), 4)[i] == hex_seq(
        id_group_4(b),
        4,
    )[i] by {
        assert(id_chars(a)[19 + i] == hex_seq(id_group_4(a), 4)[i]);
        assert(id_chars(b)[19 + i] == hex_seq(id_group_4(b), 4)[i]);
    }
    assert(hex_seq(id_group_4(a), 4) =~= hex_seq(id_group_4(b), 4));
    assert forall|i: int| 0 <= i < 12 implies #[trigger] hex_seq(id_group_5(a), 12)[i] == hex_seq(
        id_group_5(b),
        12,
    )[i] by {
        assert(id_chars(a)[24 + i] == hex_seq(id_group_5(a), 12)[i]);
        assert(id_chars(b)[24 + i] == hex_seq(id_group_5(b), 12)[i]);
    }
    assert(hex_seq(id_group_5(a), 12) =~= hex_seq(id_group_5(b), 12));
    lemma_multiply_divide_lt(a as int, 0x1000000000000000000000000, 0x100000000);
    lemma_multiply_divide_lt(b as int, 0x1000000000000000000000000, 0x100000000);
    lemma_mod_bound((a as int) / 0x100000000000000000000, 0x10000);
    lemma_mod_bound((b as int) / 0x100000000000000000000, 0x10000);
    lemma_mod_bound((a as int) / 0x10000000000000000, 0x10000);
    lemma_mod_bound((b as int) / 0x10000000000000000, 0x10000);
    lemma_mod_bound((a as int) / 0x1000000000000, 0x10000);
    lemma_mod_bound((b as int) / 0x1000000000000, 0x10000);
    lemma_mod_bound(a as int, 0x1000000000000);
    lemma_mod_bound(b as int, 0x1000000000000);
    lemma_hex_seq_injective(id_group_1(a), id_group_1(b), 8);
    lemma_hex_seq_injective(id_group_2(a), id_group_2(b), 4);
    lemma_hex_seq_injective(id_group_3(a), id_group_3(b), 4);
    lemma_hex_seq_injective(id_group_4(a), id_group_4(b), 4);
    lemma_hex_seq_injective(id_group_5(a), id_group_5(b), 12);
    lemma_id_group_decomposition(a);
    lemma_id_group_decomposition(b);
}

/// A per-request correlation identifier: 128 random bits drawn when the
/// request arrives, never mutated afterwards.
#[derive(Clone, Copy, Debug, PartialEq, Eq, Structural)]
pub struct RequestId {
    pub bits: u128,
}

/// Relies on `uuid::Uuid::new_v4` and `Uuid::as_u128`: `new_v4` draws 128
/// random bits, then forces the version digit to 4 and the variant bits to
/// `10`, and `as_u128` reads the same value back big-endian. Nothing more
/// can be promised of a random draw.
#[verifier::external_body]
fn fresh_v4_bits() -> (r: u128)
    ensures
        (r >> 76) & 0xf == 4,
        (r >> 62) & 0x3 == 2,
{
    uuid::Uuid::new_v4().as_u128()
}

impl RequestId {
    /// Draw a fresh random identifier. The version and variant digits of
    /// the underlying generator are fixed; the remaining 122 bits are
    /// random, which is what makes collisions negligible.
    pub fn generate() -> (r: RequestId)
        ensures
            (r.bits >> 76) & 0xf == 4,
            (r.bits >> 62) & 0x3 == 2,
    {
        RequestId { bits: fresh_v4_bits() }
    }

    /// The hyphenated lowercase hexadecimal text of this identifier,
    /// thirty-six characters long.
    pub fn render(&self) -> (r: String)
        ensures
            r@ == id_chars(self.bits),
            r@.len() == 36,
    {
        let dash = "-";
        proof {
            reveal_strlit("-");
            assert(dash@ =~= seq!['-']);
        }
        let g1: u128 = self.bits / 0x1000000000000000000000000;
        let g2: u128 = (self.bits / 0x100000000000000000000) % 0x10000;
        let g3: u128 = (self.bits / 0x10000000000000000) % 0x10000;
        let g4: u128 = (self.bits / 0x1000000000000) % 0x10000;
        let g5: u128 = self.bits % 0x1000000000000;
        let mut r = render_hex(g1, 8);
        r.append(dash);
        r.append(render_hex(g2, 4).as_str());
        r.append(dash);
        r.append(render_hex(g3, 4).as_str());
        r.append(dash);
        r.append(render_hex(g4, 4).as_str());
        r.append(dash);
        r.append(render_hex(g5, 12).as_str());
        proof {
            assert(r@ =~= id_chars(self.bits));
            lemma_hex_seq_props(id_group_1(self.bits), 8);
            lemma_hex_seq_props(id_group_2(self.bits), 4);
            lemma_hex_seq_props(id_group_3(self.bits), 4);
            lemma_hex_seq_props(id_group_4(self.bits), 4);
            lemma_hex_seq_props(id_group_5(self.bits), 12);
        }
        r
    }
}

} // verus!
