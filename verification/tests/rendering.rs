use request_tracing::{render_dec, render_hex, RequestId};

#[test]
fn hex_rendering_is_fixed_width_lowercase() {
    assert_eq!(render_hex(0, 4), "0000");
    assert_eq!(render_hex(0x2a, 4), "002a");
    assert_eq!(render_hex(0xdeadbeef, 8), "deadbeef");
    assert_eq!(render_hex(0x0af7651916cd43dd8448eb211c80319c, 32), "0af7651916cd43dd8448eb211c80319c");
}

#[test]
fn dec_rendering_has_no_leading_zeros() {
    assert_eq!(render_dec(0), "0");
    assert_eq!(render_dec(200), "200");
    assert_eq!(render_dec(499), "499");
    assert_eq!(render_dec(500), "500");
    assert_eq!(render_dec(18446744073709551615), "18446744073709551615");
}

#[test]
fn request_id_renders_hyphenated() {
    let id = RequestId { bits: 0x0af7651916cd43dd8448eb211c80319c };
    assert_eq!(id.render(), "0af76519-16cd-43dd-8448-eb211c80319c");
    let zero = RequestId { bits: 0 };
    assert_eq!(zero.render(), "00000000-0000-0000-0000-000000000000");
}

#[test]
fn generated_ids_carry_version_and_variant() {
    // would fail if the generator handed plain zeroes (or most fixed
    // values) back: the version digit and variant bits are pinned
    for _ in 0..16 {
        let text = RequestId::generate().render();
        assert_eq!(text.len(), 36);
        assert_eq!(text.chars().nth(14), Some('4'));
        let variant = text.chars().nth(19).unwrap();
        assert!(matches!(variant, '8' | '9' | 'a' | 'b'), "variant digit was {variant}");
    }
}

#[test]
fn generated_ids_are_pairwise_distinct() {
    let mut rendered: Vec<String> = Vec::new();
    for _ in 0..64 {
        rendered.push(RequestId::generate().render());
    }
    for i in 0..rendered.len() {
        for j in (i + 1)..rendered.len() {
            assert_ne!(rendered[i], rendered[j]);
        }
    }
}
