use hypehouse_engine::f32_bits::F32Bits;
use hypehouse_engine::text::{
    after_last_slash, chars_of, contains_text, decimal_text, eq_ignore_ascii_case, has_prefix,
    is_white_space, parse_u64, same_text, strip_prefix, trim,
};

fn f(x: f32) -> F32Bits {
    F32Bits::from_bits(x.to_bits())
}

#[test]
fn texts_are_compared_and_cut() {
    assert!(same_text("äb", "äb"));
    assert!(!same_text("ab", "aB"));
    assert_eq!(chars_of("aä"), vec!['a', 'ä']);
    assert!(has_prefix("http://x", "http://"));
    assert!(!has_prefix("htt", "http://"));
    assert_eq!(strip_prefix("mem://é", "mem://"), Some("é"));
    assert_eq!(strip_prefix("x", "mem://"), None);
    assert_eq!(after_last_slash("a/b/c"), Some("c"));
    assert_eq!(after_last_slash("abc"), None);
    assert!(contains_text("abcabd", "abd"));
    assert!(contains_text("x", ""));
    assert!(!contains_text("ab", "abc"));
    assert!(eq_ignore_ascii_case("BYTES", "bytes"));
    assert!(!eq_ignore_ascii_case("Ä", "ä"));
}

#[test]
fn trimming_agrees_with_the_standard_library() {
    for s in ["", " ", "a", " a ", "\t\na b\u{a0}\u{3000}", "\u{200b}x", "\u{85}\u{2028}y\u{1680}"] {
        assert_eq!(trim(s), s.trim());
    }
    for c in '\0'..='\u{ffff}' {
        assert_eq!(is_white_space(c), c.is_whitespace(), "{c:?}");
    }
}

#[test]
fn numbers_are_parsed_and_written() {
    for s in [
        "0", "7", "+7", "007", "18446744073709551615", "18446744073709551616", "", "+", "-1", " 1",
        "1a", "99999999999999999999999",
    ] {
        assert_eq!(parse_u64(s), s.parse::<u64>().ok(), "{s:?}");
    }
    for n in [0, 9, 10, 65_536, u64::MAX] {
        assert_eq!(decimal_text(n), n.to_string());
        assert_eq!(parse_u64(&decimal_text(n)), Some(n));
    }
}

#[test]
fn float_patterns_are_ordered_as_floats() {
    let all = [
        0.0,
        -0.0,
        1.0,
        -1.0,
        0.5,
        1.0e-40,
        -1.0e-40,
        f32::MAX,
        f32::MIN,
        f32::INFINITY,
        f32::NEG_INFINITY,
        f32::NAN,
    ];
    for a in all {
        assert_eq!(f(a).is_nan(), a.is_nan());
        assert_eq!(f(a).is_finite(), a.is_finite());
        assert_eq!(f(a).to_bits(), a.to_bits());
        for b in all {
            assert_eq!(f(a).less_than(f(b)), a < b, "{a} < {b}");
        }
        let clamped = f(a).clamp(f(-1.0), f(0.5)).to_bits();
        assert_eq!(clamped, a.clamp(-1.0, 0.5).to_bits(), "clamp {a}");
    }
}
