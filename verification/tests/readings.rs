use mlxtop::double::Double;
use mlxtop::text::{
    decimal_text, space_char, to_first_part, to_lower, to_printable, words_between,
};
use mlxtop::time::{is_fresh, Timestamp, FRESH};

fn double(value: f64) -> Double {
    Double { bits: value.to_bits() }
}

#[test]
fn doubles_are_usable_when_finite_and_not_below_zero() {
    for value in [0.0, -0.0, 5e-324, 1.5, f64::MAX] {
        assert!(double(value).is_usable());
    }
    for value in [-5e-324, -1.0, f64::INFINITY, f64::NEG_INFINITY, f64::NAN] {
        assert!(!double(value).is_usable());
    }
}

#[test]
fn usable_doubles_keep_their_order() {
    let values = [0.0, 5e-324, 2.2250738585072014e-308, 0.2, 0.8, 1.0, 1.5, 500.5, 1e300];
    for (i, a) in values.into_iter().enumerate() {
        for (j, b) in values.into_iter().enumerate() {
            assert_eq!(double(a).is_below(&double(b)), i < j);
        }
    }
    assert!(!double(-0.0).is_below(&double(0.0)));
    assert!(!double(0.0).is_below(&double(-0.0)));
}

#[test]
fn whole_doubles_become_counters() {
    for (value, whole) in [
        (0.0, Some(0)),
        (-0.0, Some(0)),
        (1.0, Some(1)),
        (1.5, None),
        (0.5, None),
        (5e-324, None),
        (2251799813685248.5, None),
        (9007199254740993.0, Some(9007199254740992)),
        (18446744073709549568.0, Some(18446744073709549568)),
        (18446744073709551616.0, None),
        (1e300, None),
    ] {
        assert_eq!(double(value).to_whole(), whole);
    }
}

#[test]
fn observations_are_fresh_for_five_seconds() {
    let at = Timestamp::from_seconds(100);
    let plus = |nanos: i128| Timestamp { nanos: at.nanos + nanos };
    assert!(is_fresh(Some(at), at));
    assert!(is_fresh(Some(at), plus(FRESH as i128)));
    assert!(!is_fresh(Some(at), plus(FRESH as i128 + 1)));
    assert!(!is_fresh(Some(at), plus(-1)));
    assert!(!is_fresh(None, at));
    assert_eq!(at.nanos, 100_000_000_000);
}

#[test]
fn texts_are_cut_into_parts_and_words() {
    assert_eq!(to_first_part("LARGE VS RECENT · 1.6× median"), "LARGE VS RECENT");
    assert_eq!(to_first_part("BASELINE SAMPLING"), "BASELINE SAMPLING");
    assert_eq!(to_first_part(" · x"), "");
    assert_eq!(to_first_part("a·b · c · d"), "a·b");
    let letters: Vec<char> = " a\u{2003}bc\t\nd ".chars().collect();
    assert_eq!(words_between(&letters, 0, letters.len()), vec!["a", "bc", "d"]);
    assert_eq!(words_between(&letters, 3, 4), vec!["b"]);
    assert_eq!(words_between(&letters, 2, 2), Vec::<String>::new());
}

#[test]
fn letters_are_lowered_and_controls_dropped() {
    assert_eq!(to_lower("LM Studio ÄZ@["), "lm studio Äz@[");
    assert_eq!(to_printable("a\0b\u{7f}c\u{a0}d", 3), "abc");
    assert_eq!(to_printable("ab", 0), "");
    assert_eq!(decimal_text(0), "0");
    assert_eq!(decimal_text(u64::MAX), "18446744073709551615");
}

#[test]
fn white_space_is_that_of_unicode() {
    for c in '\0'..=char::MAX {
        assert_eq!(space_char(c), c.is_whitespace());
    }
}

#[test]
fn control_characters_and_capitals_are_those_of_the_standard_library() {
    for c in '\0'..=char::MAX {
        let text = c.to_string();
        assert_eq!(to_printable(&text, 1).is_empty(), c.is_control());
        assert_eq!(to_lower(&text), text.to_ascii_lowercase());
    }
}
