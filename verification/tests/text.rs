use zero_shell::numbers::{decimal_string, parse_i32, parse_u32};
use zero_shell::text::{fill, fill_all, join, split_char, split_whitespace, trim};

#[test]
fn fill_replaces_the_first_placeholder() {
    assert_eq!(fill("{}: {}: x", "cat"), "cat: {}: x");
    assert_eq!(fill("no placeholder", "cat"), "no placeholder");
    assert_eq!(fill("{{}}", "a"), "{a}");
}

#[test]
fn fill_all_replaces_every_placeholder() {
    assert_eq!(fill_all("{} and {}", "x{}"), "x{} and x{}");
}

#[test]
fn filling_in_turn_can_reach_a_placeholder_inside_an_earlier_value() {
    let a = fill("{}: {}: {}", "rm");
    let b = fill(&a, "a{}b");
    assert_eq!(fill(&b, "E"), "rm: aEb: {}");
}

#[test]
fn trim_strips_unicode_white_space() {
    assert_eq!(trim(" \t x y \u{2003}\n"), "x y");
    assert_eq!(trim("   "), "");
}

#[test]
fn split_helpers() {
    assert_eq!(split_whitespace("  Thu Jul  6 "), vec!["Thu", "Jul", "6"]);
    assert_eq!(split_char("a::b", ':'), vec!["a", "", "b"]);
    assert_eq!(split_char("", ':'), vec![""]);
}

#[test]
fn join_puts_separator_between() {
    let v: Vec<String> = vec!["a".into(), "".into(), "c".into()];
    assert_eq!(join(&v, ", "), "a, , c");
    assert_eq!(join(&Vec::new(), " "), "");
}

#[test]
fn numbers_read_like_str_parse() {
    for s in ["0", "42", "+7", "-0", "-2147483648", "2147483647", "2147483648", "-2147483649", "", "+", "-", " 1", "1a", "007"] {
        assert_eq!(parse_i32(s), s.parse::<i32>().ok(), "{:?}", s);
    }
    for s in ["0", "4294967295", "4294967296", "+5", "-1", "", "99999999999"] {
        assert_eq!(parse_u32(s), s.parse::<u32>().ok(), "{:?}", s);
    }
}

#[test]
fn decimal_round_trip() {
    for n in [0u64, 9, 10, 501, 4294967295, u64::MAX] {
        assert_eq!(decimal_string(n), n.to_string());
    }
    for n in [0u32, 1, 65534, u32::MAX] {
        assert_eq!(parse_u32(&decimal_string(n as u64)), Some(n));
    }
}
