use rustv::decimal::{parse_i32, push_int_text};
use rustv::text::{byte_len, chars_of, substring, width_of};

fn text_of(n: i32) -> String {
    let mut out = Vec::new();
    push_int_text(n, &mut out);
    out.into_iter().collect()
}

#[test]
fn integers_are_written_in_decimal() {
    assert_eq!(text_of(0), "0");
    assert_eq!(text_of(7), "7");
    assert_eq!(text_of(10), "10");
    assert_eq!(text_of(12345), "12345");
    assert_eq!(text_of(-1), "-1");
    assert_eq!(text_of(-900), "-900");
    assert_eq!(text_of(i32::MAX), "2147483647");
    assert_eq!(text_of(i32::MIN), "-2147483648");
}

#[test]
fn text_is_appended_to_what_is_there() {
    let mut out = vec!['x', '='];
    push_int_text(42, &mut out);
    assert_eq!(out, vec!['x', '=', '4', '2']);
}

#[test]
fn decimal_text_is_read_as_its_integer() {
    assert_eq!(parse_i32("0"), Some(0));
    assert_eq!(parse_i32("5"), Some(5));
    assert_eq!(parse_i32("007"), Some(7));
    assert_eq!(parse_i32("+12"), Some(12));
    assert_eq!(parse_i32("-12"), Some(-12));
    assert_eq!(parse_i32("-0"), Some(0));
    assert_eq!(parse_i32("2147483647"), Some(i32::MAX));
    assert_eq!(parse_i32("-2147483648"), Some(i32::MIN));
    assert_eq!(parse_i32("00000000000000000000000000000000000000012"), Some(12));
}

#[test]
fn other_text_is_no_integer() {
    assert_eq!(parse_i32(""), None);
    assert_eq!(parse_i32("+"), None);
    assert_eq!(parse_i32("-"), None);
    assert_eq!(parse_i32("1a"), None);
    assert_eq!(parse_i32("a1"), None);
    assert_eq!(parse_i32(" 1"), None);
    assert_eq!(parse_i32("1 "), None);
    assert_eq!(parse_i32("--1"), None);
    assert_eq!(parse_i32("1-"), None);
    assert_eq!(parse_i32("١"), None);
}

#[test]
fn integers_that_do_not_fit_are_refused() {
    assert_eq!(parse_i32("2147483648"), None);
    assert_eq!(parse_i32("-2147483649"), None);
    assert_eq!(parse_i32("99999999999"), None);
    assert_eq!(parse_i32("-99999999999999999999999999999999999999"), None);
    assert_eq!(parse_i32("340282366920938463463374607431768211456"), None);
}

#[test]
fn reading_agrees_with_the_standard_library() {
    for text in ["0", "12", "-12", "+3", "", "-", "2147483648", "-2147483648", "1_0", "0x10"] {
        assert_eq!(parse_i32(text), text.parse::<i32>().ok());
    }
}

#[test]
fn writing_then_reading_gives_the_integer_back() {
    for n in [0, 1, -1, 9, 10, -10, 99, 100, 65536, -40000, i32::MAX, i32::MIN] {
        assert_eq!(parse_i32(&text_of(n)), Some(n));
        assert_eq!(text_of(n), format!("{}", n));
    }
}

#[test]
fn characters_and_their_widths() {
    assert_eq!(chars_of("aү€😀"), vec!['a', 'ү', '€', '😀']);
    assert_eq!(width_of('a'), 1);
    assert_eq!(width_of('\u{7f}'), 1);
    assert_eq!(width_of('\u{80}'), 2);
    assert_eq!(width_of('ү'), 2);
    assert_eq!(width_of('\u{7ff}'), 2);
    assert_eq!(width_of('\u{800}'), 3);
    assert_eq!(width_of('€'), 3);
    assert_eq!(width_of('\u{ffff}'), 3);
    assert_eq!(width_of('\u{10000}'), 4);
    assert_eq!(width_of('😀'), 4);
    for c in ['a', 'ү', '€', '😀'] {
        assert_eq!(width_of(c), c.len_utf8());
    }
    assert_eq!(byte_len("aү€😀"), 10);
    assert_eq!(byte_len(""), 0);
}

#[test]
fn substrings_are_cut_by_character_index() {
    let chars = chars_of("сайн уу?");
    assert_eq!(substring(&chars, 0, 4), "сайн");
    assert_eq!(substring(&chars, 5, 8), "уу?");
    assert_eq!(substring(&chars, 3, 3), "");
    assert_eq!(substring(&chars, 0, 8), "сайн уу?");
}
