use presto::text::{chars_of, decimal_string, same_text, text_le_exec};

#[test]
fn characters_of_a_string() {
    assert_eq!(chars_of(""), Vec::<char>::new());
    assert_eq!(chars_of("a\u{e9}\u{1F319}"), vec!['a', '\u{e9}', '\u{1F319}']);
}

#[test]
fn same_text_compares_contents() {
    assert!(same_text("focus", "focus"));
    assert!(!same_text("focus", "Focus"));
    assert!(!same_text("focus", "focus "));
    assert!(same_text("", ""));
}

#[test]
fn numbers_are_written_in_decimal() {
    assert_eq!(decimal_string(0), "0");
    assert_eq!(decimal_string(7), "7");
    assert_eq!(decimal_string(10), "10");
    assert_eq!(decimal_string(1234567890), "1234567890");
    assert_eq!(decimal_string(u64::MAX), "18446744073709551615");
    for n in [9u64, 99, 100, 101, 1_000_000, 4_294_967_295, 4_294_967_296] {
        assert_eq!(decimal_string(n), n.to_string());
    }
}

#[test]
fn string_order_is_that_of_std() {
    let samples = [
        "", "a", "A", "aa", "ab", "b", "ba", "Wed Oct 28 2026", "Wed Oct 29 2026",
        "Mon Oct 26 2026", "\u{e9}", "\u{7f}", "\u{80}", "\u{7ff}", "\u{800}", "\u{ffff}",
        "\u{10000}", "\u{1F319}", "z\u{1F319}", "\u{1F319}z",
    ];
    for a in samples {
        for b in samples {
            assert_eq!(text_le_exec(a, b), a <= b, "{:?} {:?}", a, b);
        }
    }
}
