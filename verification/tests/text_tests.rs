use wryneck::text::{
    digit_str, i32_to_string, join_strings, push_decimal, push_signed_decimal, str_eq,
    usize_to_string,
};

#[test]
fn digits_are_written_as_characters() {
    assert_eq!(digit_str(0), "0");
    assert_eq!(digit_str(5), "5");
    assert_eq!(digit_str(9), "9");
}

#[test]
fn decimal_numerals_have_no_leading_zeros() {
    let mut out = String::from("n=");
    push_decimal(&mut out, 0);
    assert_eq!(out, "n=0");
    let mut out = String::new();
    push_decimal(&mut out, 10);
    assert_eq!(out, "10");
    let mut out = String::new();
    push_decimal(&mut out, 9_007_199_254_740_993);
    assert_eq!(out, "9007199254740993");
    let mut out = String::new();
    push_decimal(&mut out, u128::MAX);
    assert_eq!(out, u128::MAX.to_string());
}

#[test]
fn signed_numerals_carry_a_minus_sign() {
    let mut out = String::new();
    push_signed_decimal(&mut out, -1);
    assert_eq!(out, "-1");
    assert_eq!(i32_to_string(0), "0");
    assert_eq!(i32_to_string(420), "420");
    assert_eq!(i32_to_string(-69), "-69");
    assert_eq!(i32_to_string(i32::MAX), "2147483647");
    assert_eq!(i32_to_string(i32::MIN), "-2147483648");
}

#[test]
fn numerals_agree_with_the_standard_library() {
    for i in [-1000, -10, -9, -1, 0, 1, 9, 10, 11, 99, 100, 101, 65535, 1_000_000] {
        assert_eq!(i32_to_string(i), i.to_string());
    }
    for n in [0usize, 7, 10, 19, 20, 99, 100, 12345, usize::MAX] {
        assert_eq!(usize_to_string(n), n.to_string());
    }
}

#[test]
fn strings_are_equal_when_their_characters_are() {
    assert!(str_eq("hatch", "hatch"));
    assert!(str_eq("", ""));
    assert!(!str_eq("hatch", "hatch "));
    assert!(!str_eq("hatch", "Hatch"));
    assert!(!str_eq("hatch", "hatc"));
    assert!(!str_eq("", "a"));
    assert!(str_eq("\u{1F95A}", "\u{1F95A}"));
    assert!(!str_eq("\u{1F95A}", "\u{1F423}"));
}

#[test]
fn joining_puts_the_separator_between_neighbours() {
    assert_eq!(join_strings(&vec![], ", "), "");
    assert_eq!(join_strings(&vec![String::from("a")], ", "), "a");
    assert_eq!(
        join_strings(&vec![String::from("a"), String::from("b"), String::from("c")], " or "),
        "a or b or c"
    );
    assert_eq!(join_strings(&vec![String::new(), String::new()], ","), ",");
}
