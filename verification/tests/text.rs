use qtm2::text::{
    char_is_white_space, digit_to_char, is_blank, push_decimal, push_hex16, push_joined,
    push_signed_decimal, sorts_before, str_eq,
};

fn decimal(n: u64) -> String {
    let mut out = String::new();
    push_decimal(&mut out, n);
    out
}

fn signed(n: i64) -> String {
    let mut out = String::new();
    push_signed_decimal(&mut out, n);
    out
}

fn hex(n: u64) -> String {
    let mut out = String::new();
    push_hex16(&mut out, n);
    out
}

#[test]
fn digits_are_lower_case() {
    let digits: String = (0..16).map(digit_to_char).collect();
    assert_eq!(digits, "0123456789abcdef");
}

#[test]
fn decimal_numerals_match_the_standard_ones() {
    for n in [0u64, 1, 9, 10, 11, 99, 100, 101, 255, 1000, 65535, 4294967296, u64::MAX - 1, u64::MAX] {
        assert_eq!(decimal(n), format!("{}", n));
    }
}

#[test]
fn decimal_is_appended_to_what_is_there() {
    let mut out = String::from("v");
    push_decimal(&mut out, 42);
    assert_eq!(out, "v42");
}

#[test]
fn signed_numerals_match_the_standard_ones() {
    for n in [0i64, 1, -1, 9, -9, 10, -10, 1698451200, -1698451200, i64::MAX, i64::MIN + 1, i64::MIN] {
        assert_eq!(signed(n), format!("{}", n));
    }
}

#[test]
fn hexadecimal_has_sixteen_digits() {
    assert_eq!(hex(0), "0000000000000000");
    assert_eq!(hex(1), "0000000000000001");
    assert_eq!(hex(0xabcdef), "0000000000abcdef");
    assert_eq!(hex(0x0123456789abcdef), "0123456789abcdef");
    assert_eq!(hex(u64::MAX), "ffffffffffffffff");
    for n in [7u64, 16, 255, 256, 0xdead_beef, 1 << 60, (1 << 63) + 5] {
        assert_eq!(hex(n), format!("{:016x}", n));
    }
}

#[test]
fn white_space_is_what_the_standard_library_says() {
    for code in 0u32..=0x10ffff {
        if let Some(c) = char::from_u32(code) {
            assert_eq!(char_is_white_space(c), c.is_whitespace(), "U+{:04X}", code);
        }
    }
}

#[test]
fn blank_text_is_text_that_trims_to_nothing() {
    for s in ["", " ", "\t\n\r", "\u{a0}\u{3000}", "a", " a ", "\n.\n", "\u{200b}", "  title"] {
        assert_eq!(is_blank(s), s.trim().is_empty(), "{:?}", s);
    }
    assert!(is_blank(""));
    assert!(is_blank(" \t\u{2003}"));
    assert!(!is_blank(" x "));
}

#[test]
fn text_order_is_that_of_strings() {
    let texts = ["", "A", "Amateur", "Anal", "B", "a", "ab", "abc", "b", "é", "日本", "\u{10000}"];
    for a in texts {
        for b in texts {
            assert_eq!(sorts_before(a, b), a < b, "{:?} {:?}", a, b);
        }
    }
}

#[test]
fn str_eq_compares_characters() {
    assert!(str_eq("", ""));
    assert!(str_eq("abc", "abc"));
    assert!(!str_eq("abc", "abd"));
    assert!(!str_eq("abc", "ab"));
}

#[test]
fn lines_are_joined_with_the_separator() {
    let join = |lines: &[&str], separator: &str| {
        let lines: Vec<String> = lines.iter().map(|l| l.to_string()).collect();
        let mut out = String::from(">");
        push_joined(&mut out, &lines, separator);
        out
    };
    assert_eq!(join(&[], "\n"), ">");
    assert_eq!(join(&["a"], "\n"), ">a");
    assert_eq!(join(&["a", "b"], "\n"), ">a\nb");
    assert_eq!(join(&["a", "", "c"], ", "), ">a, , c");
}
