use haul::text::{
    chars_of, find, push_decimal, push_integer, remove_all, same_text, slice, split_at_each,
    text_of, trim, white_space,
};

fn chars(text: &str) -> Vec<char> {
    text.chars().collect()
}

#[test]
fn chars_and_text_are_inverse() {
    let text = "a ─ b\n";
    assert_eq!(chars_of(text), chars(text));
    assert_eq!(text_of(&chars(text)), text);
    assert_eq!(text_of(&Vec::new()), "");
}

#[test]
fn same_text_compares_characters() {
    assert!(same_text("ui", "ui"));
    assert!(!same_text("ui", "UI"));
    assert!(!same_text("ui", "ui "));
    assert!(same_text("", ""));
}

#[test]
fn white_space_is_the_unicode_property() {
    let mut code: u32 = 0;
    while code <= 0x10FFFF {
        if let Some(c) = char::from_u32(code) {
            assert_eq!(white_space(c), c.is_whitespace(), "U+{:04X}", code);
        }
        code += 1;
    }
}

#[test]
fn trim_removes_white_space_at_both_ends() {
    assert_eq!(trim(&chars("  a b \t\r")), chars("a b"));
    assert_eq!(trim(&chars("\u{3000}x\u{a0}")), chars("x"));
    assert_eq!(trim(&chars(" \n ")), chars(""));
    assert_eq!(trim(&chars("")), chars(""));
    assert_eq!(trim(&chars("ab")), chars("ab"));
}

#[test]
fn trim_agrees_with_std() {
    for text in ["", " ", "a", " a", "a ", "  = ", "\t{ \r", " a  b ", "\u{2003}é \u{85}"] {
        assert_eq!(text_of(&trim(&chars(text))), text.trim());
    }
}

#[test]
fn slice_takes_a_range() {
    assert_eq!(slice(&chars("abcdef"), 2, 4), chars("cd"));
    assert_eq!(slice(&chars("abcdef"), 3, 3), chars(""));
    assert_eq!(slice(&chars("abcdef"), 0, 6), chars("abcdef"));
}

#[test]
fn find_gives_the_first_position_or_the_length() {
    assert_eq!(find(&chars("a=b=c"), '='), 1);
    assert_eq!(find(&chars("=b"), '='), 0);
    assert_eq!(find(&chars("abc"), '='), 3);
    assert_eq!(find(&chars(""), '='), 0);
}

#[test]
fn remove_all_takes_out_every_occurrence() {
    assert_eq!(remove_all(&chars("u{i {"), '{'), chars("ui "));
    assert_eq!(remove_all(&chars("{{"), '{'), chars(""));
    assert_eq!(remove_all(&chars("abc"), '{'), chars("abc"));
}

#[test]
fn split_gives_one_piece_more_than_separators() {
    assert_eq!(split_at_each(&chars("d/m/y"), '/'), vec![chars("d"), chars("m"), chars("y")]);
    assert_eq!(split_at_each(&chars(""), '/'), vec![chars("")]);
    assert_eq!(split_at_each(&chars("/"), '/'), vec![chars(""), chars("")]);
    assert_eq!(split_at_each(&chars("a//b/"), '/'), vec![
        chars("a"),
        chars(""),
        chars("b"),
        chars("")
    ]);
}

#[test]
fn split_agrees_with_std() {
    for text in ["", "/", "d/m/y", "//", "a/", "/a", "abc", "a/b//c/"] {
        let expected: Vec<Vec<char>> = text.split('/').map(chars).collect();
        assert_eq!(split_at_each(&chars(text), '/'), expected);
    }
}

#[test]
fn decimal_numerals() {
    for n in [0u64, 7, 9, 10, 11, 99, 100, 12345, u64::MAX] {
        let mut out = String::from("n=");
        push_decimal(&mut out, n);
        assert_eq!(out, format!("n={}", n));
    }
}

#[test]
fn integer_numerals() {
    for n in [0i64, 5, -5, 10, -10, 42, i64::MAX, i64::MIN, i64::MIN + 1] {
        let mut out = String::new();
        push_integer(&mut out, n);
        assert_eq!(out, format!("{}", n));
    }
}
