use zappaw::chars::{is_control, is_whitespace, push_decimal, push_signed_decimal, trim};

#[test]
fn trimming_follows_unicode_white_space() {
    assert_eq!(trim("  hi \t\n"), "hi");
    assert_eq!(trim("\u{3000}hi\u{a0}"), "hi");
    assert_eq!(trim("\u{1c}x"), "\u{1c}x");
    assert_eq!(trim(""), "");
    assert_eq!(trim("   "), "");
}

#[test]
fn trimming_twice_changes_nothing() {
    for s in ["  a b  ", "\u{2003}x\u{2003}", "", "q"] {
        let once = trim(s);
        assert_eq!(trim(&once), once);
    }
}

#[test]
fn character_classes() {
    assert!(is_whitespace(' '));
    assert!(is_whitespace('\u{85}'));
    assert!(!is_whitespace('a'));
    assert!(is_control('\u{7}'));
    assert!(is_control('\u{9f}'));
    assert!(!is_control('é'));
    assert_eq!(is_whitespace('\u{200b}'), '\u{200b}'.is_whitespace());
}

#[test]
fn decimal_formatting() {
    let mut s = String::from("n=");
    push_decimal(&mut s, 0);
    assert_eq!(s, "n=0");
    let mut t = String::new();
    push_decimal(&mut t, 1234567890123);
    assert_eq!(t, "1234567890123");
    let mut u = String::new();
    push_signed_decimal(&mut u, -42);
    assert_eq!(u, "-42");
}
