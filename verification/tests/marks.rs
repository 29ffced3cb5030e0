use markdown_files::marks::{is_utf16be_marked, is_utf16le_marked, strip_leading_mark, MARK};

#[test]
fn mark_is_u_feff() {
    assert_eq!(MARK, '\u{feff}');
}

#[test]
fn strip_removes_a_leading_mark() {
    assert_eq!(strip_leading_mark("\u{feff}abc".to_string()), "abc");
}

#[test]
fn strip_removes_only_one_mark() {
    assert_eq!(strip_leading_mark("\u{feff}\u{feff}a".to_string()), "\u{feff}a");
}

#[test]
fn strip_leaves_text_without_mark() {
    assert_eq!(strip_leading_mark("abc".to_string()), "abc");
    assert_eq!(strip_leading_mark(String::new()), "");
}

#[test]
fn strip_leaves_a_mark_that_is_not_first() {
    assert_eq!(strip_leading_mark("a\u{feff}".to_string()), "a\u{feff}");
}

#[test]
fn strip_of_a_lone_mark_is_empty() {
    assert_eq!(strip_leading_mark("\u{feff}".to_string()), "");
}

#[test]
fn utf16le_mark_is_ff_fe() {
    assert!(is_utf16le_marked(&[0xFF, 0xFE]));
    assert!(is_utf16le_marked(&[0xFF, 0xFE, 0x41, 0x00]));
    assert!(!is_utf16le_marked(&[0xFE, 0xFF]));
    assert!(!is_utf16le_marked(&[0xFF]));
    assert!(!is_utf16le_marked(&[]));
    assert!(!is_utf16le_marked(&[0x41, 0xFF, 0xFE]));
}

#[test]
fn utf16be_mark_is_fe_ff() {
    assert!(is_utf16be_marked(&[0xFE, 0xFF]));
    assert!(is_utf16be_marked(&[0xFE, 0xFF, 0x00, 0x41]));
    assert!(!is_utf16be_marked(&[0xFF, 0xFE]));
    assert!(!is_utf16be_marked(&[0xFE]));
    assert!(!is_utf16be_marked(&[]));
}
