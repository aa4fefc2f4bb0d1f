use herdr::idset::IdSet;
use herdr::lines::{between, find_from, same_hyphenated, split_lines, trim_end, trim_start};
use herdr::path::join;
use herdr::text::{
    bytes_in, decimal_text, eq_ignore_ascii_case, first_bytes, hexadecimal_text, insert_sorted,
    is_text_le, labelled, pad, position_of, repeat, same_text, strip_prefix, wide_decimal_text,
};

#[test]
fn numbers_are_written_out() {
    assert_eq!(decimal_text(0), "0");
    assert_eq!(decimal_text(u64::MAX), u64::MAX.to_string());
    assert_eq!(wide_decimal_text(u128::MAX), u128::MAX.to_string());
    assert_eq!(hexadecimal_text(0), "0");
    assert_eq!(hexadecimal_text(0xdead_beef), "deadbeef");
}

#[test]
fn texts_are_compared() {
    assert!(same_text("a", "a"));
    assert!(!same_text("a", "A"));
    assert!(eq_ignore_ascii_case("JpEg", "jpeg"));
    assert!(!eq_ignore_ascii_case("jpeg", "jpg"));
    assert!(is_text_le("api", "work"));
    assert!(is_text_le("work", "work"));
    assert!(!is_text_le("work", "api"));
    assert!(is_text_le("ab", "abc"));
    assert_eq!(strip_prefix("--session=api", "--session="), Some("api"));
    assert_eq!(strip_prefix("--session", "--session="), None);
}

#[test]
fn texts_are_kept_in_order() {
    let mut texts: Vec<String> = vec![];
    for text in ["b", "c", "a"] {
        insert_sorted(&mut texts, text.to_string());
    }
    assert_eq!(texts, vec!["a", "b", "c"]);
    assert_eq!(position_of(&texts, "c"), Some(2));
    assert_eq!(position_of(&texts, "d"), None);
}

#[test]
fn texts_are_put_together() {
    assert_eq!(labelled("code", "words"), "code: words");
    assert_eq!(repeat("ab", 3), "ababab");
    assert_eq!(pad("ab", 4), "ab  ");
    assert_eq!(pad("abcd", 2), "abcd");
    assert_eq!(join("/home", "herdr"), "/home/herdr");
    assert_eq!(join("/home/", "herdr"), "/home/herdr");
}

#[test]
fn texts_are_measured_in_bytes() {
    assert_eq!(bytes_in("aé"), 3);
    assert_eq!(first_bytes("aéb", 3), "aé");
}

#[test]
fn texts_are_cut_into_lines() {
    assert_eq!(split_lines("a\nb\n"), "a\nb\n".lines().collect::<Vec<_>>());
    assert_eq!(split_lines("a\r\n\nb"), "a\r\n\nb".lines().collect::<Vec<_>>());
    assert_eq!(split_lines(""), Vec::<String>::new());
    assert_eq!(trim_end("a \u{2003}"), "a");
    assert_eq!(trim_start("\t a "), "a ");
    assert_eq!(find_from("a`b`", 2, '`'), Some(3));
    assert_eq!(find_from("a`b", 2, '`'), None);
    assert_eq!(between("abcd", 1, 3), "bc");
}

#[test]
fn blanks_and_underscores_count_as_hyphens() {
    assert!(same_hyphenated("rosé pine", "rosé-pine"));
    assert!(same_hyphenated("rosé_pine", "rosé pine"));
    assert!(!same_hyphenated("a b", "ab"));
}

#[test]
fn a_set_of_ids_holds_each_once() {
    let mut ids = IdSet::new();
    ids.insert("a".to_string());
    ids.insert("a".to_string());
    ids.insert("b".to_string());
    assert_eq!(ids.len(), 2);
    assert!(ids.contains("a"));
    ids.remove("a");
    assert!(!ids.contains("a"));
    ids.clear();
    assert!(ids.is_empty());
}

#[test]
fn white_space_is_what_unicode_lists() {
    let listed = |c: char| {
        matches!(
            c as u32,
            0x09..=0x0d | 0x20 | 0x85 | 0xa0 | 0x1680 | 0x2000..=0x200a | 0x2028 | 0x2029 | 0x202f
                | 0x205f | 0x3000
        )
    };
    for c in '\0'..=char::MAX {
        assert_eq!(c.is_whitespace(), listed(c), "{:x}", c as u32);
    }
    assert_eq!(trim_end("a\u{3000}\u{85}"), "a");
    assert_eq!(trim_end("a\u{200b}"), "a\u{200b}");
}
