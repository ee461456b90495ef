use meshelf::order::{join_texts, name_le, sort_names, sort_texts, text_precedes};
use meshelf::text::{
    begins_with, byte_length, char_bytes, chars_of, contains_char, contains_text, decimal_text,
    is_blank, is_control, is_whitespace, join2, join3, split, string_of, text_eq, to_ascii_lower,
    to_ascii_upper, truncate_utf8,
};

#[test]
fn character_classes_agree_with_the_standard_library() {
    let mut n: u32 = 0;
    while n <= 0x10ffff {
        if let Some(c) = char::from_u32(n) {
            assert_eq!(is_control(c), c.is_control(), "U+{n:04X}");
            assert_eq!(is_whitespace(c), c.is_whitespace(), "U+{n:04X}");
            assert_eq!(char_bytes(c), c.len_utf8(), "U+{n:04X}");
        }
        n += 1;
    }
}

const SAMPLES: [&str; 7] = ["", "a", "héllo", "日本語", "🙂 tail", " \t\u{a0}", "AbC-xyZ_9"];

#[test]
fn texts_are_measured_and_taken_apart() {
    for s in SAMPLES {
        assert_eq!(byte_length(s), s.len());
        assert_eq!(chars_of(s), s.chars().collect::<Vec<_>>());
        let chars = chars_of(s);
        assert_eq!(string_of(&chars, 0, chars.len()), s);
        assert_eq!(to_ascii_lower(s), s.to_ascii_lowercase());
        assert_eq!(to_ascii_upper(s), s.to_ascii_uppercase());
        assert_eq!(is_blank(s), s.trim().is_empty());
        for t in SAMPLES {
            assert_eq!(text_eq(s, t), s == t);
            assert_eq!(begins_with(s, t), s.starts_with(t));
            assert_eq!(contains_text(s, t), s.contains(t));
            assert_eq!(join2(s, t), format!("{s}{t}"));
            assert_eq!(join3(s, t, "!"), format!("{s}{t}!"));
            assert_eq!(text_precedes(s, t), s <= t);
        }
        for c in ['a', 'é', '🙂', '\t'] {
            assert_eq!(contains_char(s, c), s.contains(c));
        }
    }
    assert_eq!(string_of(&chars_of("abcdef"), 2, 4), "cd");
    assert!(contains_text("one two three", "two t"));
    assert!(!contains_text("one two three", "twot"));
}

#[test]
fn splitting_keeps_empty_parts() {
    for s in ["", "a", "a/b", "/a//b/", "//"] {
        assert_eq!(split(s, '/'), s.split('/').collect::<Vec<_>>());
    }
}

#[test]
fn numbers_are_written_in_decimal() {
    for n in [0u64, 7, 10, 1_048_576, u64::MAX] {
        assert_eq!(decimal_text(n), n.to_string());
    }
}

#[test]
fn truncation_stops_at_a_character() {
    assert_eq!(truncate_utf8("héllo", 2), "h");
    assert_eq!(truncate_utf8("héllo", 3), "hé");
    assert_eq!(truncate_utf8("héllo", 100), "héllo");
    assert_eq!(truncate_utf8("🙂", 3), "");
}

#[test]
fn names_are_sorted_by_their_bytes() {
    let names: Vec<Vec<u8>> = ["b", "a", "ab", "B", "é", "", "a"]
        .iter()
        .map(|name| name.as_bytes().to_vec())
        .collect();
    let mut expected = names.clone();
    expected.sort();
    assert_eq!(sort_names(&names), expected);
    assert!(name_le(&b"a".to_vec(), &b"a".to_vec()));
    assert!(!name_le(&b"b".to_vec(), &b"a".to_vec()));
    assert!(sort_names(&Vec::new()).is_empty());
}

#[test]
fn texts_are_sorted_with_or_without_regard_to_case() {
    let texts = || vec!["beta".to_owned(), "Alpha".to_owned(), "alpha2".to_owned(), "Beta".to_owned()];
    assert_eq!(sort_texts(texts(), false), ["Alpha", "Beta", "alpha2", "beta"]);
    assert_eq!(sort_texts(texts(), true), ["Alpha", "alpha2", "beta", "Beta"]);
}

#[test]
fn texts_are_joined() {
    let texts = vec!["a".to_owned(), "b".to_owned(), "c".to_owned()];
    assert_eq!(join_texts(&texts, ", "), "a, b, c");
    assert_eq!(join_texts(&Vec::new(), ", "), "");
}
