use gemini_ui::text::{append_texts, chars_of, contains_text, ends_with_text, matches_at, text_le};

#[test]
fn characters_of_a_text() {
    assert_eq!(chars_of("héllo"), vec!['h', 'é', 'l', 'l', 'o']);
    assert!(chars_of("").is_empty());
}

#[test]
fn substring_search() {
    assert!(contains_text("Quota exceeded", "Quota exceeded"));
    assert!(contains_text("xx Quota exceeded yy", "Quota exceeded"));
    assert!(contains_text("abc", ""));
    assert!(contains_text("", ""));
    assert!(contains_text("aab", "ab"));
    assert!(contains_text("ünïcödé", "cöd"));
    assert!(!contains_text("", "a"));
    assert!(!contains_text("ab", "abc"));
    assert!(!contains_text("Quota exceede", "Quota exceeded"));
    assert!(!contains_text("quota exceeded", "Quota exceeded"));
    assert!(!contains_text("abab", "abb"));
}

#[test]
fn match_at_a_position() {
    let hay = chars_of("abcabc");
    assert!(matches_at(&hay, &chars_of("abc"), 0));
    assert!(matches_at(&hay, &chars_of("abc"), 3));
    assert!(!matches_at(&hay, &chars_of("abc"), 1));
    assert!(matches_at(&hay, &chars_of(""), 6));
}

#[test]
fn suffix_test() {
    assert!(ends_with_text("run.ps1", ".ps1"));
    assert!(ends_with_text(".ps1", ".ps1"));
    assert!(ends_with_text("x", ""));
    assert!(!ends_with_text("ps1", ".ps1"));
    assert!(!ends_with_text("run.ps1 ", ".ps1"));
    assert!(!ends_with_text("run.ps2", ".ps1"));
}

#[test]
fn dictionary_order() {
    assert!(text_le("", ""));
    assert!(text_le("", "a"));
    assert!(!text_le("a", ""));
    assert!(text_le("a", "a"));
    assert!(text_le("a", "b"));
    assert!(!text_le("b", "a"));
    assert!(text_le("ab", "abc"));
    assert!(!text_le("abc", "ab"));
    assert!(text_le("2024-05-01 10:00:01", "2024-05-01 10:00:02"));
    assert!(!text_le("2024-05-02 00:00:00", "2024-05-01 23:59:59"));
    assert!(text_le("t10", "t2"));
    assert!(text_le("z", "é"));
    for (a, b) in [("a", "b"), ("ab", "a"), ("é", "z"), ("", "x"), ("same", "same")] {
        assert_eq!(text_le(a, b), a <= b);
        assert_eq!(text_le(b, a), b <= a);
    }
}

#[test]
fn appending_copies() {
    let mut dst = vec!["a".to_string()];
    let src = vec!["b".to_string(), "c".to_string()];
    append_texts(&mut dst, &src);
    assert_eq!(dst, vec!["a".to_string(), "b".to_string(), "c".to_string()]);
    assert_eq!(src.len(), 2);
}
