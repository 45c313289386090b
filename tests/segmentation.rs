use icu4x_text::icu_segmenter;
use icu4x_text::segmenter::{split_at_breaks, Segmenter, SegmenterError};
use icu4x_text::test_segmenter;

fn segments_of(text: &str) -> Vec<String> {
    let segmenter = Segmenter::new(None, None).unwrap();
    segmenter.segment(text.to_string()).to_array()
}

#[test]
fn hello_yields_five_segments() {
    let segmenter = Segmenter::new(None, None).unwrap();
    let seq = segmenter.segment("Hello".to_string());
    assert_eq!(seq.count(), 5);
    assert_eq!(seq.to_array(), vec!["H", "e", "l", "l", "o"]);
}

#[test]
fn empty_text_yields_empty_sequence() {
    let segmenter = Segmenter::new(None, None).unwrap();
    let seq = segmenter.segment(String::new());
    assert_eq!(seq.count(), 0);
    assert!(!seq.valid());
    assert_eq!(seq.current(), None);
}

#[test]
fn word_mode_is_rejected() {
    let err = Segmenter::new(Some("word".to_string()), None).unwrap_err();
    assert!(err.message().contains("Unsupported mode: word"));
    assert_eq!(err.message(), "Unsupported mode: word");
    match err {
        SegmenterError::UnsupportedMode(m) => assert_eq!(m, "word"),
    }
}

#[test]
fn explicit_grapheme_mode_is_accepted() {
    let segmenter = Segmenter::new(Some("grapheme".to_string()), Some("ja".to_string())).unwrap();
    assert_eq!(segmenter.get_mode(), "grapheme");
    assert_eq!(segmenter.get_locale(), Some("ja"));
}

#[test]
fn default_mode_and_absent_locale() {
    let segmenter = Segmenter::new(None, None).unwrap();
    assert_eq!(segmenter.get_mode(), "grapheme");
    assert_eq!(segmenter.get_locale(), None);
}

#[test]
fn mode_is_case_sensitive() {
    assert!(Segmenter::new(Some("Grapheme".to_string()), None).is_err());
    assert!(Segmenter::new(Some(String::new()), None).is_err());
}

#[test]
fn convenience_falls_back_on_invalid_mode() {
    let seq = icu_segmenter("ab".to_string(), Some("word".to_string()), Some("en".to_string()));
    assert_eq!(seq.count(), 2);
    assert_eq!(seq.to_array(), vec!["a", "b"]);
    assert!(seq.valid());
}

#[test]
fn convenience_with_defaults() {
    let seq = icu_segmenter("Hello".to_string(), None, None);
    assert_eq!(seq.to_array(), vec!["H", "e", "l", "l", "o"]);
    let empty = icu_segmenter(String::new(), None, None);
    assert_eq!(empty.count(), 0);
}

#[test]
fn combining_mark_stays_with_base() {
    assert_eq!(segments_of("e\u{301}x"), vec!["e\u{301}", "x"]);
}

#[test]
fn regional_indicator_pair_is_one_cluster() {
    assert_eq!(segments_of("\u{1F1EF}\u{1F1F5}\u{1F1FA}\u{1F1F8}"), vec!["\u{1F1EF}\u{1F1F5}", "\u{1F1FA}\u{1F1F8}"]);
}

#[test]
fn zwj_sequence_is_one_cluster() {
    let family = "\u{1F468}\u{200D}\u{1F469}\u{200D}\u{1F467}";
    assert_eq!(segments_of(family), vec![family]);
}

#[test]
fn devanagari_clusters() {
    assert_eq!(segments_of("मांजर"), vec!["मां", "ज", "र"]);
}

#[test]
fn multibyte_characters_split_per_cluster() {
    assert_eq!(segments_of("Hello 🗺"), vec!["H", "e", "l", "l", "o", " ", "🗺"]);
    assert_eq!(segments_of("字a"), vec!["字", "a"]);
}

#[test]
fn crlf_is_one_cluster() {
    assert_eq!(segments_of("a\r\nb"), vec!["a", "\r\n", "b"]);
}

#[test]
fn segments_join_back_to_the_text() {
    for text in ["", "Hello", "e\u{301}\u{1F1EF}\u{1F1F5}字 🗺", "a\r\nb\u{200D}c", "मांजर"] {
        let segments = segments_of(text);
        assert_eq!(segments.concat(), text);
        assert!(segments.iter().all(|s| !s.is_empty()));
    }
}

#[test]
fn fixed_two_segment_sequence() {
    let seq = test_segmenter();
    assert_eq!(seq.count(), 2);
    assert_eq!(seq.to_array(), vec!["Hello", "World"]);
    assert_eq!(seq.key(), 0);
}

#[test]
fn split_at_given_breaks() {
    assert_eq!(split_at_breaks("abc", &vec![0, 1, 1, 3]), vec!["a", "bc"]);
    assert_eq!(split_at_breaks("héllo", &vec![0, 1, 3, 6]), vec!["h", "é", "llo"]);
    assert_eq!(split_at_breaks("abc", &vec![2, 1]), vec!["ab"]);
    assert_eq!(split_at_breaks("abc", &vec![]), Vec::<String>::new());
    assert_eq!(split_at_breaks("", &vec![0]), Vec::<String>::new());
}
