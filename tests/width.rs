use icu4x_text::width::{
    calculate_display_width, eaw_width, has_east_asian_lowercase_prefix, is_east_asian_locale,
    WidthClass,
};

fn hint(s: &str) -> Option<String> {
    Some(s.to_string())
}

#[test]
fn empty_input_gives_sentinel() {
    assert_eq!(eaw_width(String::new(), None), -1);
    assert_eq!(eaw_width(String::new(), hint("ja")), -1);
}

#[test]
fn narrow_and_wide_characters() {
    assert_eq!(eaw_width("A".to_string(), None), 1);
    assert_eq!(eaw_width("字".to_string(), None), 2);
    assert_eq!(eaw_width("Ａ".to_string(), None), 2);
    assert_eq!(eaw_width("ｱ".to_string(), None), 1);
    assert_eq!(eaw_width("ア".to_string(), None), 2);
}

#[test]
fn ambiguous_character_depends_on_locale() {
    assert_eq!(eaw_width("α".to_string(), hint("ja")), 2);
    assert_eq!(eaw_width("α".to_string(), hint("en")), 1);
    assert_eq!(eaw_width("α".to_string(), None), 1);
    assert_eq!(eaw_width("°".to_string(), hint("zh-Hant")), 2);
    assert_eq!(eaw_width("°".to_string(), hint("KO")), 2);
}

#[test]
fn non_ambiguous_width_ignores_locale() {
    for c in ["A", "字", "ｱ", " "] {
        let w = eaw_width(c.to_string(), None);
        assert_eq!(eaw_width(c.to_string(), hint("ja")), w);
        assert_eq!(eaw_width(c.to_string(), hint("en")), w);
    }
}

#[test]
fn only_the_first_character_counts() {
    assert_eq!(eaw_width("字A".to_string(), None), 2);
    assert_eq!(eaw_width("A字".to_string(), None), 1);
}

#[test]
fn width_by_class() {
    assert_eq!(calculate_display_width(WidthClass::Fullwidth, None), 2);
    assert_eq!(calculate_display_width(WidthClass::Wide, hint("en")), 2);
    assert_eq!(calculate_display_width(WidthClass::Halfwidth, hint("ja")), 1);
    assert_eq!(calculate_display_width(WidthClass::Narrow, None), 1);
    assert_eq!(calculate_display_width(WidthClass::Neutral, hint("ja")), 1);
    assert_eq!(calculate_display_width(WidthClass::Unrecognized, hint("ja")), 1);
    assert_eq!(calculate_display_width(WidthClass::Ambiguous, hint("ja")), 2);
    assert_eq!(calculate_display_width(WidthClass::Ambiguous, hint("fr")), 1);
    assert_eq!(calculate_display_width(WidthClass::Ambiguous, None), 1);
}

#[test]
fn east_asian_locales() {
    assert!(is_east_asian_locale(hint("ja")));
    assert!(is_east_asian_locale(hint("JA-JP")));
    assert!(is_east_asian_locale(hint("Zh")));
    assert!(is_east_asian_locale(hint("ko_KR")));
    assert!(!is_east_asian_locale(hint("en")));
    assert!(!is_east_asian_locale(hint("j")));
    assert!(!is_east_asian_locale(hint("")));
    assert!(!is_east_asian_locale(None));
}

#[test]
fn lowercase_prefix_check() {
    assert!(has_east_asian_lowercase_prefix("ja"));
    assert!(has_east_asian_lowercase_prefix("zh-cn"));
    assert!(!has_east_asian_lowercase_prefix("JA"));
    assert!(!has_east_asian_lowercase_prefix("k"));
    assert!(!has_east_asian_lowercase_prefix("aj"));
}
