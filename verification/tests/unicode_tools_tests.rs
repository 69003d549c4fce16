use runefix_cli::atoms::{
    display_char, display_unicode_hint, is_combining_mark, is_emoji_vs, is_hair_component,
    is_skin_tone_modifier, is_zwj, measured_width, str_to_unicode_sequence,
};
use runefix_cli::measure::{atoms_total_width, max_or, widths_of};
use runefix_cli::oracle::{
    atoms, graphemes, split_by_width, truncate_by_width, unicode_version, width_with_policy,
};
use runefix_cli::policy::{describe_policy, parse_policy, policy_eq, PolicyKind};
use runefix_cli::term::bold;

#[test]
fn zero_width_marker_classification() {
    assert!(is_zwj("\u{200D}"));
    assert!(!is_zwj("a"));
    assert!(is_emoji_vs("\u{FE0F}"));
    assert!(is_combining_mark("\u{20E3}"));
    assert!(is_skin_tone_modifier("\u{1F3FB}"));
    assert!(is_skin_tone_modifier("\u{1F3FF}"));
    assert!(!is_skin_tone_modifier("\u{1F3FA}"));
    assert!(is_hair_component("\u{1F9B0}"));
    assert!(!is_hair_component("\u{1F9B4}"));
}

#[test]
fn display_char_falls_back_for_markers() {
    assert_eq!(display_char("\u{200D}"), "''");
    assert_eq!(display_char("a"), "a");
}

#[test]
fn measured_widths() {
    assert_eq!(measured_width("\u{200D}"), 0);
    assert_eq!(measured_width("\u{FE0F}"), 0);
    assert_eq!(measured_width("\u{1F3FB}"), 2);
    assert_eq!(measured_width("\u{1F9B1}"), 2);
    assert_eq!(measured_width("a"), 1);
    assert_eq!(measured_width("你"), 2);
}

#[test]
fn unicode_sequence_labels() {
    assert_eq!(str_to_unicode_sequence("ab"), "U+0061 U+0062");
    assert_eq!(str_to_unicode_sequence("🦀"), "U+1F980");
    assert_eq!(str_to_unicode_sequence(""), "");
}

#[test]
fn unicode_hint_annotates_markers() {
    assert_eq!(display_unicode_hint("\u{200D}"), "U+200D  (ZWJ)");
    assert_eq!(display_unicode_hint("\u{FE0F}"), "U+FE0F  (Emoji Variant)");
    assert_eq!(display_unicode_hint("\u{1F3FB}"), "U+1F3FB (Skin Tone)");
    assert_eq!(display_unicode_hint("a"), "U+0061");
}

#[test]
fn graphemes_cluster_combining_marks() {
    assert_eq!(graphemes("e\u{301}x"), vec!["e\u{301}".to_string(), "x".to_string()]);
    assert_eq!(graphemes(""), Vec::<String>::new());
}

#[test]
fn atoms_split_emoji_sequences() {
    assert_eq!(
        atoms("👩\u{200D}❤"),
        vec!["👩".to_string(), "\u{200D}".to_string(), "❤".to_string()]
    );
}

#[test]
fn widths_depend_on_policy() {
    assert_eq!(width_with_policy("你", PolicyKind::Terminal), 2);
    assert_eq!(width_with_policy("你", PolicyKind::Compact), 1);
    assert_eq!(width_with_policy("😀", PolicyKind::Terminal), 2);
    assert_eq!(width_with_policy("😀", PolicyKind::Markdown), 1);
    assert_eq!(width_with_policy("abc", PolicyKind::Terminal), 3);
    assert_eq!(width_with_policy("", PolicyKind::Terminal), 0);
}

#[test]
fn split_by_width_wraps_lines() {
    assert_eq!(
        split_by_width("Hello 👋 世界！", 5, PolicyKind::Terminal),
        vec!["Hello".to_string(), " 👋 ".to_string(), "世界".to_string(), "！".to_string()]
    );
}

#[test]
fn truncate_by_width_keeps_prefix() {
    assert_eq!(truncate_by_width("Hi 👋，世界", 6, PolicyKind::Terminal), "Hi 👋");
    assert_eq!(truncate_by_width("abc", 0, PolicyKind::Terminal), "");
}

#[test]
fn unicode_version_matches_build() {
    assert_eq!(unicode_version(), (16, 0, 0));
}

#[test]
fn policy_parsing_and_naming() {
    assert_eq!(parse_policy("terminal"), Some(PolicyKind::Terminal));
    assert_eq!(parse_policy("markdown"), Some(PolicyKind::Markdown));
    assert_eq!(parse_policy("compact"), Some(PolicyKind::Compact));
    assert_eq!(parse_policy("fancy"), None);
    assert_eq!(describe_policy(&PolicyKind::Markdown), "Markdown");
    assert!(policy_eq(&PolicyKind::Compact, &PolicyKind::Compact));
    assert!(!policy_eq(&PolicyKind::Compact, &PolicyKind::Terminal));
}

#[test]
fn widths_of_lists_each_item() {
    let items = vec!["你".to_string(), "a".to_string(), "😀".to_string()];
    assert_eq!(widths_of(&items, PolicyKind::Terminal), vec![2, 1, 2]);
    assert_eq!(widths_of(&items, PolicyKind::Compact), vec![1, 1, 1]);
}

#[test]
fn max_or_picks_largest() {
    assert_eq!(max_or(&vec![1, 3, 2], 7), 3);
    assert_eq!(max_or(&vec![], 7), 7);
}

#[test]
fn atoms_total_counts_markers_as_zero() {
    assert_eq!(atoms_total_width("你a"), 3);
    assert_eq!(atoms_total_width("\u{200D}"), 0);
    assert_eq!(atoms_total_width(""), 0);
}

#[test]
fn bold_wraps_in_ansi_codes() {
    assert_eq!(bold("x"), "\x1b[1mx\x1b[0m");
}
