use runefix_cli::config::{Config, Context};
use runefix_cli::i18n::keys::{ErrorKey, FooterKey, MessageKey, ReportKey, TitleKey};
use runefix_cli::i18n::lang::Lang;
use runefix_cli::i18n::utils::format_i18n;

#[test]
fn lang_codes() {
    assert_eq!(Lang::EnUS.code(), "en-US");
    assert_eq!(Lang::ZhCN.code(), "zh-CN");
    assert_eq!(Lang::JaJP.code(), "ja-JP");
}

#[test]
fn every_key_resolves_in_every_language() {
    for lang in [Lang::EnUS, Lang::ZhCN, Lang::JaJP] {
        assert_eq!(lang.error().len(), 11);
        assert_eq!(lang.title().len(), 8);
        assert_eq!(lang.footer().len(), 3);
        assert_eq!(lang.report().len(), 4);
        assert!(ErrorKey::SliceTrim.lookup(&lang).is_some());
        assert!(TitleKey::SlicePreview.lookup(&lang).is_some());
        assert!(FooterKey::SliceSummary.lookup(&lang).is_some());
        assert!(ReportKey::WidthDetail.lookup(&lang).is_some());
    }
}

#[test]
fn context_resolves_english_messages() {
    let ctx = Context { lang: Lang::EnUS };
    assert_eq!(ctx.t(ErrorKey::SliceFormat), "❌ slice format must be [start:end]");
    assert_eq!(ctx.t(TitleKey::SlicePreview), "✂️ Slice Preview");
    assert_eq!(ctx.t(FooterKey::SliceSummary), "Total units: {total}, Range: [{start}..{end}]");
}

#[test]
fn context_resolves_chinese_messages() {
    let ctx = Context { lang: Lang::ZhCN };
    assert_eq!(ctx.t(ErrorKey::SliceFormat), "❌ 切片格式必须是 [start:end]");
}

#[test]
fn format_fills_placeholders() {
    let msg = format_i18n(
        "Total units: {total}, Range: [{start}..{end}]",
        &[
            ("total", "5".to_string()),
            ("start", "1".to_string()),
            ("end", "3".to_string()),
        ],
    );
    assert_eq!(msg, "Total units: 5, Range: [1..3]");
}

#[test]
fn format_replaces_every_occurrence() {
    let msg = format_i18n("{x} and {x}", &[("x", "y".to_string())]);
    assert_eq!(msg, "y and y");
}

#[test]
fn format_leaves_unknown_placeholders() {
    let msg = format_i18n("{a} {b}", &[("a", "1".to_string())]);
    assert_eq!(msg, "1 {b}");
}

#[test]
fn parse_lang_reads_first_effective_assignment() {
    let content = "# a comment\n\nlang = \"zh-CN\"\nlang = \"en-US\"\n";
    assert_eq!(Config::parse_lang(content), Some(Lang::ZhCN));
}

#[test]
fn parse_lang_accepts_unquoted_and_padded_values() {
    assert_eq!(Config::parse_lang("  lang =  ja-JP  "), Some(Lang::JaJP));
    assert_eq!(Config::parse_lang("lang=en-US"), Some(Lang::EnUS));
}

#[test]
fn parse_lang_rejects_unknown_code() {
    assert_eq!(Config::parse_lang("lang = \"fr-FR\""), None);
    assert_eq!(Config::parse_lang(""), None);
    assert_eq!(Config::parse_lang("theme = dark"), None);
}

#[test]
fn config_falls_back_to_english() {
    assert_eq!(Config::from_content("").lang, Lang::EnUS);
    assert_eq!(Config::from_content("lang = \"zh-CN\"").lang, Lang::ZhCN);
}
