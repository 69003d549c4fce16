//! The supported languages, their codes, and the dispatch from a language
//! to its message tables.

use vstd::prelude::*;

use crate::i18n::keys::{ErrorKey, FooterKey, ReportKey, TitleKey};
use crate::i18n::keys::{error_key_order, footer_key_order, report_key_order, title_key_order};
use crate::i18n::locales::{en_us, ja_jp, zh_cn};

verus! {

/// A supported interface language.
#[derive(Debug, Clone, Copy, PartialEq, Eq, Structural)]
pub enum Lang {
    EnUS,
    ZhCN,
    JaJP,
}

/// The code of each language.
pub open spec fn lang_code(l: Lang) -> Seq<char> {
    match l {
        Lang::EnUS => "en-US"@,
        Lang::ZhCN => "zh-CN"@,
        Lang::JaJP => "ja-JP"@,
    }
}

/// The error message for a key in a language.
pub open spec fn error_message(lang: Lang, k: ErrorKey) -> Seq<char> {
    match lang {
        Lang::EnUS => en_us::error_message_en_us(k),
        Lang::ZhCN => zh_cn::error_message_zh_cn(k),
        Lang::JaJP => ja_jp::error_message_ja_jp(k),
    }
}

/// The title message for a key in a language.
pub open spec fn title_message(lang: Lang, k: TitleKey) -> Seq<char> {
    match lang {
        Lang::EnUS => en_us::title_message_en_us(k),
        Lang::ZhCN => zh_cn::title_message_zh_cn(k),
        Lang::JaJP => ja_jp::title_message_ja_jp(k),
    }
}

/// The footer message for a key in a language.
pub open spec fn footer_message(lang: Lang, k: FooterKey) -> Seq<char> {
    match lang {
        Lang::EnUS => en_us::footer_message_en_us(k),
        Lang::ZhCN => zh_cn::footer_message_zh_cn(k),
        Lang::JaJP => ja_jp::footer_message_ja_jp(k),
    }
}

/// The report message for a key in a language.
pub open spec fn report_message(lang: Lang, k: ReportKey) -> Seq<char> {
    match lang {
        Lang::EnUS => en_us::report_message_en_us(k),
        Lang::ZhCN => zh_cn::report_message_zh_cn(k),
        Lang::JaJP => ja_jp::report_message_ja_jp(k),
    }
}

impl Lang {
    /// The language code string.
    pub fn code(&self) -> (r: &'static str)
        ensures
            r@ == lang_code(*self),
    {
        match self {
            Lang::EnUS => "en-US",
            Lang::ZhCN => "zh-CN",
            Lang::JaJP => "ja-JP",
        }
    }

    /// The table of localized error messages for this language.
    pub fn error(self) -> (r: Vec<(ErrorKey, &'static str)>)
        ensures
            r@.map_values(|p: (ErrorKey, &'static str)| p.0) == error_key_order(),
            forall|j: int| 0 <= j < r@.len() ==> (#[trigger] r@[j]).1@ == error_message(self, r@[j].0),
    {
        match self {
            Lang::EnUS => en_us::error_en_us(),
            Lang::ZhCN => zh_cn::error_zh_cn(),
            Lang::JaJP => ja_jp::error_ja_jp(),
        }
    }

    /// The table of localized section titles for this language.
    pub fn title(self) -> (r: Vec<(TitleKey, &'static str)>)
        ensures
            r@.map_values(|p: (TitleKey, &'static str)| p.0) == title_key_order(),
            forall|j: int| 0 <= j < r@.len() ==> (#[trigger] r@[j]).1@ == title_message(self, r@[j].0),
    {
        match self {
            Lang::EnUS => en_us::title_en_us(),
            Lang::ZhCN => zh_cn::title_zh_cn(),
            Lang::JaJP => ja_jp::title_ja_jp(),
        }
    }

    /// The table of localized footers and legends for this language.
    pub fn footer(self) -> (r: Vec<(FooterKey, &'static str)>)
        ensures
            r@.map_values(|p: (FooterKey, &'static str)| p.0) == footer_key_order(),
            forall|j: int| 0 <= j < r@.len() ==> (#[trigger] r@[j]).1@ == footer_message(self, r@[j].0),
    {
        match self {
            Lang::EnUS => en_us::footer_en_us(),
            Lang::ZhCN => zh_cn::footer_zh_cn(),
            Lang::JaJP => ja_jp::footer_ja_jp(),
        }
    }

    /// The table of localized report lines for this language.
    pub fn report(self) -> (r: Vec<(ReportKey, &'static str)>)
        ensures
            r@.map_values(|p: (ReportKey, &'static str)| p.0) == report_key_order(),
            forall|j: int| 0 <= j < r@.len() ==> (#[trigger] r@[j]).1@ == report_message(self, r@[j].0),
    {
        match self {
            Lang::EnUS => en_us::report_en_us(),
            Lang::ZhCN => zh_cn::report_zh_cn(),
            Lang::JaJP => ja_jp::report_ja_jp(),
        }
    }
}

} // verus!
