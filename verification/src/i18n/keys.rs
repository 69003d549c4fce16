//! The message keys: one enum per message category, the fixed order in
//! which each table lists its keys, and the lookup trait shared by all
//! key types.

use vstd::prelude::*;

use crate::i18n::lang::{error_message, footer_message, report_message, title_message, Lang};

verus! {

/// Keys for localized error messages.
#[derive(Debug, Clone, Copy, PartialEq, Eq, Structural, Hash)]
pub enum ErrorKey {
    InputTextNoProvided,
    SliceTrim,
    SliceBrackets,
    SliceSpaces,
    SliceFormat,
    SliceParseSingle,
    SliceParseStart,
    SliceParseEnd,
    SliceExprFallback,
    SliceOutOfBounds,
    SliceWidthUnaligned,
}

/// The order in which every `ErrorKey` table lists its keys.
pub open spec fn error_key_order() -> Seq<ErrorKey> {
    seq![ErrorKey::InputTextNoProvided, ErrorKey::SliceTrim, ErrorKey::SliceBrackets, ErrorKey::SliceSpaces, ErrorKey::SliceFormat, ErrorKey::SliceParseSingle, ErrorKey::SliceParseStart, ErrorKey::SliceParseEnd, ErrorKey::SliceExprFallback, ErrorKey::SliceOutOfBounds, ErrorKey::SliceWidthUnaligned]
}

proof fn lemma_error_key_present(k: ErrorKey)
    ensures
        exists|j: int| 0 <= j < error_key_order().len() && error_key_order()[j] == k,
{
    match k {
        ErrorKey::InputTextNoProvided => assert(error_key_order()[0] == k),
        ErrorKey::SliceTrim => assert(error_key_order()[1] == k),
        ErrorKey::SliceBrackets => assert(error_key_order()[2] == k),
        ErrorKey::SliceSpaces => assert(error_key_order()[3] == k),
        ErrorKey::SliceFormat => assert(error_key_order()[4] == k),
        ErrorKey::SliceParseSingle => assert(error_key_order()[5] == k),
        ErrorKey::SliceParseStart => assert(error_key_order()[6] == k),
        ErrorKey::SliceParseEnd => assert(error_key_order()[7] == k),
        ErrorKey::SliceExprFallback => assert(error_key_order()[8] == k),
        ErrorKey::SliceOutOfBounds => assert(error_key_order()[9] == k),
        ErrorKey::SliceWidthUnaligned => assert(error_key_order()[10] == k),
    }
}

/// Keys for command titles and section headers.
#[derive(Debug, Clone, Copy, PartialEq, Eq, Structural, Hash)]
pub enum TitleKey {
    DisplayWidth,
    GraphemeClusters,
    SlicePreview,
    UnicodeInfo,
    TruncatedOutput,
    WidthPerChar,
    RunefixVersion,
    SplitLines,
}

/// The order in which every `TitleKey` table lists its keys.
pub open spec fn title_key_order() -> Seq<TitleKey> {
    seq![TitleKey::DisplayWidth, TitleKey::GraphemeClusters, TitleKey::SlicePreview, TitleKey::UnicodeInfo, TitleKey::TruncatedOutput, TitleKey::WidthPerChar, TitleKey::RunefixVersion, TitleKey::SplitLines]
}

proof fn lemma_title_key_present(k: TitleKey)
    ensures
        exists|j: int| 0 <= j < title_key_order().len() && title_key_order()[j] == k,
{
    match k {
        TitleKey::DisplayWidth => assert(title_key_order()[0] == k),
        TitleKey::GraphemeClusters => assert(title_key_order()[1] == k),
        TitleKey::SlicePreview => assert(title_key_order()[2] == k),
        TitleKey::UnicodeInfo => assert(title_key_order()[3] == k),
        TitleKey::TruncatedOutput => assert(title_key_order()[4] == k),
        TitleKey::WidthPerChar => assert(title_key_order()[5] == k),
        TitleKey::RunefixVersion => assert(title_key_order()[6] == k),
        TitleKey::SplitLines => assert(title_key_order()[7] == k),
    }
}

/// Keys for footers, legends and result annotations.
#[derive(Debug, Clone, Copy, PartialEq, Eq, Structural, Hash)]
pub enum FooterKey {
    AtomsDetail,
    LegendGlossary,
    SliceSummary,
}

/// The order in which every `FooterKey` table lists its keys.
pub open spec fn footer_key_order() -> Seq<FooterKey> {
    seq![FooterKey::AtomsDetail, FooterKey::LegendGlossary, FooterKey::SliceSummary]
}

proof fn lemma_footer_key_present(k: FooterKey)
    ensures
        exists|j: int| 0 <= j < footer_key_order().len() && footer_key_order()[j] == k,
{
    match k {
        FooterKey::AtomsDetail => assert(footer_key_order()[0] == k),
        FooterKey::LegendGlossary => assert(footer_key_order()[1] == k),
        FooterKey::SliceSummary => assert(footer_key_order()[2] == k),
    }
}

/// Keys for diagnostic report lines.
#[derive(Debug, Clone, Copy, PartialEq, Eq, Structural, Hash)]
pub enum ReportKey {
    WidthText,
    WidthPolicy,
    WidthDetail,
    SplitLine,
}

/// The order in which every `ReportKey` table lists its keys.
pub open spec fn report_key_order() -> Seq<ReportKey> {
    seq![ReportKey::WidthText, ReportKey::WidthPolicy, ReportKey::WidthDetail, ReportKey::SplitLine]
}

proof fn lemma_report_key_present(k: ReportKey)
    ensures
        exists|j: int| 0 <= j < report_key_order().len() && report_key_order()[j] == k,
{
    match k {
        ReportKey::WidthText => assert(report_key_order()[0] == k),
        ReportKey::WidthPolicy => assert(report_key_order()[1] == k),
        ReportKey::WidthDetail => assert(report_key_order()[2] == k),
        ReportKey::SplitLine => assert(report_key_order()[3] == k),
    }
}

/// A localizable message key: every key resolves to a message in every
/// language.
pub trait MessageKey {
    /// The message this key denotes in the given language.
    spec fn message_of(&self, lang: Lang) -> Seq<char>;

    /// Look up the message for this key; the lookup always succeeds.
    fn lookup(&self, lang: &Lang) -> (r: Option<String>)
        ensures
            r is Some,
            r->0@ == self.message_of(*lang),
    ;
}

impl MessageKey for ErrorKey {
    open spec fn message_of(&self, lang: Lang) -> Seq<char> {
        error_message(lang, *self)
    }

    fn lookup(&self, lang: &Lang) -> (r: Option<String>) {
        let table = lang.error();
        proof {
            lemma_error_key_present(*self);
        }
        let mut i: usize = 0;
        while i < table.len()
            invariant
                i <= table@.len(),
                table@.map_values(|p: (ErrorKey, &'static str)| p.0) == error_key_order(),
                forall|j: int|
                    0 <= j < table@.len() ==> (#[trigger] table@[j]).1@ == error_message(
                    *lang,
                    table@[j].0,
                ),
                forall|j: int| 0 <= j < i ==> (#[trigger] table@[j]).0 != *self,
            decreases table@.len() - i,
        {
            if table[i].0 == *self {
                return Some(table[i].1.to_owned());
            }
            i += 1;
        }
        proof {
            let j = choose|j: int| 0 <= j < error_key_order().len() && error_key_order()[j] == *self;
            assert(table@.map_values(|p: (ErrorKey, &'static str)| p.0)[j] == *self);
            assert(false);
        }
        None
    }
}

impl MessageKey for TitleKey {
    open spec fn message_of(&self, lang: Lang) -> Seq<char> {
        title_message(lang, *self)
    }

    fn lookup(&self, lang: &Lang) -> (r: Option<String>) {
        let table = lang.title();
        proof {
            lemma_title_key_present(*self);
        }
        let mut i: usize = 0;
        while i < table.len()
            invariant
                i <= table@.len(),
                table@.map_values(|p: (TitleKey, &'static str)| p.0) == title_key_order(),
                forall|j: int|
                    0 <= j < table@.len() ==> (#[trigger] table@[j]).1@ == title_message(
                    *lang,
                    table@[j].0,
                ),
                forall|j: int| 0 <= j < i ==> (#[trigger] table@[j]).0 != *self,
            decreases table@.len() - i,
        {
            if table[i].0 == *self {
                return Some(table[i].1.to_owned());
            }
            i += 1;
        }
        proof {
            let j = choose|j: int| 0 <= j < title_key_order().len() && title_key_order()[j] == *self;
            assert(table@.map_values(|p: (TitleKey, &'static str)| p.0)[j] == *self);
            assert(false);
        }
        None
    }
}

impl MessageKey for FooterKey {
    open spec fn message_of(&self, lang: Lang) -> Seq<char> {
        footer_message(lang, *self)
    }

    fn lookup(&self, lang: &Lang) -> (r: Option<String>) {
        let table = lang.footer();
        proof {
            lemma_footer_key_present(*self);
        }
        let mut i: usize = 0;
        while i < table.len()
            invariant
                i <= table@.len(),
                table@.map_values(|p: (FooterKey, &'static str)| p.0) == footer_key_order(),
                forall|j: int|
                    0 <= j < table@.len() ==> (#[trigger] table@[j]).1@ == footer_message(
                    *lang,
                    table@[j].0,
                ),
                forall|j: int| 0 <= j < i ==> (#[trigger] table@[j]).0 != *self,
            decreases table@.len() - i,
        {
            if table[i].0 == *self {
                return Some(table[i].1.to_owned());
            }
            i += 1;
        }
        proof {
            let j = choose|j: int| 0 <= j < footer_key_order().len() && footer_key_order()[j] == *self;
            assert(table@.map_values(|p: (FooterKey, &'static str)| p.0)[j] == *self);
            assert(false);
        }
        None
    }
}

impl MessageKey for ReportKey {
    open spec fn message_of(&self, lang: Lang) -> Seq<char> {
        report_message(lang, *self)
    }

    fn lookup(&self, lang: &Lang) -> (r: Option<String>) {
        let table = lang.report();
        proof {
            lemma_report_key_present(*self);
        }
        let mut i: usize = 0;
        while i < table.len()
            invariant
                i <= table@.len(),
                table@.map_values(|p: (ReportKey, &'static str)| p.0) == report_key_order(),
                forall|j: int|
                    0 <= j < table@.len() ==> (#[trigger] table@[j]).1@ == report_message(
                    *lang,
                    table@[j].0,
                ),
                forall|j: int| 0 <= j < i ==> (#[trigger] table@[j]).0 != *self,
            decreases table@.len() - i,
        {
            if table[i].0 == *self {
                return Some(table[i].1.to_owned());
            }
            i += 1;
        }
        proof {
            let j = choose|j: int| 0 <= j < report_key_order().len() && report_key_order()[j] == *self;
            assert(table@.map_values(|p: (ReportKey, &'static str)| p.0)[j] == *self);
            assert(false);
        }
        None
    }
}

} // verus!
