//! English (en-US) messages, as message tables and as the spec-level
//! message functions the tables are proved against.

use vstd::prelude::*;

use crate::i18n::keys::{ErrorKey, FooterKey, ReportKey, TitleKey};
use crate::i18n::keys::{error_key_order, footer_key_order, report_key_order, title_key_order};

verus! {

/// The English (en-US) message for each `ErrorKey`.
pub open spec fn error_message_en_us(k: ErrorKey) -> Seq<char> {
    match k {
        ErrorKey::InputTextNoProvided => "❗ Error: no input text provided. Use --help to see usage."@,
        ErrorKey::SliceTrim => "⚠️ slice expression must not have leading/trailing spaces"@,
        ErrorKey::SliceBrackets => "❌ slice must be in [start:end] format (with brackets)"@,
        ErrorKey::SliceSpaces => "⚠️ slice range must not contain spaces"@,
        ErrorKey::SliceFormat => "❌ slice format must be [start:end]"@,
        ErrorKey::SliceParseSingle => "❌ slice index must be a non-negative integer (e.g. [0], [3])"@,
        ErrorKey::SliceParseStart => "❌ start index must be a non-negative integer"@,
        ErrorKey::SliceParseEnd => "❌ end index must be a non-negative integer"@,
        ErrorKey::SliceExprFallback => "❌ failed to parse slice expression"@,
        ErrorKey::SliceOutOfBounds => "❌ slice range out of bounds (len = {len})"@,
        ErrorKey::SliceWidthUnaligned => "❌ width slice must align with visual cell boundaries\nvalid boundaries: {boundaries}"@,
    }
}

/// The English (en-US) `ErrorKey` message table.
pub fn error_en_us() -> (r: Vec<(ErrorKey, &'static str)>)
    ensures
        r@.map_values(|p: (ErrorKey, &'static str)| p.0) == error_key_order(),
        forall|j: int| 0 <= j < r@.len() ==> (#[trigger] r@[j]).1@ == error_message_en_us(r@[j].0),
{
    let mut r: Vec<(ErrorKey, &'static str)> = Vec::new();
    r.push((ErrorKey::InputTextNoProvided, "❗ Error: no input text provided. Use --help to see usage."));
    r.push((ErrorKey::SliceTrim, "⚠️ slice expression must not have leading/trailing spaces"));
    r.push((ErrorKey::SliceBrackets, "❌ slice must be in [start:end] format (with brackets)"));
    r.push((ErrorKey::SliceSpaces, "⚠️ slice range must not contain spaces"));
    r.push((ErrorKey::SliceFormat, "❌ slice format must be [start:end]"));
    r.push((ErrorKey::SliceParseSingle, "❌ slice index must be a non-negative integer (e.g. [0], [3])"));
    r.push((ErrorKey::SliceParseStart, "❌ start index must be a non-negative integer"));
    r.push((ErrorKey::SliceParseEnd, "❌ end index must be a non-negative integer"));
    r.push((ErrorKey::SliceExprFallback, "❌ failed to parse slice expression"));
    r.push((ErrorKey::SliceOutOfBounds, "❌ slice range out of bounds (len = {len})"));
    r.push((ErrorKey::SliceWidthUnaligned, "❌ width slice must align with visual cell boundaries\nvalid boundaries: {boundaries}"));
    proof {
        assert(r@.map_values(|p: (ErrorKey, &'static str)| p.0) =~= error_key_order());
    }
    r
}

/// The English (en-US) message for each `TitleKey`.
pub open spec fn title_message_en_us(k: TitleKey) -> Seq<char> {
    match k {
        TitleKey::DisplayWidth => "📏 Display Width"@,
        TitleKey::GraphemeClusters => "🧩 Grapheme Clusters"@,
        TitleKey::SlicePreview => "✂️ Slice Preview"@,
        TitleKey::UnicodeInfo => "🧬 Unicode Atom Info"@,
        TitleKey::TruncatedOutput => "📉 Truncated Output"@,
        TitleKey::WidthPerChar => "📐 Width Per Character"@,
        TitleKey::RunefixVersion => "🪪 Runefix Version Info"@,
        TitleKey::SplitLines => "🪓 Split Lines"@,
    }
}

/// The English (en-US) `TitleKey` message table.
pub fn title_en_us() -> (r: Vec<(TitleKey, &'static str)>)
    ensures
        r@.map_values(|p: (TitleKey, &'static str)| p.0) == title_key_order(),
        forall|j: int| 0 <= j < r@.len() ==> (#[trigger] r@[j]).1@ == title_message_en_us(r@[j].0),
{
    let mut r: Vec<(TitleKey, &'static str)> = Vec::new();
    r.push((TitleKey::DisplayWidth, "📏 Display Width"));
    r.push((TitleKey::GraphemeClusters, "🧩 Grapheme Clusters"));
    r.push((TitleKey::SlicePreview, "✂️ Slice Preview"));
    r.push((TitleKey::UnicodeInfo, "🧬 Unicode Atom Info"));
    r.push((TitleKey::TruncatedOutput, "📉 Truncated Output"));
    r.push((TitleKey::WidthPerChar, "📐 Width Per Character"));
    r.push((TitleKey::RunefixVersion, "🪪 Runefix Version Info"));
    r.push((TitleKey::SplitLines, "🪓 Split Lines"));
    proof {
        assert(r@.map_values(|p: (TitleKey, &'static str)| p.0) =~= title_key_order());
    }
    r
}

/// The English (en-US) message for each `FooterKey`.
pub open spec fn footer_message_en_us(k: FooterKey) -> Seq<char> {
    match k {
        FooterKey::AtomsDetail => "Total Display Width"@,
        FooterKey::LegendGlossary => "📘 Legend"@,
        FooterKey::SliceSummary => "Total units: {total}, Range: [{start}..{end}]"@,
    }
}

/// The English (en-US) `FooterKey` message table.
pub fn footer_en_us() -> (r: Vec<(FooterKey, &'static str)>)
    ensures
        r@.map_values(|p: (FooterKey, &'static str)| p.0) == footer_key_order(),
        forall|j: int| 0 <= j < r@.len() ==> (#[trigger] r@[j]).1@ == footer_message_en_us(r@[j].0),
{
    let mut r: Vec<(FooterKey, &'static str)> = Vec::new();
    r.push((FooterKey::AtomsDetail, "Total Display Width"));
    r.push((FooterKey::LegendGlossary, "📘 Legend"));
    r.push((FooterKey::SliceSummary, "Total units: {total}, Range: [{start}..{end}]"));
    proof {
        assert(r@.map_values(|p: (FooterKey, &'static str)| p.0) =~= footer_key_order());
    }
    r
}

/// The English (en-US) message for each `ReportKey`.
pub open spec fn report_message_en_us(k: ReportKey) -> Seq<char> {
    match k {
        ReportKey::WidthText => "Text"@,
        ReportKey::WidthPolicy => "Policy"@,
        ReportKey::WidthDetail => "Display Width = {total} columns"@,
        ReportKey::SplitLine => "Line"@,
    }
}

/// The English (en-US) `ReportKey` message table.
pub fn report_en_us() -> (r: Vec<(ReportKey, &'static str)>)
    ensures
        r@.map_values(|p: (ReportKey, &'static str)| p.0) == report_key_order(),
        forall|j: int| 0 <= j < r@.len() ==> (#[trigger] r@[j]).1@ == report_message_en_us(r@[j].0),
{
    let mut r: Vec<(ReportKey, &'static str)> = Vec::new();
    r.push((ReportKey::WidthText, "Text"));
    r.push((ReportKey::WidthPolicy, "Policy"));
    r.push((ReportKey::WidthDetail, "Display Width = {total} columns"));
    r.push((ReportKey::SplitLine, "Line"));
    proof {
        assert(r@.map_values(|p: (ReportKey, &'static str)| p.0) =~= report_key_order());
    }
    r
}

} // verus!
