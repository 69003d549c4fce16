//! Japanese (ja-JP) messages, as message tables and as the spec-level
//! message functions the tables are proved against.

use vstd::prelude::*;

use crate::i18n::keys::{ErrorKey, FooterKey, ReportKey, TitleKey};
use crate::i18n::keys::{error_key_order, footer_key_order, report_key_order, title_key_order};

verus! {

/// The Japanese (ja-JP) message for each `ErrorKey`.
pub open spec fn error_message_ja_jp(k: ErrorKey) -> Seq<char> {
    match k {
        ErrorKey::InputTextNoProvided => "❗ エラー: 入力テキストがありません。--help で使い方を確認してください。"@,
        ErrorKey::SliceTrim => "⚠️ スライス式の前後に空白を含めないでください"@,
        ErrorKey::SliceBrackets => "❌ スライスは [start:end] 形式である必要があります"@,
        ErrorKey::SliceSpaces => "⚠️ スライス範囲には空白を含めないでください"@,
        ErrorKey::SliceFormat => "❌ スライスの形式は [start:end] である必要があります"@,
        ErrorKey::SliceParseSingle => "❌ スライス添字は非負整数でなければなりません（例: [0], [3]）"@,
        ErrorKey::SliceParseStart => "❌ 開始添字は非負整数でなければなりません"@,
        ErrorKey::SliceParseEnd => "❌ 終了添字は非負整数でなければなりません"@,
        ErrorKey::SliceExprFallback => "❌ スライス式の解析に失敗しました"@,
        ErrorKey::SliceOutOfBounds => "❌ スライス範囲が無効です（長さ = {len}）"@,
        ErrorKey::SliceWidthUnaligned => "❌ 幅モードではスライスは表示セルの境界に揃える必要があります\n有効な境界: {boundaries}"@,
    }
}

/// The Japanese (ja-JP) `ErrorKey` message table.
pub fn error_ja_jp() -> (r: Vec<(ErrorKey, &'static str)>)
    ensures
        r@.map_values(|p: (ErrorKey, &'static str)| p.0) == error_key_order(),
        forall|j: int| 0 <= j < r@.len() ==> (#[trigger] r@[j]).1@ == error_message_ja_jp(r@[j].0),
{
    let mut r: Vec<(ErrorKey, &'static str)> = Vec::new();
    r.push((ErrorKey::InputTextNoProvided, "❗ エラー: 入力テキストがありません。--help で使い方を確認してください。"));
    r.push((ErrorKey::SliceTrim, "⚠️ スライス式の前後に空白を含めないでください"));
    r.push((ErrorKey::SliceBrackets, "❌ スライスは [start:end] 形式である必要があります"));
    r.push((ErrorKey::SliceSpaces, "⚠️ スライス範囲には空白を含めないでください"));
    r.push((ErrorKey::SliceFormat, "❌ スライスの形式は [start:end] である必要があります"));
    r.push((ErrorKey::SliceParseSingle, "❌ スライス添字は非負整数でなければなりません（例: [0], [3]）"));
    r.push((ErrorKey::SliceParseStart, "❌ 開始添字は非負整数でなければなりません"));
    r.push((ErrorKey::SliceParseEnd, "❌ 終了添字は非負整数でなければなりません"));
    r.push((ErrorKey::SliceExprFallback, "❌ スライス式の解析に失敗しました"));
    r.push((ErrorKey::SliceOutOfBounds, "❌ スライス範囲が無効です（長さ = {len}）"));
    r.push((ErrorKey::SliceWidthUnaligned, "❌ 幅モードではスライスは表示セルの境界に揃える必要があります\n有効な境界: {boundaries}"));
    proof {
        assert(r@.map_values(|p: (ErrorKey, &'static str)| p.0) =~= error_key_order());
    }
    r
}

/// The Japanese (ja-JP) message for each `TitleKey`.
pub open spec fn title_message_ja_jp(k: TitleKey) -> Seq<char> {
    match k {
        TitleKey::DisplayWidth => "📏 表示幅"@,
        TitleKey::GraphemeClusters => "🧩 グラフェム分割"@,
        TitleKey::SlicePreview => "✂️ スライス結果"@,
        TitleKey::UnicodeInfo => "🧬 Unicode 原子情報"@,
        TitleKey::TruncatedOutput => "📉 切り捨て出力"@,
        TitleKey::WidthPerChar => "📐 文字ごとの幅"@,
        TitleKey::RunefixVersion => "🪪 Runefix バージョン情報"@,
        TitleKey::SplitLines => "🪓 行の分割"@,
    }
}

/// The Japanese (ja-JP) `TitleKey` message table.
pub fn title_ja_jp() -> (r: Vec<(TitleKey, &'static str)>)
    ensures
        r@.map_values(|p: (TitleKey, &'static str)| p.0) == title_key_order(),
        forall|j: int| 0 <= j < r@.len() ==> (#[trigger] r@[j]).1@ == title_message_ja_jp(r@[j].0),
{
    let mut r: Vec<(TitleKey, &'static str)> = Vec::new();
    r.push((TitleKey::DisplayWidth, "📏 表示幅"));
    r.push((TitleKey::GraphemeClusters, "🧩 グラフェム分割"));
    r.push((TitleKey::SlicePreview, "✂️ スライス結果"));
    r.push((TitleKey::UnicodeInfo, "🧬 Unicode 原子情報"));
    r.push((TitleKey::TruncatedOutput, "📉 切り捨て出力"));
    r.push((TitleKey::WidthPerChar, "📐 文字ごとの幅"));
    r.push((TitleKey::RunefixVersion, "🪪 Runefix バージョン情報"));
    r.push((TitleKey::SplitLines, "🪓 行の分割"));
    proof {
        assert(r@.map_values(|p: (TitleKey, &'static str)| p.0) =~= title_key_order());
    }
    r
}

/// The Japanese (ja-JP) message for each `FooterKey`.
pub open spec fn footer_message_ja_jp(k: FooterKey) -> Seq<char> {
    match k {
        FooterKey::AtomsDetail => "表示幅合計"@,
        FooterKey::LegendGlossary => "📘 凡例"@,
        FooterKey::SliceSummary => "合計ユニット数: {total}、範囲: [{start}..{end}]"@,
    }
}

/// The Japanese (ja-JP) `FooterKey` message table.
pub fn footer_ja_jp() -> (r: Vec<(FooterKey, &'static str)>)
    ensures
        r@.map_values(|p: (FooterKey, &'static str)| p.0) == footer_key_order(),
        forall|j: int| 0 <= j < r@.len() ==> (#[trigger] r@[j]).1@ == footer_message_ja_jp(r@[j].0),
{
    let mut r: Vec<(FooterKey, &'static str)> = Vec::new();
    r.push((FooterKey::AtomsDetail, "表示幅合計"));
    r.push((FooterKey::LegendGlossary, "📘 凡例"));
    r.push((FooterKey::SliceSummary, "合計ユニット数: {total}、範囲: [{start}..{end}]"));
    proof {
        assert(r@.map_values(|p: (FooterKey, &'static str)| p.0) =~= footer_key_order());
    }
    r
}

/// The Japanese (ja-JP) message for each `ReportKey`.
pub open spec fn report_message_ja_jp(k: ReportKey) -> Seq<char> {
    match k {
        ReportKey::WidthText => "テキスト"@,
        ReportKey::WidthPolicy => "ポリシー"@,
        ReportKey::WidthDetail => "表示幅 = {total} カラム"@,
        ReportKey::SplitLine => "行"@,
    }
}

/// The Japanese (ja-JP) `ReportKey` message table.
pub fn report_ja_jp() -> (r: Vec<(ReportKey, &'static str)>)
    ensures
        r@.map_values(|p: (ReportKey, &'static str)| p.0) == report_key_order(),
        forall|j: int| 0 <= j < r@.len() ==> (#[trigger] r@[j]).1@ == report_message_ja_jp(r@[j].0),
{
    let mut r: Vec<(ReportKey, &'static str)> = Vec::new();
    r.push((ReportKey::WidthText, "テキスト"));
    r.push((ReportKey::WidthPolicy, "ポリシー"));
    r.push((ReportKey::WidthDetail, "表示幅 = {total} カラム"));
    r.push((ReportKey::SplitLine, "行"));
    proof {
        assert(r@.map_values(|p: (ReportKey, &'static str)| p.0) =~= report_key_order());
    }
    r
}

} // verus!
