//! Simplified Chinese (zh-CN) messages, as message tables and as the spec-level
//! message functions the tables are proved against.

use vstd::prelude::*;

use crate::i18n::keys::{ErrorKey, FooterKey, ReportKey, TitleKey};
use crate::i18n::keys::{error_key_order, footer_key_order, report_key_order, title_key_order};

verus! {

/// The Simplified Chinese (zh-CN) message for each `ErrorKey`.
pub open spec fn error_message_zh_cn(k: ErrorKey) -> Seq<char> {
    match k {
        ErrorKey::InputTextNoProvided => "❗ 未提供输入文本。请使用 --help 查看用法说明。"@,
        ErrorKey::SliceTrim => "⚠️ 切片表达式不能有首尾空格"@,
        ErrorKey::SliceBrackets => "❌ 切片必须采用 [start:end] 格式"@,
        ErrorKey::SliceSpaces => "⚠️ 切片范围中不能含有空格"@,
        ErrorKey::SliceFormat => "❌ 切片格式必须是 [start:end]"@,
        ErrorKey::SliceParseSingle => "❌ 切片索引必须是非负整数（如 [0] 或 [3]）"@,
        ErrorKey::SliceParseStart => "❌ 起始索引必须是非负整数"@,
        ErrorKey::SliceParseEnd => "❌ 结束索引必须是非负整数"@,
        ErrorKey::SliceExprFallback => "❌ 解析切片表达式失败"@,
        ErrorKey::SliceOutOfBounds => "❌ 切片索引超出范围（总长度 = {len}）"@,
        ErrorKey::SliceWidthUnaligned => "❌ width 模式下切片必须对齐显示单元边界\n合法边界值包括：{boundaries}"@,
    }
}

/// The Simplified Chinese (zh-CN) `ErrorKey` message table.
pub fn error_zh_cn() -> (r: Vec<(ErrorKey, &'static str)>)
    ensures
        r@.map_values(|p: (ErrorKey, &'static str)| p.0) == error_key_order(),
        forall|j: int| 0 <= j < r@.len() ==> (#[trigger] r@[j]).1@ == error_message_zh_cn(r@[j].0),
{
    let mut r: Vec<(ErrorKey, &'static str)> = Vec::new();
    r.push((ErrorKey::InputTextNoProvided, "❗ 未提供输入文本。请使用 --help 查看用法说明。"));
    r.push((ErrorKey::SliceTrim, "⚠️ 切片表达式不能有首尾空格"));
    r.push((ErrorKey::SliceBrackets, "❌ 切片必须采用 [start:end] 格式"));
    r.push((ErrorKey::SliceSpaces, "⚠️ 切片范围中不能含有空格"));
    r.push((ErrorKey::SliceFormat, "❌ 切片格式必须是 [start:end]"));
    r.push((ErrorKey::SliceParseSingle, "❌ 切片索引必须是非负整数（如 [0] 或 [3]）"));
    r.push((ErrorKey::SliceParseStart, "❌ 起始索引必须是非负整数"));
    r.push((ErrorKey::SliceParseEnd, "❌ 结束索引必须是非负整数"));
    r.push((ErrorKey::SliceExprFallback, "❌ 解析切片表达式失败"));
    r.push((ErrorKey::SliceOutOfBounds, "❌ 切片索引超出范围（总长度 = {len}）"));
    r.push((ErrorKey::SliceWidthUnaligned, "❌ width 模式下切片必须对齐显示单元边界\n合法边界值包括：{boundaries}"));
    proof {
        assert(r@.map_values(|p: (ErrorKey, &'static str)| p.0) =~= error_key_order());
    }
    r
}

/// The Simplified Chinese (zh-CN) message for each `TitleKey`.
pub open spec fn title_message_zh_cn(k: TitleKey) -> Seq<char> {
    match k {
        TitleKey::DisplayWidth => "📏 显示宽度"@,
        TitleKey::GraphemeClusters => "🧩 字符分段"@,
        TitleKey::SlicePreview => "✂️ 切片结果"@,
        TitleKey::UnicodeInfo => "🧬 Unicode 原子信息"@,
        TitleKey::TruncatedOutput => "📉 截断结果"@,
        TitleKey::WidthPerChar => "📐 单字符宽度"@,
        TitleKey::RunefixVersion => "🪪 Runefix 版本信息"@,
        TitleKey::SplitLines => "🪓 拆分行"@,
    }
}

/// The Simplified Chinese (zh-CN) `TitleKey` message table.
pub fn title_zh_cn() -> (r: Vec<(TitleKey, &'static str)>)
    ensures
        r@.map_values(|p: (TitleKey, &'static str)| p.0) == title_key_order(),
        forall|j: int| 0 <= j < r@.len() ==> (#[trigger] r@[j]).1@ == title_message_zh_cn(r@[j].0),
{
    let mut r: Vec<(TitleKey, &'static str)> = Vec::new();
    r.push((TitleKey::DisplayWidth, "📏 显示宽度"));
    r.push((TitleKey::GraphemeClusters, "🧩 字符分段"));
    r.push((TitleKey::SlicePreview, "✂️ 切片结果"));
    r.push((TitleKey::UnicodeInfo, "🧬 Unicode 原子信息"));
    r.push((TitleKey::TruncatedOutput, "📉 截断结果"));
    r.push((TitleKey::WidthPerChar, "📐 单字符宽度"));
    r.push((TitleKey::RunefixVersion, "🪪 Runefix 版本信息"));
    r.push((TitleKey::SplitLines, "🪓 拆分行"));
    proof {
        assert(r@.map_values(|p: (TitleKey, &'static str)| p.0) =~= title_key_order());
    }
    r
}

/// The Simplified Chinese (zh-CN) message for each `FooterKey`.
pub open spec fn footer_message_zh_cn(k: FooterKey) -> Seq<char> {
    match k {
        FooterKey::AtomsDetail => "总显示宽度"@,
        FooterKey::LegendGlossary => "📘 图例"@,
        FooterKey::SliceSummary => "总单元数：{total}，切片区间：[{start}..{end}]"@,
    }
}

/// The Simplified Chinese (zh-CN) `FooterKey` message table.
pub fn footer_zh_cn() -> (r: Vec<(FooterKey, &'static str)>)
    ensures
        r@.map_values(|p: (FooterKey, &'static str)| p.0) == footer_key_order(),
        forall|j: int| 0 <= j < r@.len() ==> (#[trigger] r@[j]).1@ == footer_message_zh_cn(r@[j].0),
{
    let mut r: Vec<(FooterKey, &'static str)> = Vec::new();
    r.push((FooterKey::AtomsDetail, "总显示宽度"));
    r.push((FooterKey::LegendGlossary, "📘 图例"));
    r.push((FooterKey::SliceSummary, "总单元数：{total}，切片区间：[{start}..{end}]"));
    proof {
        assert(r@.map_values(|p: (FooterKey, &'static str)| p.0) =~= footer_key_order());
    }
    r
}

/// The Simplified Chinese (zh-CN) message for each `ReportKey`.
pub open spec fn report_message_zh_cn(k: ReportKey) -> Seq<char> {
    match k {
        ReportKey::WidthText => "文本宽度"@,
        ReportKey::WidthPolicy => "策略"@,
        ReportKey::WidthDetail => "显示宽度 = {total} 列"@,
        ReportKey::SplitLine => "行"@,
    }
}

/// The Simplified Chinese (zh-CN) `ReportKey` message table.
pub fn report_zh_cn() -> (r: Vec<(ReportKey, &'static str)>)
    ensures
        r@.map_values(|p: (ReportKey, &'static str)| p.0) == report_key_order(),
        forall|j: int| 0 <= j < r@.len() ==> (#[trigger] r@[j]).1@ == report_message_zh_cn(r@[j].0),
{
    let mut r: Vec<(ReportKey, &'static str)> = Vec::new();
    r.push((ReportKey::WidthText, "文本宽度"));
    r.push((ReportKey::WidthPolicy, "策略"));
    r.push((ReportKey::WidthDetail, "显示宽度 = {total} 列"));
    r.push((ReportKey::SplitLine, "行"));
    proof {
        assert(r@.map_values(|p: (ReportKey, &'static str)| p.0) =~= report_key_order());
    }
    r
}

} // verus!
