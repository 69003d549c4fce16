//! Unicode-aware display-width toolkit: segmentation of text into characters,
//! grapheme clusters or display-width cells, bracketed range expressions, and
//! range resolution against a boundary table, under strict or lenient policy.

pub mod atoms;
pub mod cli;
pub mod config;
pub mod dispatch;
pub mod i18n;
pub mod laws;
pub mod lines;
pub mod measure;
pub mod oracle;
pub mod policy;
pub mod range_expr;
pub mod resolve;
pub mod segment;
pub mod term;
pub mod text;
pub mod version;
