//! The per-language message tables.

pub mod en_us;
pub mod ja_jp;
pub mod zh_cn;
