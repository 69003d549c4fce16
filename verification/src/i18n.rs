//! Message keys, languages and localized message tables.

pub mod keys;
pub mod lang;
pub mod locales;
pub mod utils;
