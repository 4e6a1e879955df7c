//! The clipboard-history browser: its candidates, the substring filter and
//! its settings.

pub mod config;
pub mod entries;
