//! The application launcher: its candidates, the fuzzy filter, the
//! calculator's texts, the panel and its settings.

pub mod calc;
pub mod config;
pub mod desktop;
pub mod panel;
pub mod search;
