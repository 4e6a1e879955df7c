//! The engine behind two overlay popups, a clipboard-history browser and an
//! application launcher: key chords and their actions, the modal (vim-style)
//! input state machine, the filters that rank candidates against a live
//! query, and the decisions of the single-instance daemon.

pub mod cliphist;
pub mod common;
pub mod launcher;
pub mod text;
