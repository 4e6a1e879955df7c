//! What the two tools share.

pub mod cli;
pub mod config;
pub mod css;
pub mod keys;
pub mod layer;
pub mod paths;
pub mod session;
pub mod vim;
