//! Keyboard configuration: the sections of `keyboard.toml` and what they resolve
//! to.

pub mod behavior;
pub mod hardware;
pub mod toml;
