//! Core logic of a desktop status light for AI agents: the light's modes and
//! state, the local HTTP protocol that drives it, and the placement rules of
//! its floating window.
pub mod autostart;
pub mod http;
pub mod menu;
pub mod status;
pub mod text;
pub mod window;
