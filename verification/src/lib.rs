//! RadiAll: a radial app launcher, window switcher and per-window action
//! menu. This crate holds the launcher's logic: ring models, window matching,
//! the actions system, shortcut combos, theme colors, the control protocol
//! and the decoding done by the compositor and shortcut adapters.

mod nums;
mod text;
mod keys;
pub mod order;
pub mod theme;
pub mod ipc;
pub mod config;
pub mod shortcuts;
pub mod shortcuts_portal;
pub mod shortcuts_x11;
pub mod shortcuts_win;
pub mod compositor;
pub mod apps;
pub mod ring;
pub mod icons;
pub mod apps_windows;
pub mod editor;
pub mod cli;
pub mod wheel;
