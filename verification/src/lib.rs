//! Verified core of the Loungy launcher: fuzzy ranking, the text input,
//! the view stack, action lookup and the small parsers and formatters
//! that the launcher's commands rely on.

pub mod chars;
pub mod fuzzy;
pub mod keys;
pub mod text;
pub mod state;
pub mod list;
pub mod paths;
pub mod platform;
pub mod strs;
pub mod num;
pub mod words;
pub mod sort;
pub mod web;
pub mod clipboard;
pub mod bitwarden;
pub mod process;
pub mod tailscale;
pub mod hotkey;
pub mod icon;
pub mod date;
pub mod numbat;
pub mod theme;
pub mod ipc;
pub mod commands;
pub mod matrix;
pub mod form;
pub mod events;
pub mod favicon;
