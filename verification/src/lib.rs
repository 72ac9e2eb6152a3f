//! Verified core of replayd: the clip library's data model, the control
//! protocol, game identification and the text that the application shows.
#![allow(unused_imports)]

pub mod actions;
pub mod args;
pub mod ctl;
pub mod dialogs;
pub mod format;
pub mod hypr;
pub mod identifier;
pub mod kde;
pub mod library;
pub mod messages;
pub mod order;
pub mod paths;
pub mod protocol;
pub mod recorder;
pub mod schema;
pub mod search;
pub mod text;
pub mod thumbnail;
pub mod tray;
