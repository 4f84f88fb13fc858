//! Core logic of the hub that keeps a suite of desktop programs up to date:
//! the program manifest, user settings, the colour theme, the update check,
//! the local update record and the decisions the user interface takes.

pub mod text;
pub mod text_map;
pub mod paths;
pub mod update;
pub mod config;
pub mod github;
pub mod platform;
pub mod app_state;
pub mod ui_model;
