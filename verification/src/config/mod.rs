//! Configuration: the program manifest, the user's settings and the theme.

pub mod manifest;
pub mod settings;
pub mod theme;
