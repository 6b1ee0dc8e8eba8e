//! Decision logic of a one-click launcher for a local web UI: configuration
//! parsing, launch-URL discovery in the server's output, the fallback chain of
//! launch commands, and the state machines that drive the launcher.

pub mod attempts;
pub mod browser;
pub mod config;
pub mod launcher;
pub mod number;
pub mod paths;
pub mod text;
pub mod url;
