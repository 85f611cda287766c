//! Commit-graph layout, rendering decisions and list navigation for a
//! terminal git history browser.

pub mod check;
pub mod color;
pub mod config;
pub mod event;
pub mod external;
pub mod git;
pub mod graph;
pub mod keybind;
pub mod padding;
pub mod protocol;
pub mod search;
pub mod status;
pub mod text;
pub mod view;
pub mod watch;
pub mod widget;
