//! A client library for persistent terminal sessions hosted by tmux: the
//! session model, the parsing of tmux's listings, the command lines sent to
//! tmux, the dashboard and session-view state and how they refresh, pane
//! geometry, what the screens show, and the decoding of captured ANSI
//! output.

pub mod ansi;
pub mod dashboard;
pub mod geometry;
pub mod model;
pub mod refresh;
pub mod screen;
pub mod session_view;
pub mod table;
pub mod text;
pub mod tmux;
