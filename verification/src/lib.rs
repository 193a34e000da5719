//! A terminal multiplexer's core state: sessions, windows, pane trees, the
//! coordinator that ties them together, the control-message vocabulary and
//! the status-bar/theme data of the interface.

pub mod sys;
pub mod session;
pub mod pane;
pub mod text;
pub mod multiplexer;
pub mod control;
pub mod ui;
