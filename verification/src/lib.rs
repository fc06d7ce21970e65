//! Verified core of a dual-pane terminal file manager: pane listings and
//! their ordering, the application state machine, the text viewer and the
//! JSON prettifier.

pub mod config;
pub mod display;
pub mod keys;
pub mod laws;
pub mod manager;
pub mod order;
pub mod pane;
pub mod paths;
pub mod prettify;
pub mod text;
pub mod vfs;
