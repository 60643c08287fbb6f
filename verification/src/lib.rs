//! Core of a terminal calendar: dates, the month grid, the input grammar for
//! events and tasks, the line editor, the cache of fetched entries and the
//! state machine that ties them together.

pub mod cache;
pub mod config;
pub mod date;
pub mod editor;
pub mod grid;
pub mod keys;
pub mod model;
pub mod parse_input;
pub mod refresh;
pub mod request;
pub mod show;
pub mod state;
pub mod status;
pub mod text;
pub mod weather;
