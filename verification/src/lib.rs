//! Core logic of a cross-backend file browser: address strings in three
//! path syntaxes, background job bookkeeping, navigation history, and the
//! destination-picker state machine, all with verified contracts.

pub mod client;
pub mod config;
pub mod controller;
pub mod history;
pub mod model;
pub mod path_tools;
pub mod queue;
pub mod registry;
pub mod text;
