//! Helpers shared by the commands.

pub mod ui;
