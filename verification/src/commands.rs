//! The commands of the tool: what they decide or compute, and the options
//! of those that only drive outside tools.

pub mod analyze;
pub mod options;
pub mod paths;
pub mod repair;
pub mod security;
pub mod watch;
