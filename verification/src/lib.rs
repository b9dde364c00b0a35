//! Macro-commands for an editor's command line: a registry of user-defined
//! commands, the help text of one, and the expansion of the templates they
//! map to, with contextual variables and one block of shell output.

pub mod text;
pub mod variables;
pub mod custom;
pub mod executor;
