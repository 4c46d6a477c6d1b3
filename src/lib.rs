//! An alias manager: named shortcuts for shell commands, in a general scope
//! or in named groups.

pub mod table;
pub mod config;
pub mod laws;
pub mod alias;

pub use alias::{Alias, AliasCommand};
pub use config::{Report, TomlConfig};
pub use table::Table;
