//! Model and rules of a small editor for the top-level settings of a NixOS
//! configuration file: every setting is a row that is either a boolean switch
//! or a text field, edits are tracked against the values last read from the
//! file, and only the settings that changed are written back.

pub mod config;
pub mod flag;
pub mod nix;
pub mod rows;
pub mod text;
