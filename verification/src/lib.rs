//! Verified core of the Ki editor.

pub mod bounded_log;
pub mod decimal;
pub mod editor_config;
pub mod formatter;
pub mod global_reveal;
pub mod jj_conflict;
pub mod json;
pub mod lsp;
pub mod path;
pub mod process_command;
pub mod run_config;
pub mod syntax_node;
pub mod table;
pub mod text;
pub mod wakatime;
