//! The client side of the Language Server Protocol.

pub mod answer_laws;
pub mod capabilities;
pub mod channel;
pub mod code_action;
pub mod configuration;
pub mod decode;
pub mod key_table;
pub mod manager;
pub mod message_laws;
pub mod messages;
pub mod outcome;
pub mod positions;
pub mod process;
pub mod protocol;
pub mod reader;
pub mod roots;
pub mod server_config;
pub mod session;
pub mod session_laws;
pub mod transport;
pub mod uri;
pub mod warnings;
pub mod workspace_data;
