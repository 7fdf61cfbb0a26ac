//! Messaging between the live sessions of one process: who may send to whom,
//! how much may be sent, what is listed, and what a receiving session shows.

pub mod budget;
pub mod thread_id;
pub mod text;
pub mod error;
pub mod message;
pub mod session;
pub mod store;
pub mod runtime;
pub mod tool_spec;
pub mod list_sessions;
pub mod send_message;
pub mod extension;
pub mod display;
pub mod received_messages;
