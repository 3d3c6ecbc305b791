//! A chat client's core: the wire protocol, the session and transport state
//! machines, and the state that the terminal interface shows.
pub mod bridge;
pub mod codec;
pub mod control;
pub mod feed;
pub mod json;
pub mod message;
pub mod session;
pub mod settings;
pub mod text;
