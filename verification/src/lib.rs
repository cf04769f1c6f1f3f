//! The decisions of a WebSocket benchmark server and of the client that loads it.

pub mod answers;
pub mod channel;
pub mod client;
pub mod ecs;
pub mod histories;
pub mod laws;
pub mod message;
pub mod registry;
pub mod server;
pub mod session;
pub mod table;
pub mod text;
pub mod writer;
