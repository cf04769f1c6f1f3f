//! The steps of the server.
pub mod broadcast;
pub mod connections;
pub mod echo;
pub mod statistics;
pub mod tasks;
pub mod timing;
