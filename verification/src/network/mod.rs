//! File transfer over TCP: protocol messages, framing and the two endpoints.

pub mod file_transfer;
pub mod tcp_client;
pub mod tcp_server;
