//! CargoDrop: peer-to-peer file drop over a local network, with BLE rendezvous
//! and an authenticated, encrypted block channel.

pub mod octets;

pub mod security;
pub mod user_info;
pub mod rendezvous;
pub mod network;
pub mod ui;
pub mod cli;
