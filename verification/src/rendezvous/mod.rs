//! Finding peers: the peer record and the choice of discovery method.

pub mod ble_rendezvous;

use vstd::prelude::*;
use std::collections::HashMap;
use std::sync::Arc;
use crate::network::file_transfer::PeerInfo;
use crate::ui::cli_handler::{ip_pointee, vers_ip_pointee};

verus! {

#[verifier::external_type_specification]
#[verifier::external_body]
#[verifier::reject_recursive_types(T)]
pub struct ExVerrouLectureEcriture<T: ?Sized>(tokio::sync::RwLock<T>);

/// A discovered peer: where to reach it and what it calls itself.
#[derive(Debug, Clone, PartialEq, Eq)]
pub struct Peer {
    pub ip: [u8; 4],
    pub port: u16,
    pub username: String,
}

impl Peer {
    /// The same peer.
    pub fn copie(&self) -> (r: Peer)
        ensures
            r == *self,
    {
        Peer { ip: self.ip, port: self.port, username: self.username.clone() }
    }

    /// Where to reach this peer for a transfer: its address as "a.b.c.d", its port, and
    /// its name as the device name.
    pub fn vers_peer_info(&self) -> (r: PeerInfo)
        ensures
            r.ip@ == ip_pointee(self.ip@),
            r.port == self.port,
            r.device_name == self.username,
    {
        PeerInfo { ip: vers_ip_pointee(&self.ip), port: self.port, device_name: self.username.clone() }
    }
}

/// The discovery methods: over the local network, or over Bluetooth when the network
/// blocks service discovery.
#[derive(Debug, Clone, Copy, PartialEq, Eq, Structural)]
pub enum RendezvousImpl {
    Lan,
    Bluetooth,
}

/// Chooses the discovery method.
pub struct RendezvousManager;

impl RendezvousManager {
    /// The method in use: Bluetooth, until discovery over the local network exists.
    pub fn rendezvous_impl() -> (r: RendezvousImpl)
        ensures
            r == RendezvousImpl::Bluetooth,
    {
        RendezvousImpl::Bluetooth
    }
}

/// The peers discovered so far, keyed by their advertised payload, shared between tasks.
pub type PeerMap = Arc<tokio::sync::RwLock<HashMap<String, Peer>>>;

} // verus!
