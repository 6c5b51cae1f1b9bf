//! Events about peers and the interface through which the application talks to the user.

use vstd::prelude::*;
use std::collections::HashMap;
use crate::rendezvous::Peer;

verus! {

/// Something that happened to a discovered peer, with the local time it was noticed.
pub enum PeerEvent {
    NewPeer(Peer, String),
    PeerLost(Peer, String),
}

/// What the application asks of a user interface: show the peers, report events, let the
/// user pick a peer, and show advertising and transfer progress.
pub trait InteractionHandler: Send + Sync {
    fn display_peers_list(&self, active_peers: &HashMap<String, Peer>, lost_peers: &HashMap<String, Peer>);

    fn handle_peer_event(&self, event: PeerEvent);

    fn select_peer(&self, peers: &[crate::network::file_transfer::PeerInfo]) -> Option<crate::network::file_transfer::PeerInfo>;

    fn on_advertising_start(&self, username: &str, ip: [u8; 4], port: u16, device_name_payload: &str);

    fn update_progress(&self, message: &str, done: u64, total: u64);
}

} // verus!
