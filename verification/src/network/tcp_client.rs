//! The sending endpoint: where it connects, what it asks, and how it reads the answer.

use vstd::prelude::*;
use std::sync::Arc;
use crate::octets::{decimal, vers_decimal};
use crate::network::file_transfer::{PeerInfo, FileHeader, TransferRequest, TransferResponse, ErreurTransfert};
use crate::ui::interaction::InteractionHandler;

verus! {

/// The address text "ip:port" of a peer.
pub open spec fn adresse_pair(ip: Seq<char>, port: u16) -> Seq<char> {
    ip + seq![':'] + decimal(port as nat)
}

/// A sender bound to one peer, under a local device name, reporting to a user interface.
pub struct TcpClient<H: ?Sized> {
    peer: PeerInfo,
    local_device_name: String,
    handler: Arc<H>,
}

impl<H: ?Sized + InteractionHandler> TcpClient<H> {
    /// The peer it sends to.
    pub closed spec fn pair(self) -> PeerInfo {
        self.peer
    }

    /// The name it announces.
    pub closed spec fn nom_local(self) -> String {
        self.local_device_name
    }

    /// The interface it reports to.
    pub closed spec fn interface(self) -> Arc<H> {
        self.handler
    }

    /// A sender to `peer` under the name `local_device_name`.
    pub fn new(peer: PeerInfo, local_device_name: String, handler: Arc<H>) -> (r: Self)
        ensures
            r.pair() == peer,
            r.nom_local() == local_device_name,
            r.interface() == handler,
    {
        TcpClient { peer, local_device_name, handler }
    }

    /// The peer it sends to.
    pub fn peer(&self) -> (r: &PeerInfo)
        ensures
            *r == self.pair(),
    {
        &self.peer
    }

    /// The interface it reports to.
    pub fn handler(&self) -> (r: &Arc<H>)
        ensures
            *r == self.interface(),
    {
        &self.handler
    }

    /// The address to connect to, "ip:port".
    pub fn adresse(&self) -> (r: String)
        ensures
            r@ == adresse_pair(self.pair().ip@, self.pair().port),
    {
        let mut r = self.peer.ip.clone();
        let deux_points = ":";
        proof {
            reveal_strlit(":");
        }
        r.append(deux_points);
        let port = vers_decimal(self.peer.port as u64);
        r.append(port.as_str());
        r
    }

    /// The request announcing `file_header` under the local name.
    pub fn requete(&self, file_header: FileHeader) -> (r: TransferRequest)
        ensures
            r.device_name == self.nom_local(),
            r.file_header == file_header,
    {
        TransferRequest { device_name: self.local_device_name.clone(), file_header }
    }

    /// Reads the receiver's answer: a refusal ends the transfer with the receiver's message.
    pub fn verifier_reponse(response: &TransferResponse) -> (r: Result<(), ErreurTransfert>)
        ensures
            response.accepted ==> r is Ok,
            !response.accepted ==> (r matches Err(ErreurTransfert::TransfertRefuse(m)) && m == response.message),
    {
        if !response.accepted {
            return Err(ErreurTransfert::TransfertRefuse(response.message.clone()));
        }
        Ok(())
    }
}

} // verus!
