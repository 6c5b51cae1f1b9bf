//! The receiving endpoint: where it listens, how it reads the user's answer, and what it
//! answers the sender.

use vstd::prelude::*;
use std::sync::Arc;
use crate::octets::{decimal, vers_decimal, sans_blancs, rogner, minuscule_ascii, minuscules_ascii, egal_en_minuscules_ascii};
use crate::network::file_transfer::TransferResponse;
use crate::ui::interaction::InteractionHandler;

verus! {

/// The listening address "0.0.0.0:port".
pub open spec fn adresse_ecoute(port: u16) -> Seq<char> {
    seq!['0', '.', '0', '.', '0', '.', '0', ':'] + decimal(port as nat)
}

/// Whether an answer typed at the prompt accepts: once trimmed and lowered, "y" or "yes".
pub open spec fn accepte(saisie: Seq<char>) -> bool {
    let choix = minuscules_ascii(sans_blancs(saisie));
    choix == seq!['y'] || choix == seq!['y', 'e', 's']
}

/// The answers that accept: an accepted answer, once trimmed, is one or three characters long
/// and starts with 'y' or 'Y', so every answer that does not ("n", "no", "" among them) is
/// refused; and "y" or "yes", in any case and with any surrounding white space, accepts.
pub proof fn loi_confirmation(saisie: Seq<char>)
    ensures
        accepte(saisie) ==> {
            let t = sans_blancs(saisie);
            &&& t.len() == 1 || t.len() == 3
            &&& t[0] == 'y' || t[0] == 'Y'
        },
        ({
            let l = minuscules_ascii(sans_blancs(saisie));
            l == seq!['y'] || l == seq!['y', 'e', 's']
        }) ==> accepte(saisie),
{
    let t = sans_blancs(saisie);
    let l = minuscules_ascii(t);
    if accepte(saisie) {
        assert(l.len() == t.len());
        assert(l[0] == 'y');
        assert(l[0] == minuscule_ascii(t[0]));
        assert(('y' as u32) == 121u32 && ('Y' as u32) == 89u32 && ('A' as u32) == 65u32 && ('Z' as u32) == 90u32);
        if 'A' <= t[0] && t[0] <= 'Z' {
            assert(((t[0] as u32) + 32) as char == 'y');
            assert((t[0] as u32) == 89u32);
        }
    }
}

/// A receiver listening on a port, under a device name, reporting to a user interface.
pub struct TcpServer<H: ?Sized> {
    bind_port: u16,
    device_name: String,
    handler: Arc<H>,
}

impl<H: ?Sized + InteractionHandler> TcpServer<H> {
    /// The port it listens on.
    pub closed spec fn port(self) -> u16 {
        self.bind_port
    }

    /// The name it answers under.
    pub closed spec fn nom(self) -> String {
        self.device_name
    }

    /// The interface it reports to.
    pub closed spec fn interface(self) -> Arc<H> {
        self.handler
    }

    /// A receiver on `port` under the name `device_name`.
    pub fn new(port: u16, device_name: String, handler: Arc<H>) -> (r: Self)
        ensures
            r.port() == port,
            r.nom() == device_name,
            r.interface() == handler,
    {
        TcpServer { bind_port: port, device_name, handler }
    }

    /// The name it answers under.
    pub fn device_name(&self) -> (r: &String)
        ensures
            *r == self.nom(),
    {
        &self.device_name
    }

    /// The interface it reports to.
    pub fn handler(&self) -> (r: &Arc<H>)
        ensures
            *r == self.interface(),
    {
        &self.handler
    }

    /// The address to listen on, "0.0.0.0:port".
    pub fn adresse(&self) -> (r: String)
        ensures
            r@ == adresse_ecoute(self.port()),
    {
        let debut = "0.0.0.0:";
        proof {
            reveal_strlit("0.0.0.0:");
        }
        let mut r = debut.to_owned();
        let port = vers_decimal(self.bind_port as u64);
        r.append(port.as_str());
        assert(r@ =~= adresse_ecoute(self.port()));
        r
    }

    /// Whether an answer typed at the prompt accepts the transfer.
    pub fn interpreter_confirmation(saisie: &str) -> (r: bool)
        ensures
            r == accepte(saisie@),
    {
        let choix = rogner(saisie);
        let oui_court = "y";
        let oui_long = "yes";
        proof {
            reveal_strlit("y");
            reveal_strlit("yes");
            assert(oui_court@ =~= seq!['y']);
            assert(oui_long@ =~= seq!['y', 'e', 's']);
        }
        egal_en_minuscules_ascii(choix, oui_court) || egal_en_minuscules_ascii(choix, oui_long)
    }

    /// The answer to a request under this receiver's name: "Ready to receive" when accepted,
    /// "Transfer rejected by user" otherwise.
    pub fn reponse(&self, accepted: bool) -> (r: TransferResponse)
        ensures
            r.device_name == self.nom(),
            r.accepted == accepted,
            accepted ==> r.message@ == "Ready to receive"@,
            !accepted ==> r.message@ == "Transfer rejected by user"@,
    {
        let message = if accepted { "Ready to receive".to_owned() } else { "Transfer rejected by user".to_owned() };
        TransferResponse { device_name: self.device_name.clone(), accepted, message }
    }
}

} // verus!
