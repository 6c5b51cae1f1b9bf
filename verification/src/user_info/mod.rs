//! The local user's configuration: the name shown to peers, the transfer port, and the
//! local address.

use vstd::prelude::*;

verus! {

/// Longest username, in characters (the limit that the BLE payload once imposed).
pub const LONGUEUR_MAX_NOM: usize = 14;

/// The transfer port used when none is configured.
pub const PORT_PAR_DEFAUT: u16 = 8080;

/// The local address, as the network layer reports it.
#[derive(Debug, Clone, Copy)]
pub enum AdresseIp {
    V4([u8; 4]),
    V6([u16; 8]),
}

/// The name used when the host has none to offer, "cargo-user".
pub open spec fn nom_de_secours() -> Seq<char> {
    seq!['c', 'a', 'r', 'g', 'o', '-', 'u', 's', 'e', 'r']
}

/// A username cut down to its first 14 characters.
pub open spec fn nom_tronque(nom: Seq<char>) -> Seq<char> {
    if nom.len() <= LONGUEUR_MAX_NOM {
        nom
    } else {
        nom.take(LONGUEUR_MAX_NOM as int)
    }
}

/// The address bytes advertised to peers: the IPv4 octets, or loopback for IPv6.
pub open spec fn octets_annonces(ip: AdresseIp) -> Seq<u8> {
    match ip {
        AdresseIp::V4(o) => o@,
        AdresseIp::V6(_) => seq![127u8, 0, 0, 1],
    }
}

/// Cuts a username down to its first 14 characters.
pub fn truncate_username(name: &str) -> (r: String)
    ensures
        r@ == nom_tronque(name@),
{
    let n = name.unicode_len();
    let fin = if n < LONGUEUR_MAX_NOM { n } else { LONGUEUR_MAX_NOM };
    let r = name.substring_char(0, fin).to_owned();
    assert(r@ =~= nom_tronque(name@));
    r
}

/// The name to use when no configuration is stored: the host name when there is one.
pub fn nom_par_defaut(nom_hote: Option<String>) -> (r: String)
    ensures
        r@ == match nom_hote {
            Some(h) => h@,
            None => nom_de_secours(),
        },
{
    match nom_hote {
        Some(h) => h,
        None => {
            let s = "cargo-user";
            proof {
                reveal_strlit("cargo-user");
            }
            let r = s.to_owned();
            assert(r@ =~= nom_de_secours());
            r
        },
    }
}

/// The local user's configuration.
#[derive(Debug, Clone)]
pub struct UserInfo {
    /// Name shown to peers.
    pub username: String,
    /// TCP port for transfers.
    pub port: u16,
    /// Local address, detected at start.
    pub local_ip: AdresseIp,
}

impl UserInfo {
    /// A configuration with the given name (cut to 14 characters), port and address.
    pub fn new(username: String, port: u16, local_ip: AdresseIp) -> (r: Self)
        ensures
            r.username@ == nom_tronque(username@),
            r.port == port,
            r.local_ip == local_ip,
    {
        UserInfo { username: truncate_username(username.as_str()), port, local_ip }
    }

    /// The configuration at start: the stored name (cut to 14 characters) and port, or, when
    /// nothing is stored, the host name (cut to 14 characters) and the default port.
    pub fn depuis_configuration(stockee: Option<(String, u16)>, nom_hote: Option<String>, local_ip: AdresseIp) -> (r: Self)
        ensures
            r.local_ip == local_ip,
            match stockee {
                Some((nom, port)) => r.username@ == nom_tronque(nom@) && r.port == port,
                None => r.port == PORT_PAR_DEFAUT && r.username@ == nom_tronque(
                    match nom_hote {
                        Some(h) => h@,
                        None => nom_de_secours(),
                    },
                ),
            },
    {
        match stockee {
            Some((username, port)) => Self::new(username, port, local_ip),
            None => Self::new(nom_par_defaut(nom_hote), PORT_PAR_DEFAUT, local_ip),
        }
    }

    /// Changes the name (cut to 14 characters); the caller saves the configuration.
    pub fn set_username(&mut self, new_name: String)
        ensures
            final(self).username@ == nom_tronque(new_name@),
            final(self).port == old(self).port,
            final(self).local_ip == old(self).local_ip,
    {
        self.username = truncate_username(new_name.as_str());
    }

    /// Changes the port; the caller saves the configuration.
    pub fn set_port(&mut self, new_port: u16)
        ensures
            final(self).port == new_port,
            final(self).username == old(self).username,
            final(self).local_ip == old(self).local_ip,
    {
        self.port = new_port;
    }

    /// The address bytes advertised to peers (loopback for an IPv6 address).
    pub fn get_ip_bytes(&self) -> (r: [u8; 4])
        ensures
            r@ == octets_annonces(self.local_ip),
    {
        match self.local_ip {
            AdresseIp::V4(o) => o,
            AdresseIp::V6(_) => {
                let r: [u8; 4] = [127u8, 0, 0, 1];
                assert(r@ =~= seq![127u8, 0, 0, 1]);
                r
            },
        }
    }
}

} // verus!
