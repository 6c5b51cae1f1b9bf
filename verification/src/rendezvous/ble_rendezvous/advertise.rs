//! Building the advertised payload.

use vstd::prelude::*;
use vstd::utf8::{
    encode_utf8, decode_utf8, valid_utf8, is_char_boundary, encode_utf8_valid_utf8,
    is_char_boundary_start_end_of_seq, valid_utf8_split, decode_utf8_split, encode_utf8_decode_utf8,
};
use crate::octets::{be_u16, octets_be_u16, lemme_be_u16, u16_be, ajouter_octets};
use crate::rendezvous::ble_rendezvous::{
    MAX_RAW_PAYLOAD_BYTES, USERNAME_OFFSET, base64_url_encode, encoder_base64, lemme_base64_aller_retour,
};
use crate::rendezvous::ble_rendezvous::discover::{lecture_nom, lecture_charge};
use crate::user_info::{UserInfo, octets_annonces};
use crate::security::identity::{GestionnaireIdentite, identifiant_court};

verus! {

/// The largest byte index, at most `e`, that is a character boundary of `b`.
pub open spec fn dernier_bord(b: Seq<u8>, e: nat) -> nat
    decreases e,
{
    if e == 0 {
        0
    } else if is_char_boundary(b, e as int) {
        e
    } else {
        dernier_bord(b, (e - 1) as nat)
    }
}

/// Room for the name in the payload, in bytes.
pub open spec fn place_nom() -> nat {
    (MAX_RAW_PAYLOAD_BYTES - USERNAME_OFFSET) as nat
}

/// The name bytes that go into the payload: all of the name's UTF-8 when it fits, else the
/// longest prefix that fits and ends on a character boundary.
pub open spec fn octets_nom_charge(nom: Seq<char>) -> Seq<u8> {
    let b = encode_utf8(nom);
    if b.len() <= place_nom() {
        b
    } else {
        b.take(dernier_bord(b, place_nom()) as int)
    }
}

/// The name as the payload carries it.
pub open spec fn nom_charge(nom: Seq<char>) -> Seq<char> {
    decode_utf8(octets_nom_charge(nom))
}

/// The raw payload for an address, a port and the name bytes.
pub open spec fn charge_brute(ip: Seq<u8>, port: u16, nom: Seq<u8>) -> Seq<u8> {
    ip + be_u16(port) + seq![nom.len() as u8] + nom
}

proof fn lemme_dernier_bord(b: Seq<u8>, e: nat)
    requires
        valid_utf8(b),
        e <= b.len(),
    ensures
        dernier_bord(b, e) <= e,
        is_char_boundary(b, dernier_bord(b, e) as int),
    decreases e,
{
    is_char_boundary_start_end_of_seq(b);
    if e > 0 && !is_char_boundary(b, e as int) {
        lemme_dernier_bord(b, (e - 1) as nat);
    }
}

/// The payload name is valid UTF-8, fits, and is a prefix of the name.
pub proof fn lemme_nom_charge(nom: Seq<char>)
    ensures
        valid_utf8(octets_nom_charge(nom)),
        encode_utf8(nom_charge(nom)) == octets_nom_charge(nom),
        octets_nom_charge(nom).len() <= place_nom(),
        nom.take(nom_charge(nom).len() as int) == nom_charge(nom),
{
    let b = encode_utf8(nom);
    encode_utf8_valid_utf8(nom);
    encode_utf8_decode_utf8(nom);
    let k: int = if b.len() <= place_nom() { b.len() as int } else { dernier_bord(b, place_nom()) as int };
    if b.len() <= place_nom() {
        is_char_boundary_start_end_of_seq(b);
        assert(b.subrange(0, k) =~= b);
    } else {
        lemme_dernier_bord(b, place_nom());
    }
    assert(octets_nom_charge(nom) == b.subrange(0, k));
    valid_utf8_split(b, k);
    decode_utf8_split(b, k);
    vstd::utf8::decode_utf8_encode_utf8(b.subrange(0, k));
    let p = decode_utf8(b.subrange(0, k));
    assert(nom == p + decode_utf8(b.subrange(k, b.len() as int)));
    assert(nom.take(p.len() as int) =~= p);
}

/// Room for the name in the payload, in bytes.
pub fn max_username_payload_bytes() -> (r: usize)
    ensures
        r == place_nom(),
{
    MAX_RAW_PAYLOAD_BYTES - USERNAME_OFFSET
}

/// Cuts a name to the payload's room, on a character boundary.
pub fn truncate_username_for_payload(username: &str) -> (r: String)
    ensures
        r@ == nom_charge(username@),
        encode_utf8(r@) == octets_nom_charge(username@),
        encode_utf8(r@).len() <= place_nom(),
        username@.take(r@.len() as int) == r@,
{
    let max_bytes = max_username_payload_bytes();
    proof {
        lemme_nom_charge(username@);
        encode_utf8_valid_utf8(username@);
        encode_utf8_decode_utf8(username@);
    }
    let octets = username.as_bytes();
    if octets.len() <= max_bytes {
        let r = username.to_owned();
        assert(encode_utf8(username@).len() <= place_nom());
        assert(octets_nom_charge(username@) == encode_utf8(username@));
        return r;
    }
    let ghost b = encode_utf8(username@);
    let mut end = max_bytes;
    while !username.is_char_boundary(end)
        invariant
            0 <= end <= max_bytes,
            b == encode_utf8(username@),
            valid_utf8(b),
            b.len() > max_bytes,
            max_bytes == place_nom(),
            dernier_bord(b, end as nat) == dernier_bord(b, place_nom()),
        decreases end,
    {
        proof {
            is_char_boundary_start_end_of_seq(b);
        }
        end = end - 1;
    }
    let (debut, _) = username.split_at(end);
    let r = debut.to_owned();
    proof {
        assert(encode_utf8(r@) =~= octets_nom_charge(username@));
        vstd::utf8::encode_utf8_decode_utf8(r@);
    }
    r
}

/// Encodes an address, a port and a name (cut to the payload's room) into the advertised
/// device name. Reading that name back gives the same address, port and cut name.
pub fn encode_network_info_to_name(ipv4: [u8; 4], port: u16, username: &str) -> (r: String)
    ensures
        r@ == base64_url_encode(charge_brute(ipv4@, port, octets_nom_charge(username@))),
        lecture_nom(r@) == Some((ipv4@, port, nom_charge(username@))),
{
    let truncated = truncate_username_for_payload(username);
    let username_bytes = truncated.as_str().as_bytes();
    let mut bytes: Vec<u8> = Vec::with_capacity(USERNAME_OFFSET + username_bytes.len());
    ajouter_octets(&mut bytes, ipv4.as_slice());
    let port_octets = octets_be_u16(port);
    ajouter_octets(&mut bytes, port_octets.as_slice());
    bytes.push(username_bytes.len() as u8);
    ajouter_octets(&mut bytes, username_bytes);
    let ghost nom = octets_nom_charge(username@);
    assert(bytes@ =~= charge_brute(ipv4@, port, nom));
    let r = encoder_base64(bytes.as_slice());
    proof {
        lemme_base64_aller_retour(bytes@);
        lemme_nom_charge(username@);
        lemme_be_u16(port);
        let brut = bytes@;
        assert(brut[6] == nom.len() as u8);
        assert(brut.take(4) =~= ipv4@);
        assert(brut.skip(7) =~= nom);
        assert(u16_be(brut[4], brut[5]) == port);
        assert(lecture_charge(brut) == Some((ipv4@, port, nom_charge(username@))));
    }
    r
}

} // verus!

verus! {

/// The address bytes and port that a user advertises.
pub fn get_local_network_info(user: &UserInfo) -> (r: ([u8; 4], u16))
    ensures
        r.0@ == octets_annonces(user.local_ip),
        r.1 == user.port,
{
    (user.get_ip_bytes(), user.port)
}

/// The name that a user advertises, before it is cut.
pub fn get_local_username(user: &UserInfo) -> (r: String)
    ensures
        r == user.username,
{
    user.username.clone()
}

/// The name shown for a user: the name cut to the payload's room, an underscore, and the
/// short identifier of the identity key.
pub open spec fn nom_affiche(nom: Seq<char>, cle_publique: Seq<u8>) -> Seq<char> {
    nom_charge(nom) + seq!['_'] + identifiant_court(cle_publique)
}

/// What a user advertises: the address bytes, the port, the shown name, and the device
/// name that carries them (in which the shown name is cut again to the payload's room).
pub fn build_advertisement_payload(user: &UserInfo, identite: &GestionnaireIdentite) -> (r: ([u8; 4], u16, String, String))
    ensures
        r.0@ == octets_annonces(user.local_ip),
        r.1 == user.port,
        r.2@ == nom_affiche(user.username@, identite.cle_verification()),
        r.3@ == base64_url_encode(charge_brute(r.0@, r.1, octets_nom_charge(r.2@))),
        lecture_nom(r.3@) == Some((r.0@, r.1, nom_charge(r.2@))),
{
    let (ip, port) = get_local_network_info(user);
    let username = get_local_username(user);
    let mut display_name = truncate_username_for_payload(username.as_str());
    let identifiant = identite.identifiant_court_local();
    let separateur = "_";
    proof {
        reveal_strlit("_");
    }
    display_name.append(separateur);
    display_name.append(identifiant.as_str());
    assert(display_name@ =~= nom_affiche(user.username@, identite.cle_verification()));
    let payload = encode_network_info_to_name(ip, port, display_name.as_str());
    (ip, port, display_name, payload)
}

} // verus!
