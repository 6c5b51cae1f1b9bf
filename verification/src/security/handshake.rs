//! The initiating side of the key agreement: an ephemeral X25519 key, signed with the
//! local Ed25519 identity, and the AES-256-GCM key that HKDF-SHA256 derives from a
//! shared secret.

use vstd::prelude::*;
use vstd::utf8::encode_utf8;
use crate::octets::ajouter_octets;
use crate::security::primitives::{
    sha256, sha256_digest, x25519, x25519_brut, hkdf_sha256_32, hkdf_sha256_expand_32,
    ed25519_signature, ed25519_signer, point_de_base, octets_point_de_base, remplir_aleatoire,
    ed25519_verifie, ed25519_cle_publique, point_identite,
};

verus! {

/// The first handshake message: the ephemeral public key, its signature, a signature over
/// the whole message, the identity key and the device name.
#[derive(Debug, Clone)]
pub struct MessagePoigneeDeMainInit {
    pub cle_ephemere_pub: Vec<u8>,
    pub signature_ephemere: Vec<u8>,
    pub signature_message: Vec<u8>,
    pub cle_identite: Vec<u8>,
    pub nom_appareil: String,
}

/// The answer to a handshake: the same fields as the first message, and a confirmation MAC.
#[derive(Debug, Clone)]
pub struct MessagePoigneeDeMainReponse {
    pub cle_ephemere_pub: Vec<u8>,
    pub signature_ephemere: Vec<u8>,
    pub signature_message: Vec<u8>,
    pub cle_identite: Vec<u8>,
    pub nom_appareil: String,
    pub hmac_confirmation: Vec<u8>,
}

/// A one-use X25519 secret: the 32 random bytes that the scalar is clamped from.
pub struct SecretEphemere {
    octets: [u8; 32],
}

impl SecretEphemere {
    /// The secret's bytes.
    pub closed spec fn octets(self) -> Seq<u8> {
        self.octets@
    }
}

/// The public key of an X25519 secret: X25519 of the secret and the base point.
pub open spec fn cle_publique_x25519(secret: Seq<u8>) -> Seq<u8> {
    x25519(secret, point_de_base())
}

/// The info string of the key derivation, "cargodrop-aes256-gcm".
pub open spec fn info_derivation() -> Seq<u8> {
    seq![99u8, 97, 114, 103, 111, 100, 114, 111, 112, 45, 97, 101, 115, 50, 53, 54, 45, 103, 99, 109]
}

/// The encryption key derived from a shared secret.
pub open spec fn cle_derivee(secret_partage: Seq<u8>) -> Seq<u8> {
    hkdf_sha256_32(secret_partage, info_derivation())
}

/// What the whole-message signature covers: the digest of the ephemeral public key, the
/// UTF-8 device name and the identity key, in that order.
pub open spec fn condensat_message(cle_ephemere: Seq<u8>, nom: Seq<char>, cle_identite: Seq<u8>) -> Seq<u8> {
    sha256(cle_ephemere + encode_utf8(nom) + cle_identite)
}

/// The first handshake message that the key pair `secret`/`cle_identite` builds for
/// `nom`, around the ephemeral secret `ephemere`.
pub open spec fn message_init_attendu(
    m: MessagePoigneeDeMainInit,
    secret: Seq<u8>,
    cle_identite: Seq<u8>,
    nom: Seq<char>,
    ephemere: Seq<u8>,
) -> bool {
    let cle_pub = cle_publique_x25519(ephemere);
    &&& m.cle_ephemere_pub@ == cle_pub
    &&& m.cle_ephemere_pub@.len() == 32
    &&& m.signature_ephemere@ == ed25519_signature(secret, cle_pub)
    &&& m.signature_message@ == ed25519_signature(secret, condensat_message(cle_pub, nom, cle_identite))
    &&& m.cle_identite@ == cle_identite
    &&& m.nom_appareil@ == nom
}

/// Whether the two signatures of a first handshake message verify under the identity key
/// that it carries, each unless its commitment is the identity point.
pub open spec fn signatures_valides(m: MessagePoigneeDeMainInit) -> bool {
    &&& m.signature_ephemere@.take(32) != point_identite()
        ==> ed25519_verifie(m.cle_identite@, m.cle_ephemere_pub@, m.signature_ephemere@)
    &&& m.signature_message@.take(32) != point_identite() ==> ed25519_verifie(
        m.cle_identite@,
        condensat_message(m.cle_ephemere_pub@, m.nom_appareil@, m.cle_identite@),
        m.signature_message@,
    )
}

/// The initiating side of a handshake, holding the local identity.
pub struct InitiateurPoigneeDeMain {
    cle_signature_locale: [u8; 32],
    cle_verification_locale: [u8; 32],
}

impl InitiateurPoigneeDeMain {
    /// The secret key it signs with.
    pub closed spec fn secret(self) -> Seq<u8> {
        self.cle_signature_locale@
    }

    /// The identity key it announces.
    pub closed spec fn cle_identite(self) -> Seq<u8> {
        self.cle_verification_locale@
    }

    /// An initiator signing with `cle_signature` and announcing `cle_verification`.
    pub fn nouveau(cle_signature: [u8; 32], cle_verification: [u8; 32]) -> (r: Self)
        ensures
            r.secret() == cle_signature@,
            r.cle_identite() == cle_verification@,
    {
        InitiateurPoigneeDeMain { cle_signature_locale: cle_signature, cle_verification_locale: cle_verification }
    }

    /// A fresh ephemeral secret, drawn at random, with its public key.
    pub fn creer_secret_ephemere() -> (r: (SecretEphemere, [u8; 32]))
        ensures
            r.1@ == cle_publique_x25519(r.0.octets()),
    {
        let mut octets = [0u8; 32];
        remplir_aleatoire(&mut octets);
        Self::secret_ephemere_depuis(octets)
    }

    /// The ephemeral secret made of the given bytes, with its public key.
    pub fn secret_ephemere_depuis(octets: [u8; 32]) -> (r: (SecretEphemere, [u8; 32]))
        ensures
            r.0.octets() == octets@,
            r.1@ == cle_publique_x25519(octets@),
    {
        let base = octets_point_de_base();
        let public = x25519_brut(&octets, &base);
        (SecretEphemere { octets }, public)
    }

    /// The public key of an ephemeral secret.
    pub fn secret_ephemere_depuis_secret(secret: &SecretEphemere) -> (r: [u8; 32])
        ensures
            r@ == cle_publique_x25519(secret.octets()),
    {
        let base = octets_point_de_base();
        x25519_brut(&secret.octets, &base)
    }

    /// Signs an ephemeral public key with the identity.
    pub fn signer_cle_ephemere(&self, cle_pub_ephemere: &[u8; 32]) -> (r: [u8; 64])
        ensures
            r@ == ed25519_signature(self.secret(), cle_pub_ephemere@),
            r@.take(32) != point_identite() ==> ed25519_verifie(ed25519_cle_publique(self.secret()), cle_pub_ephemere@, r@),
    {
        ed25519_signer(&self.cle_signature_locale, cle_pub_ephemere)
    }

    /// Builds the first handshake message around a fresh ephemeral secret, which it hands
    /// back for the key agreement. When the identity key it announces is its signing key's,
    /// the message's signatures verify under it.
    pub fn creer_message_init(&self, nom_appareil: String) -> (r: (MessagePoigneeDeMainInit, SecretEphemere))
        ensures
            message_init_attendu(r.0, self.secret(), self.cle_identite(), nom_appareil@, r.1.octets()),
            forall|b: Seq<u8>| b.len() == 32 ==> #[trigger] x25519(b, r.0.cle_ephemere_pub@)
                == x25519(r.1.octets(), cle_publique_x25519(b)),
            self.cle_identite() == ed25519_cle_publique(self.secret()) ==> signatures_valides(r.0),
    {
        let (secret, _) = Self::creer_secret_ephemere();
        self.creer_message_init_avec(nom_appareil, secret)
    }

    /// Builds the first handshake message around the given ephemeral secret. When the
    /// identity key it announces is its signing key's, the message's signatures verify under
    /// it.
    pub fn creer_message_init_avec(&self, nom_appareil: String, secret_ephemere: SecretEphemere) -> (r: (MessagePoigneeDeMainInit, SecretEphemere))
        ensures
            message_init_attendu(r.0, self.secret(), self.cle_identite(), nom_appareil@, secret_ephemere.octets()),
            r.1.octets() == secret_ephemere.octets(),
            forall|b: Seq<u8>| b.len() == 32 ==> #[trigger] x25519(b, r.0.cle_ephemere_pub@)
                == x25519(secret_ephemere.octets(), cle_publique_x25519(b)),
            self.cle_identite() == ed25519_cle_publique(self.secret()) ==> signatures_valides(r.0),
    {
        let base = octets_point_de_base();
        let cle_pub_ephemere = x25519_brut(&secret_ephemere.octets, &base);
        let signature_ephemere = self.signer_cle_ephemere(&cle_pub_ephemere);
        let mut contenu: Vec<u8> = Vec::new();
        ajouter_octets(&mut contenu, cle_pub_ephemere.as_slice());
        ajouter_octets(&mut contenu, nom_appareil.as_str().as_bytes());
        ajouter_octets(&mut contenu, self.cle_verification_locale.as_slice());
        let message_hash = sha256_digest(contenu.as_slice());
        let signature_message = ed25519_signer(&self.cle_signature_locale, message_hash.as_slice());
        let message = MessagePoigneeDeMainInit {
            cle_ephemere_pub: vstd::slice::slice_to_vec(cle_pub_ephemere.as_slice()),
            signature_ephemere: vstd::slice::slice_to_vec(signature_ephemere.as_slice()),
            signature_message: vstd::slice::slice_to_vec(signature_message.as_slice()),
            cle_identite: vstd::slice::slice_to_vec(self.cle_verification_locale.as_slice()),
            nom_appareil,
        };
        (message, secret_ephemere)
    }

    /// The X25519 shared secret of an ephemeral secret and a peer's ephemeral public key.
    pub fn deriver_secret_partage(secret_ephemere: SecretEphemere, cle_pub_ephemere_pair: &[u8; 32]) -> (r: [u8; 32])
        ensures
            r@ == x25519(secret_ephemere.octets(), cle_pub_ephemere_pair@),
    {
        x25519_brut(&secret_ephemere.octets, cle_pub_ephemere_pair)
    }

    /// The AES-256-GCM key derived from a shared secret.
    pub fn deriver_cle_chiffrement(secret_partage: &[u8; 32]) -> (r: [u8; 32])
        ensures
            r@ == cle_derivee(secret_partage@),
    {
        let info: [u8; 20] = [99u8, 97, 114, 103, 111, 100, 114, 111, 112, 45, 97, 101, 115, 50, 53, 54, 45, 103, 99, 109];
        assert(info@ =~= info_derivation());
        hkdf_sha256_expand_32(secret_partage, info.as_slice())
    }
}

} // verus!
