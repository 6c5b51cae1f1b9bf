//! Cryptographic identity of a peer: an Ed25519 key pair and the fingerprint that peers
//! compare to recognise each other.

use vstd::prelude::*;
use crate::octets::{hex_minuscule, vers_hex, lemme_prefixe_ascii, lemme_utf8_injectif, lemme_hex_ascii, lemme_prefixe_ascii_est_ascii, lemme_bord_ascii};
use vstd::utf8::{encode_utf8, is_ascii_chars};
use crate::security::primitives::{
    sha256, sha256_digest, ed25519_cle_publique, ed25519_signature, ed25519_verifie,
    ed25519_verifying_key, ed25519_signer, ed25519_verifier_strict, remplir_aleatoire, point_identite,
};
use crate::security::ErreurSecurite;

verus! {

/// The fingerprint of a public key: the first 16 lowercase hexadecimal digits of its
/// SHA-256 digest.
pub open spec fn empreinte(cle_publique: Seq<u8>) -> Seq<char> {
    hex_minuscule(sha256(cle_publique)).take(16)
}

/// The short identifier of a public key: the first four characters of its fingerprint.
pub open spec fn identifiant_court(cle_publique: Seq<u8>) -> Seq<char> {
    empreinte(cle_publique).take(4)
}

/// The public identity of a peer: its verifying key, the fingerprint of that key, and its
/// device name.
#[derive(Debug, Clone)]
pub struct IdentitePair {
    pub cle_publique: Vec<u8>,
    pub empreinte: String,
    pub nom_appareil: String,
}

/// A local Ed25519 key pair: the secret key and the verifying key that it determines.
#[derive(Clone, Copy)]
pub struct GestionnaireIdentite {
    cle_signature_locale: [u8; 32],
    cle_verification_locale: [u8; 32],
}

impl GestionnaireIdentite {
    #[verifier::type_invariant]
    spec fn bien_forme(self) -> bool {
        self.cle_verification_locale@ == ed25519_cle_publique(self.cle_signature_locale@)
    }

    /// The 32-byte secret key.
    pub closed spec fn secret(self) -> Seq<u8> {
        self.cle_signature_locale@
    }

    /// The 32-byte encoded verifying key, which the secret key determines.
    pub open spec fn cle_verification(self) -> Seq<u8> {
        ed25519_cle_publique(self.secret())
    }

    /// A fresh identity whose secret key is drawn at random.
    pub fn nouveau() -> (r: Self)
        ensures
            r.secret().len() == 32,
    {
        let mut secret = [0u8; 32];
        remplir_aleatoire(&mut secret);
        Self::depuis_secret(secret)
    }

    /// The identity of a given 32-byte secret key.
    pub fn depuis_secret(secret: [u8; 32]) -> (r: Self)
        ensures
            r.secret() == secret@,
    {
        let verification = ed25519_verifying_key(&secret);
        GestionnaireIdentite { cle_signature_locale: secret, cle_verification_locale: verification }
    }

    /// The encoded verifying key.
    pub fn obtenir_cle_verification_locale(&self) -> (r: Vec<u8>)
        ensures
            r@ == self.cle_verification(),
    {
        proof { use_type_invariant(self); }
        let v = self.cle_verification_locale.as_slice();
        vstd::slice::slice_to_vec(v)
    }

    /// The fingerprint of a public key.
    pub fn creer_empreinte(cle_publique: &[u8]) -> (r: String)
        ensures
            r@ == empreinte(cle_publique@),
            r@.len() == 16,
            sha256(cle_publique@).len() == 32,
    {
        let hash = sha256_digest(cle_publique);
        let r = vers_hex(hash.as_slice(), 8);
        proof {
            let h = sha256(cle_publique@);
            assert(hex_minuscule(h.take(8)) =~= hex_minuscule(h).take(16));
        }
        r
    }

    /// This identity as others see it, under the given device name.
    pub fn creer_identite_locale(&self, nom_appareil: String) -> (r: IdentitePair)
        ensures
            r.cle_publique@ == self.cle_verification(),
            r.empreinte@ == empreinte(self.cle_verification()),
            r.nom_appareil == nom_appareil,
    {
        let cle_pub_bytes = self.obtenir_cle_verification_locale();
        let empreinte = Self::creer_empreinte(cle_pub_bytes.as_slice());
        IdentitePair { cle_publique: cle_pub_bytes, empreinte, nom_appareil }
    }

    /// Signs `donnees` with the secret key (deterministic Ed25519). The signature verifies
    /// under this identity's verifying key unless its commitment is the identity point.
    pub fn signer(&self, donnees: &[u8]) -> (r: [u8; 64])
        ensures
            r@ == ed25519_signature(self.secret(), donnees@),
            r@.take(32) != point_identite() ==> ed25519_verifie(self.cle_verification(), donnees@, r@),
    {
        proof { use_type_invariant(self); }
        ed25519_signer(&self.cle_signature_locale, donnees)
    }

    /// Checks a signature on `donnees` against the first 32 bytes of a peer's public key.
    pub fn verifier_signature(cle_publique_pair: &[u8], donnees: &[u8], signature_bytes: &[u8; 64]) -> (r: Result<(), ErreurSecurite>)
        requires
            cle_publique_pair@.len() >= 32,
        ensures
            r is Ok <==> ed25519_verifie(cle_publique_pair@.take(32), donnees@, signature_bytes@),
            r is Err ==> r == Err::<(), ErreurSecurite>(ErreurSecurite::SignatureInvalide),
    {
        let c = cle_publique_pair;
        let cle: [u8; 32] = [
            c[0], c[1], c[2], c[3], c[4], c[5], c[6], c[7], c[8], c[9], c[10], c[11], c[12], c[13], c[14], c[15],
            c[16], c[17], c[18], c[19], c[20], c[21], c[22], c[23], c[24], c[25], c[26], c[27], c[28], c[29], c[30], c[31],
        ];
        assert(cle@ =~= c@.take(32));
        if ed25519_verifier_strict(&cle, donnees, signature_bytes) {
            Ok(())
        } else {
            Err(ErreurSecurite::SignatureInvalide)
        }
    }

    /// The first four characters of a fingerprint.
    pub fn creer_identifiant_court(empreinte: &str) -> (r: String)
        requires
            vstd::utf8::is_char_boundary(encode_utf8(empreinte@), 4),
        ensures
            encode_utf8(r@) == encode_utf8(empreinte@).take(4),
            is_ascii_chars(empreinte@) && empreinte@.len() >= 4 ==> r@ == empreinte@.take(4),
    {
        let (debut, _) = empreinte.split_at(4);
        let r = debut.to_owned();
        proof {
            assert(encode_utf8(r@) =~= encode_utf8(empreinte@).take(4));
            if is_ascii_chars(empreinte@) && empreinte@.len() >= 4 {
                lemme_prefixe_ascii(empreinte@, 4);
                lemme_utf8_injectif(r@, empreinte@.take(4));
            }
        }
        r
    }

    /// The short identifier of this identity's verifying key.
    pub(crate) fn identifiant_court_local(&self) -> (r: String)
        ensures
            r@ == identifiant_court(self.cle_verification()),
    {
        let cle = self.obtenir_cle_verification_locale();
        let empreinte = Self::creer_empreinte(cle.as_slice());
        proof {
            let h = hex_minuscule(sha256(cle@));
            lemme_hex_ascii(sha256(cle@));
            lemme_prefixe_ascii_est_ascii(h, 16);
            lemme_bord_ascii(empreinte@, 4);
        }
        Self::creer_identifiant_court(empreinte.as_str())
    }

    /// The secret key.
    pub fn get_cle_signature(&self) -> (r: [u8; 32])
        ensures
            r@ == self.secret(),
    {
        self.cle_signature_locale
    }

    /// The verifying key.
    pub fn get_cle_verification(&self) -> (r: [u8; 32])
        ensures
            r@ == self.cle_verification(),
    {
        proof { use_type_invariant(self); }
        self.cle_verification_locale
    }
}

} // verus!
