//! The cryptographic primitives that the security layer draws from its outside
//! crates (`rand`, `sha2`, `hkdf`, `x25519-dalek`, `ed25519-dalek`, `aes-gcm`).
//! Each function here makes one outside call; its contract is believed, not proved.

use vstd::prelude::*;
use aes_gcm::aead::{Aead, KeyInit};
use ed25519_dalek::Signer;
use sha2::Digest;
use rand::RngCore;

verus! {

/// Largest plaintext, in bytes, that `aes-gcm` accepts (`aes_gcm::P_MAX`).
pub const AES_GCM_P_MAX: u64 = 68719476736;

/// SHA-256 digest of a byte string.
pub uninterp spec fn sha256(donnees: Seq<u8>) -> Seq<u8>;

/// The 32 bytes of output keying material that HKDF-SHA256 (no salt) expands from `ikm` and `info`.
pub uninterp spec fn hkdf_sha256_32(ikm: Seq<u8>, info: Seq<u8>) -> Seq<u8>;

/// RFC 7748 X25519 of scalar `k` and u-coordinate `u`.
pub uninterp spec fn x25519(k: Seq<u8>, u: Seq<u8>) -> Seq<u8>;

/// The Ed25519 verifying key of a 32-byte secret key.
pub uninterp spec fn ed25519_cle_publique(secret: Seq<u8>) -> Seq<u8>;

/// The (deterministic, RFC 8032) Ed25519 signature of `message` under a 32-byte secret key.
pub uninterp spec fn ed25519_signature(secret: Seq<u8>, message: Seq<u8>) -> Seq<u8>;

/// Whether `ed25519-dalek`'s strict verification accepts `signature` on `message`
/// for the encoded verifying key `cle` (false also when `cle` does not decode).
pub uninterp spec fn ed25519_verifie(cle: Seq<u8>, message: Seq<u8>, signature: Seq<u8>) -> bool;

/// AES-256-GCM ciphertext followed by its 16-byte tag, for `clair` under `cle` and `nonce`
/// (no associated data).
pub uninterp spec fn aes256gcm_scelle(cle: Seq<u8>, nonce: Seq<u8>, clair: Seq<u8>) -> Seq<u8>;

/// AES-256-GCM opening of `chiffre` (ciphertext then tag) under `cle` and `nonce`
/// (no associated data): `None` when the tag does not authenticate.
pub uninterp spec fn aes256gcm_ouvre(cle: Seq<u8>, nonce: Seq<u8>, chiffre: Seq<u8>) -> Option<Seq<u8>>;

/// The X25519 base point (u = 9), `x25519_dalek::X25519_BASEPOINT_BYTES`.
pub open spec fn point_de_base() -> Seq<u8> {
    seq![9u8, 0, 0, 0, 0, 0, 0, 0, 0, 0, 0, 0, 0, 0, 0, 0, 0, 0, 0, 0, 0, 0, 0, 0, 0, 0, 0, 0, 0, 0, 0, 0]
}

pub fn octets_point_de_base() -> (r: [u8; 32])
    ensures
        r@ == point_de_base(),
{
    let r: [u8; 32] = [9u8, 0, 0, 0, 0, 0, 0, 0, 0, 0, 0, 0, 0, 0, 0, 0, 0, 0, 0, 0, 0, 0, 0, 0, 0, 0, 0, 0, 0, 0, 0, 0];
    assert(r@ =~= point_de_base());
    r
}

/// Fills `tampon` from `rand::thread_rng()` (`RngCore::fill_bytes`). What it draws is
/// chance: only the length of the buffer is stated.
#[verifier::external_body]
pub(crate) fn remplir_aleatoire(tampon: &mut [u8])
    ensures
        final(tampon)@.len() == old(tampon)@.len(),
{
    rand::thread_rng().fill_bytes(tampon);
}

/// `sha2::Sha256::digest`: the 32-byte digest of `donnees`.
#[verifier::external_body]
pub(crate) fn sha256_digest(donnees: &[u8]) -> (r: [u8; 32])
    ensures
        r@ == sha256(donnees@),
{
    sha2::Sha256::digest(donnees).into()
}

/// `hkdf::Hkdf::<Sha256>::new(None, ikm)` then `expand(info, ..)` into 32 bytes. The source
/// refuses only outputs longer than 255 hash lengths, so this expansion always succeeds.
#[verifier::external_body]
pub(crate) fn hkdf_sha256_expand_32(ikm: &[u8; 32], info: &[u8]) -> (r: [u8; 32])
    ensures
        r@ == hkdf_sha256_32(ikm@, info@),
{
    let hk = hkdf::Hkdf::<sha2::Sha256>::new(None, ikm);
    let mut okm = [0u8; 32];
    hk.expand(info, &mut okm).expect("32 bytes is a valid HKDF-SHA256 output length");
    okm
}

/// `x25519_dalek::x25519(k, u)`: the bare X25519 function of RFC 7748. When `u` is the base
/// point, `r` is the public key of `k`, and, as the function's documentation shows, any
/// other 32-byte secret agrees with `k` on the same shared secret through it.
#[verifier::external_body]
pub(crate) fn x25519_brut(k: &[u8; 32], u: &[u8; 32]) -> (r: [u8; 32])
    ensures
        r@ == x25519(k@, u@),
        u@ == point_de_base() ==> forall|b: Seq<u8>|
            b.len() == 32 ==> #[trigger] x25519(b, r@) == x25519(k@, x25519(b, point_de_base())),
{
    x25519_dalek::x25519(*k, *u)
}

/// `ed25519_dalek::SigningKey::from_bytes(secret).verifying_key()`, encoded.
#[verifier::external_body]
pub(crate) fn ed25519_verifying_key(secret: &[u8; 32]) -> (r: [u8; 32])
    ensures
        r@ == ed25519_cle_publique(secret@),
{
    ed25519_dalek::SigningKey::from_bytes(secret).verifying_key().to_bytes()
}

/// The encoding of the identity point of edwards25519: the byte 1 then 31 zeros.
pub open spec fn point_identite() -> Seq<u8> {
    seq![1u8] + Seq::new(31, |_i: int| 0u8)
}

/// `ed25519_dalek::SigningKey::from_bytes(secret).sign(message)`, encoded. Besides naming the
/// signature, the contract states that strict verification under the secret key's own
/// verifying key accepts it unless its commitment `R` (the first 32 bytes) is the identity
/// point: the source computes `R = r·B` and `s = r + H(R, A, M)·a mod ℓ`, and `verify_strict`
/// refuses only a non-canonical `s` (it is reduced), an `R` or key of small order (an honest
/// key never is; `R` is only when `r ≡ 0 mod ℓ`, that is when it is the identity), and a
/// recomputed `R` that differs (it does not).
#[verifier::external_body]
pub(crate) fn ed25519_signer(secret: &[u8; 32], message: &[u8]) -> (r: [u8; 64])
    ensures
        r@ == ed25519_signature(secret@, message@),
        r@.take(32) != point_identite() ==> ed25519_verifie(ed25519_cle_publique(secret@), message@, r@),
{
    ed25519_dalek::SigningKey::from_bytes(secret).sign(message).to_bytes()
}

/// `ed25519_dalek::VerifyingKey::from_bytes(cle)` then `verify_strict(message, signature)`:
/// true exactly when both succeed.
#[verifier::external_body]
pub(crate) fn ed25519_verifier_strict(cle: &[u8; 32], message: &[u8], signature: &[u8; 64]) -> (r: bool)
    ensures
        r == ed25519_verifie(cle@, message@, signature@),
{
    match ed25519_dalek::VerifyingKey::from_bytes(cle) {
        Ok(k) => k.verify_strict(message, &ed25519_dalek::Signature::from_bytes(signature)).is_ok(),
        Err(_) => false,
    }
}

/// `aes_gcm::Aes256Gcm::new(cle).encrypt(nonce, clair)`. The source fails only on plaintexts
/// longer than `P_MAX`; the output is the ciphertext (as long as the plaintext) then a 16-byte
/// tag, and decrypting it with the same key and nonce gives the plaintext back (the same
/// keystream is applied again once the recomputed tag matches).
#[verifier::external_body]
pub(crate) fn aes256gcm_chiffrer(cle: &[u8; 32], nonce: &[u8; 12], clair: &[u8]) -> (r: Option<Vec<u8>>)
    ensures
        match r {
            Some(c) => {
                &&& clair@.len() <= AES_GCM_P_MAX
                &&& c@ == aes256gcm_scelle(cle@, nonce@, clair@)
                &&& c@.len() == clair@.len() + 16
                &&& aes256gcm_ouvre(cle@, nonce@, c@) == Some(clair@)
            },
            None => clair@.len() > AES_GCM_P_MAX,
        },
{
    let chiffreur = aes_gcm::Aes256Gcm::new(cle.into());
    chiffreur.encrypt(aes_gcm::Nonce::from_slice(nonce), clair).ok()
}

/// `aes_gcm::Aes256Gcm::new(cle).decrypt(nonce, chiffre)`: `None` on any error. The source
/// refuses inputs shorter than the 16-byte tag, and a plaintext is the input less its tag.
#[verifier::external_body]
pub(crate) fn aes256gcm_dechiffrer(cle: &[u8; 32], nonce: &[u8; 12], chiffre: &[u8]) -> (r: Option<Vec<u8>>)
    ensures
        match r {
            Some(p) => aes256gcm_ouvre(cle@, nonce@, chiffre@) == Some(p@),
            None => aes256gcm_ouvre(cle@, nonce@, chiffre@) is None,
        },
        chiffre@.len() < 16 ==> r is None,
{
    let chiffreur = aes_gcm::Aes256Gcm::new(cle.into());
    chiffreur.decrypt(aes_gcm::Nonce::from_slice(nonce), chiffre).ok()
}

} // verus!
