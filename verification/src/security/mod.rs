//! Identity, handshake and block encryption of a secure session.

pub mod primitives;
pub mod encryption;
pub mod identity;
pub mod handshake;

use vstd::prelude::*;
use crate::security::identity::{GestionnaireIdentite, identifiant_court};
use crate::security::handshake::{
    InitiateurPoigneeDeMain, MessagePoigneeDeMainInit, SecretEphemere, cle_publique_x25519, cle_derivee,
    message_init_attendu, signatures_valides,
};
use crate::security::encryption::{
    CipherManager, DecipherManager, EtatChiffreur, EtatDechiffreur, bloc_chiffre, bloc_dechiffre,
    chiffreur_apres, dechiffreur_apres, accordes,
};
use crate::security::primitives::x25519;

verus! {

/// Why an operation of the security layer was refused.
#[derive(Debug, Clone, Copy, PartialEq, Eq, Structural)]
pub enum ErreurSecurite {
    /// A plaintext block to encrypt is empty.
    BlocVide,
    /// A plaintext block to encrypt is longer than 65536 bytes (its length).
    BlocTropGrand(usize),
    /// The cipher refused the plaintext.
    EchecChiffrement,
    /// An encrypted block is shorter than its 8-byte block number.
    BlocTropCourt,
    /// An encrypted block is longer than `MAX_BLOC_SIZE` (its length).
    BlocSurdimensionne(usize),
    /// An encrypted block carries another number than the one expected next.
    BlocHorsOrdre { attendu: u64, recu: u64 },
    /// The authentication tag of an encrypted block does not match.
    EchecDechiffrement,
    /// Encryption was asked for before it was activated.
    ChiffrementNonActive,
    /// Decryption was asked for before it was activated.
    DechiffrementNonActive,
    /// A signature does not verify under the given key.
    SignatureInvalide,
}


/// The device name that a session announces in its handshake, "cargodrop-client".
pub open spec fn nom_client() -> Seq<char> {
    seq!['c', 'a', 'r', 'g', 'o', 'd', 'r', 'o', 'p', '-', 'c', 'l', 'i', 'e', 'n', 't']
}

/// The key that a handshake agrees on: HKDF of the X25519 agreement of the local ephemeral
/// secret `e` with the peer's ephemeral public key `pair`.
pub open spec fn cle_session(e: Seq<u8>, pair: Seq<u8>) -> Seq<u8> {
    cle_derivee(x25519(e, pair))
}

/// A session: the local identity, and the block cipher and decipher once activated.
pub struct SecureSession {
    pub identite: GestionnaireIdentite,
    pub cipher: Option<CipherManager>,
    pub decipher: Option<DecipherManager>,
}

impl SecureSession {
    /// A session with a fresh random identity, encryption not yet activated.
    pub fn new(_nom_appareil: String) -> (r: Self)
        ensures
            r.cipher is None,
            r.decipher is None,
    {
        Self::avec_identite(GestionnaireIdentite::nouveau())
    }

    /// A session with the given identity, encryption not yet activated.
    pub fn avec_identite(identite: GestionnaireIdentite) -> (r: Self)
        ensures
            r.identite == identite,
            r.cipher is None,
            r.decipher is None,
    {
        SecureSession { identite, cipher: None, decipher: None }
    }

    /// Whether the session can encrypt and decrypt, its cipher and decipher in step: what
    /// the one encrypts, the other decrypts.
    pub open spec fn en_phase(self) -> bool {
        &&& self.cipher matches Some(c)
        &&& self.decipher matches Some(d)
        &&& accordes(c@, d@)
    }

    /// Starts a handshake around a fresh ephemeral secret: the first message, which carries
    /// the secret's public key, and the secret, kept for `terminer_handshake`. A peer whose
    /// own ephemeral secret is `b` derives from this message the key that the kept secret
    /// derives from the public key of `b`: both ends of the exchange agree. The message's
    /// signatures verify under the identity key it carries.
    pub fn initier_handshake(&self) -> (r: (MessagePoigneeDeMainInit, SecretEphemere))
        ensures
            message_init_attendu(
                r.0,
                self.identite.secret(),
                self.identite.cle_verification(),
                nom_client(),
                r.1.octets(),
            ),
            forall|b: Seq<u8>| b.len() == 32 ==> #[trigger] cle_session(b, r.0.cle_ephemere_pub@)
                == cle_session(r.1.octets(), cle_publique_x25519(b)),
            signatures_valides(r.0),
    {
        let (secret, _) = InitiateurPoigneeDeMain::creer_secret_ephemere();
        self.initier_handshake_avec(secret)
    }

    /// Starts a handshake around the given ephemeral secret: the first message, which
    /// carries the secret's public key, and the secret itself; both ends of the exchange
    /// agree on the key, as for `initier_handshake`.
    pub fn initier_handshake_avec(&self, secret: SecretEphemere) -> (r: (MessagePoigneeDeMainInit, SecretEphemere))
        ensures
            message_init_attendu(
                r.0,
                self.identite.secret(),
                self.identite.cle_verification(),
                nom_client(),
                secret.octets(),
            ),
            r.1.octets() == secret.octets(),
            forall|b: Seq<u8>| b.len() == 32 ==> #[trigger] cle_session(b, r.0.cle_ephemere_pub@)
                == cle_session(secret.octets(), cle_publique_x25519(b)),
            signatures_valides(r.0),
    {
        let handshake = InitiateurPoigneeDeMain::nouveau(
            self.identite.get_cle_signature(),
            self.identite.get_cle_verification(),
        );
        let nom = "cargodrop-client";
        proof {
            reveal_strlit("cargodrop-client");
            assert(nom@ =~= nom_client());
        }
        handshake.creer_message_init_avec(nom.to_owned(), secret)
    }

    /// Ends a handshake: the encryption key that the kept ephemeral secret agrees on with the
    /// ephemeral public key of the peer's message; `None` when that key is not 32 bytes.
    pub fn terminer_handshake(secret: SecretEphemere, message_pair: &MessagePoigneeDeMainInit) -> (r: Option<[u8; 32]>)
        ensures
            r is Some <==> message_pair.cle_ephemere_pub@.len() == 32,
            r matches Some(k) ==> k@ == cle_session(secret.octets(), message_pair.cle_ephemere_pub@),
    {
        let c = &message_pair.cle_ephemere_pub;
        if c.len() != 32 {
            return None;
        }
        let cle_pair: [u8; 32] = [
            c[0], c[1], c[2], c[3], c[4], c[5], c[6], c[7], c[8], c[9], c[10], c[11], c[12], c[13], c[14], c[15],
            c[16], c[17], c[18], c[19], c[20], c[21], c[22], c[23], c[24], c[25], c[26], c[27], c[28], c[29], c[30], c[31],
        ];
        assert(cle_pair@ =~= c@);
        let secret_partage = InitiateurPoigneeDeMain::deriver_secret_partage(secret, &cle_pair);
        Some(InitiateurPoigneeDeMain::deriver_cle_chiffrement(&secret_partage))
    }

    /// Activates encryption under `cle`: a cipher and a decipher in step, both starting at
    /// block zero with a nonce prefix of four zeros.
    pub fn activer_chiffrement(&mut self, cle_chiffrement: &[u8; 32])
        ensures
            final(self).identite == old(self).identite,
            final(self).cipher matches Some(c) && c@ == (EtatChiffreur {
                cle: cle_chiffrement@,
                numero: 0,
                prefixe: seq![0u8, 0u8, 0u8, 0u8],
            }),
            final(self).decipher matches Some(d) && d@ == (EtatDechiffreur {
                cle: cle_chiffrement@,
                attendu: 0,
                prefixe: seq![0u8, 0u8, 0u8, 0u8],
            }),
            final(self).en_phase(),
    {
        self.cipher = Some(CipherManager::nouveau(cle_chiffrement));
        self.decipher = Some(DecipherManager::nouveau(cle_chiffrement));
    }

    /// Activates encryption under `cle`, cipher and decipher both using the given nonce
    /// prefix.
    pub fn activer_chiffrement_avec_prefixe(&mut self, cle_chiffrement: &[u8; 32], prefixe: [u8; 4])
        ensures
            final(self).identite == old(self).identite,
            final(self).cipher matches Some(c) && c@ == (EtatChiffreur { cle: cle_chiffrement@, numero: 0, prefixe: prefixe@ }),
            final(self).decipher matches Some(d) && d@ == (EtatDechiffreur {
                cle: cle_chiffrement@,
                attendu: 0,
                prefixe: prefixe@,
            }),
            final(self).en_phase(),
    {
        self.cipher = Some(CipherManager::avec_prefixe(cle_chiffrement, prefixe));
        self.decipher = Some(DecipherManager::avec_prefixe(cle_chiffrement, prefixe));
    }

    /// Encrypts one block with the activated cipher.
    pub fn chiffrer(&mut self, donnees: &[u8]) -> (r: Result<Vec<u8>, ErreurSecurite>)
        requires
            match old(self).cipher {
                Some(c) => bloc_chiffre(c@, donnees@) is Ok ==> c@.numero < u64::MAX,
                None => true,
            },
        ensures
            final(self).identite == old(self).identite,
            final(self).decipher == old(self).decipher,
            match old(self).cipher {
                None => r == Err::<Vec<u8>, ErreurSecurite>(ErreurSecurite::ChiffrementNonActive)
                    && final(self).cipher is None,
                Some(c) => {
                    &&& final(self).cipher matches Some(c2) && c2@ == chiffreur_apres(c@, donnees@)
                    &&& match r {
                        Ok(b) => bloc_chiffre(c@, donnees@) == Ok::<Seq<u8>, ErreurSecurite>(b@)
                            && b@.len() == donnees@.len() + 24
                            && forall|d: EtatDechiffreur| accordes(c@, d) && d.attendu < u64::MAX
                                ==> #[trigger] bloc_dechiffre(d, b@) == Ok::<Seq<u8>, ErreurSecurite>(donnees@),
                        Err(e) => bloc_chiffre(c@, donnees@) == Err::<Seq<u8>, ErreurSecurite>(e),
                    }
                },
            },
    {
        match self.cipher.take() {
            None => Err(ErreurSecurite::ChiffrementNonActive),
            Some(mut c) => {
                let r = c.chiffrer_bloc(donnees);
                self.cipher = Some(c);
                r
            },
        }
    }

    /// Decrypts one wire block with the activated decipher.
    pub fn dechiffrer(&mut self, donnees_chiffrees: &[u8]) -> (r: Result<Vec<u8>, ErreurSecurite>)
        requires
            match old(self).decipher {
                Some(d) => bloc_dechiffre(d@, donnees_chiffrees@) is Ok ==> d@.attendu < u64::MAX,
                None => true,
            },
        ensures
            final(self).identite == old(self).identite,
            final(self).cipher == old(self).cipher,
            match old(self).decipher {
                None => r == Err::<Vec<u8>, ErreurSecurite>(ErreurSecurite::DechiffrementNonActive)
                    && final(self).decipher is None,
                Some(d) => {
                    &&& final(self).decipher matches Some(d2) && d2@ == dechiffreur_apres(d@, donnees_chiffrees@)
                    &&& match r {
                        Ok(b) => bloc_dechiffre(d@, donnees_chiffrees@) == Ok::<Seq<u8>, ErreurSecurite>(b@),
                        Err(e) => bloc_dechiffre(d@, donnees_chiffrees@) == Err::<Seq<u8>, ErreurSecurite>(e),
                    }
                },
            },
    {
        match self.decipher.take() {
            None => Err(ErreurSecurite::DechiffrementNonActive),
            Some(mut d) => {
                let r = d.dechiffrer_bloc(donnees_chiffrees);
                self.decipher = Some(d);
                r
            },
        }
    }

    /// Encrypts one block when the activated cipher's counter has room for it: `None`, the
    /// session unchanged, when the counter is full; otherwise what `chiffrer` gives.
    pub fn essayer_chiffrer(&mut self, donnees: &[u8]) -> (r: Option<Result<Vec<u8>, ErreurSecurite>>)
        ensures
            (old(self).cipher matches Some(c) && c@.numero == u64::MAX) ==> r is None && *final(self) == *old(self),
            !(old(self).cipher matches Some(c) && c@.numero == u64::MAX) ==> {
                &&& r matches Some(res)
                &&& final(self).identite == old(self).identite
                &&& final(self).decipher == old(self).decipher
                &&& match old(self).cipher {
                    None => res == Err::<Vec<u8>, ErreurSecurite>(ErreurSecurite::ChiffrementNonActive)
                        && final(self).cipher is None,
                    Some(c) => {
                        &&& final(self).cipher matches Some(c2) && c2@ == chiffreur_apres(c@, donnees@)
                        &&& match res {
                            Ok(b) => bloc_chiffre(c@, donnees@) == Ok::<Seq<u8>, ErreurSecurite>(b@)
                                && forall|d: EtatDechiffreur| accordes(c@, d) && d.attendu < u64::MAX
                                    ==> #[trigger] bloc_dechiffre(d, b@) == Ok::<Seq<u8>, ErreurSecurite>(donnees@),
                            Err(e) => bloc_chiffre(c@, donnees@) == Err::<Seq<u8>, ErreurSecurite>(e),
                        }
                    },
                }
            },
    {
        let plein = match &self.cipher {
            Some(c) => c.obtenir_numero_bloc() == u64::MAX,
            None => false,
        };
        if plein {
            return None;
        }
        Some(self.chiffrer(donnees))
    }

    /// Decrypts one wire block when the activated decipher's counter has room for another:
    /// `None`, the session unchanged, when the counter is full; otherwise what `dechiffrer`
    /// gives.
    pub fn essayer_dechiffrer(&mut self, donnees_chiffrees: &[u8]) -> (r: Option<Result<Vec<u8>, ErreurSecurite>>)
        ensures
            (old(self).decipher matches Some(d) && d@.attendu == u64::MAX) ==> r is None && *final(self) == *old(self),
            !(old(self).decipher matches Some(d) && d@.attendu == u64::MAX) ==> {
                &&& r matches Some(res)
                &&& final(self).identite == old(self).identite
                &&& final(self).cipher == old(self).cipher
                &&& match old(self).decipher {
                    None => res == Err::<Vec<u8>, ErreurSecurite>(ErreurSecurite::DechiffrementNonActive)
                        && final(self).decipher is None,
                    Some(d) => {
                        &&& final(self).decipher matches Some(d2) && d2@ == dechiffreur_apres(d@, donnees_chiffrees@)
                        &&& match res {
                            Ok(b) => bloc_dechiffre(d@, donnees_chiffrees@) == Ok::<Seq<u8>, ErreurSecurite>(b@),
                            Err(e) => bloc_dechiffre(d@, donnees_chiffrees@) == Err::<Seq<u8>, ErreurSecurite>(e),
                        }
                    },
                }
            },
    {
        let plein = match &self.decipher {
            Some(d) => d.obtenir_numero_bloc_attendu() == u64::MAX,
            None => false,
        };
        if plein {
            return None;
        }
        Some(self.dechiffrer(donnees_chiffrees))
    }

    /// The first four characters of the fingerprint of the session's identity key.
    pub fn get_identifiant_court(&self) -> (r: String)
        ensures
            r@ == identifiant_court(self.identite.cle_verification()),
    {
        self.identite.identifiant_court_local()
    }
}

} // verus!
