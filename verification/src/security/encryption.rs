//! Block encryption with AES-256-GCM. A block on the wire is its 8-byte little-endian
//! number followed by the ciphertext and tag; the nonce is that number followed by a
//! 4-byte prefix. Numbers start at zero and go up by one per block, and the receiving
//! side accepts only the number it expects next.

use vstd::prelude::*;
use crate::octets::{le_u64, u64_le, lemme_le_u64, octets_le_u64, lire_u64_le};
use crate::security::primitives::{aes256gcm_scelle, aes256gcm_ouvre, aes256gcm_chiffrer, aes256gcm_dechiffrer};
use crate::security::ErreurSecurite;

verus! {

/// Largest plaintext block, in bytes.
pub const TAILLE_MAX_CLAIR: usize = 65536;

/// Largest encrypted block accepted: a full plaintext block, its number and its tag.
pub const MAX_BLOC_SIZE: usize = 65536 + 8 + 16;

/// Smallest encrypted block that a non-empty plaintext can give, less its plaintext.
pub const MIN_BLOC_SIZE: usize = 8 + 16;

/// What a `CipherManager` holds, as plain values.
pub ghost struct EtatChiffreur {
    pub cle: Seq<u8>,
    pub numero: u64,
    pub prefixe: Seq<u8>,
}

/// What a `DecipherManager` holds, as plain values.
pub ghost struct EtatDechiffreur {
    pub cle: Seq<u8>,
    pub attendu: u64,
    pub prefixe: Seq<u8>,
}

/// The nonce of a block: its number's little-endian bytes then the prefix.
pub open spec fn nonce_bloc(numero: Seq<u8>, prefixe: Seq<u8>) -> Seq<u8> {
    numero + prefixe
}

/// What encrypting `clair` in state `e` gives: the wire block, or the reason it is refused.
pub open spec fn bloc_chiffre(e: EtatChiffreur, clair: Seq<u8>) -> Result<Seq<u8>, ErreurSecurite> {
    if clair.len() == 0 {
        Err(ErreurSecurite::BlocVide)
    } else if clair.len() > TAILLE_MAX_CLAIR {
        Err(ErreurSecurite::BlocTropGrand(clair.len() as usize))
    } else {
        Ok(le_u64(e.numero) + aes256gcm_scelle(e.cle, nonce_bloc(le_u64(e.numero), e.prefixe), clair))
    }
}

/// The state after encrypting `clair` in state `e`: the number moves on after a block only.
pub open spec fn chiffreur_apres(e: EtatChiffreur, clair: Seq<u8>) -> EtatChiffreur {
    if bloc_chiffre(e, clair) is Ok {
        EtatChiffreur { numero: (e.numero + 1) as u64, ..e }
    } else {
        e
    }
}

/// What decrypting the wire block `bloc` in state `e` gives: the plaintext, or the reason it
/// is refused. Sizes are checked before the number, and the number before the tag.
pub open spec fn bloc_dechiffre(e: EtatDechiffreur, bloc: Seq<u8>) -> Result<Seq<u8>, ErreurSecurite> {
    if bloc.len() < 8 {
        Err(ErreurSecurite::BlocTropCourt)
    } else if bloc.len() > MAX_BLOC_SIZE {
        Err(ErreurSecurite::BlocSurdimensionne(bloc.len() as usize))
    } else if u64_le(bloc) != e.attendu {
        Err(ErreurSecurite::BlocHorsOrdre { attendu: e.attendu, recu: u64_le(bloc) })
    } else {
        match aes256gcm_ouvre(e.cle, nonce_bloc(bloc.take(8), e.prefixe), bloc.skip(8)) {
            Some(clair) => Ok(clair),
            None => Err(ErreurSecurite::EchecDechiffrement),
        }
    }
}

/// The state after decrypting `bloc` in state `e`: the expected number moves on after an
/// accepted block only.
pub open spec fn dechiffreur_apres(e: EtatDechiffreur, bloc: Seq<u8>) -> EtatDechiffreur {
    if bloc_dechiffre(e, bloc) is Ok {
        EtatDechiffreur { attendu: (e.attendu + 1) as u64, ..e }
    } else {
        e
    }
}

/// Whether a decrypting state is the counterpart of an encrypting one: same key, same
/// prefix, and it expects the number that the other will use next.
pub open spec fn accordes(c: EtatChiffreur, d: EtatDechiffreur) -> bool {
    &&& c.cle == d.cle
    &&& c.prefixe == d.prefixe
    &&& c.numero == d.attendu
}

/// A block that both sides accept keeps a cipher and a decipher in step: after it, the
/// decipher again expects the number that the cipher will use next, under the same key and
/// prefix.
pub proof fn loi_accord_preserve(c: EtatChiffreur, d: EtatDechiffreur, clair: Seq<u8>, bloc: Seq<u8>)
    requires
        accordes(c, d),
        bloc_chiffre(c, clair) == Ok::<Seq<u8>, ErreurSecurite>(bloc),
        bloc_dechiffre(d, bloc) is Ok,
    ensures
        accordes(chiffreur_apres(c, clair), dechiffreur_apres(d, bloc)),
{
}

/// A block that was accepted is refused when it comes again: the decipher now expects the
/// next number, and the replayed block still carries the old one.
pub proof fn loi_rejeu_refuse(d: EtatDechiffreur, bloc: Seq<u8>)
    requires
        bloc_dechiffre(d, bloc) is Ok,
        d.attendu < u64::MAX,
    ensures
        bloc_dechiffre(dechiffreur_apres(d, bloc), bloc) == Err::<Seq<u8>, ErreurSecurite>(
            ErreurSecurite::BlocHorsOrdre { attendu: (d.attendu + 1) as u64, recu: d.attendu },
        ),
{
}

/// A block carries, in its first eight bytes, the number of the cipher that produced it.
pub proof fn loi_numero_porte(c: EtatChiffreur, clair: Seq<u8>)
    requires
        bloc_chiffre(c, clair) is Ok,
    ensures
        u64_le(bloc_chiffre(c, clair)->Ok_0) == c.numero,
        bloc_chiffre(c, clair)->Ok_0.take(8) == le_u64(c.numero),
{
    let b = bloc_chiffre(c, clair)->Ok_0;
    lemme_le_u64(c.numero);
    assert(b.take(8) =~= le_u64(c.numero));
    assert(u64_le(b) == u64_le(le_u64(c.numero)));
}

/// The cipher state after encrypting `clairs` one after another from `c`.
pub open spec fn chiffreur_final(c: EtatChiffreur, clairs: Seq<Seq<u8>>) -> EtatChiffreur
    decreases clairs.len(),
{
    if clairs.len() == 0 {
        c
    } else {
        chiffreur_final(chiffreur_apres(c, clairs[0]), clairs.skip(1))
    }
}

/// What decrypting `blocs` one after another from `d` gives, in order.
pub open spec fn dechiffrements(d: EtatDechiffreur, blocs: Seq<Seq<u8>>) -> Seq<Result<Seq<u8>, ErreurSecurite>>
    decreases blocs.len(),
{
    if blocs.len() == 0 {
        Seq::empty()
    } else {
        seq![bloc_dechiffre(d, blocs[0])] + dechiffrements(dechiffreur_apres(d, blocs[0]), blocs.skip(1))
    }
}

/// The decipher state after decrypting `blocs` one after another from `d`.
pub open spec fn dechiffreur_final(d: EtatDechiffreur, blocs: Seq<Seq<u8>>) -> EtatDechiffreur
    decreases blocs.len(),
{
    if blocs.len() == 0 {
        d
    } else {
        dechiffreur_final(dechiffreur_apres(d, blocs[0]), blocs.skip(1))
    }
}

/// Whether `blocs` are what encrypting `clairs` one after another from `c` gave, as
/// `chiffrer_bloc` ensures of each: the wire block of its plaintext, which every decipher in
/// step with the cipher at that point decrypts to that plaintext.
pub open spec fn blocs_de(c: EtatChiffreur, clairs: Seq<Seq<u8>>, blocs: Seq<Seq<u8>>) -> bool
    decreases clairs.len(),
{
    &&& clairs.len() == blocs.len()
    &&& clairs.len() > 0 ==> {
        &&& bloc_chiffre(c, clairs[0]) == Ok::<Seq<u8>, ErreurSecurite>(blocs[0])
        &&& forall|d: EtatDechiffreur| accordes(c, d) && d.attendu < u64::MAX ==> #[trigger] bloc_dechiffre(d, blocs[0])
            == Ok::<Seq<u8>, ErreurSecurite>(clairs[0])
        &&& blocs_de(chiffreur_apres(c, clairs[0]), clairs.skip(1), blocs.skip(1))
    }
}

/// Blocks encrypted one after another decrypt, in the same order, to their plaintexts on a
/// decipher in step with the cipher: every block is accepted, the decipher's expected number
/// moves on by the number of blocks, and the two end in step again.
pub proof fn loi_aller_retour_blocs(c: EtatChiffreur, d: EtatDechiffreur, clairs: Seq<Seq<u8>>, blocs: Seq<Seq<u8>>)
    requires
        accordes(c, d),
        blocs_de(c, clairs, blocs),
        d.attendu + clairs.len() <= u64::MAX,
    ensures
        dechiffrements(d, blocs) == clairs.map_values(|m: Seq<u8>| Ok::<Seq<u8>, ErreurSecurite>(m)),
        dechiffreur_final(d, blocs).attendu == d.attendu + clairs.len(),
        accordes(chiffreur_final(c, clairs), dechiffreur_final(d, blocs)),
    decreases clairs.len(),
{
    if clairs.len() == 0 {
        assert(dechiffrements(d, blocs) =~= clairs.map_values(|m: Seq<u8>| Ok::<Seq<u8>, ErreurSecurite>(m)));
    } else {
        assert(bloc_dechiffre(d, blocs[0]) == Ok::<Seq<u8>, ErreurSecurite>(clairs[0]));
        let c2 = chiffreur_apres(c, clairs[0]);
        let d2 = dechiffreur_apres(d, blocs[0]);
        loi_aller_retour_blocs(c2, d2, clairs.skip(1), blocs.skip(1));
        assert(dechiffrements(d, blocs) =~= clairs.map_values(|m: Seq<u8>| Ok::<Seq<u8>, ErreurSecurite>(m))) by {
            assert(clairs.skip(1).map_values(|m: Seq<u8>| Ok::<Seq<u8>, ErreurSecurite>(m)) =~= clairs.map_values(
                |m: Seq<u8>| Ok::<Seq<u8>, ErreurSecurite>(m),
            ).skip(1));
        }
    }
}

/// A cipher and a decipher made under the same key, both fresh, are in step: their
/// prefixes are both four zeros and both start at block zero.
pub proof fn loi_paire_neuve(cle: Seq<u8>)
    ensures
        accordes(
            EtatChiffreur { cle, numero: 0, prefixe: seq![0u8, 0u8, 0u8, 0u8] },
            EtatDechiffreur { cle, attendu: 0, prefixe: seq![0u8, 0u8, 0u8, 0u8] },
        ),
{
}

/// Encrypting side of a block channel.
pub struct CipherManager {
    cle: [u8; 32],
    numero_bloc_courant: u64,
    prefixe_nonce: [u8; 4],
}

impl View for CipherManager {
    type V = EtatChiffreur;

    closed spec fn view(&self) -> EtatChiffreur {
        EtatChiffreur { cle: self.cle@, numero: self.numero_bloc_courant, prefixe: self.prefixe_nonce@ }
    }
}

impl CipherManager {
    /// A cipher under `cle`, numbering blocks from zero, with a nonce prefix of four zeros:
    /// the prefix that a decipher made with `DecipherManager::nouveau` expects, so that the
    /// two are in step.
    pub fn nouveau(cle_chiffrement: &[u8; 32]) -> (r: Self)
        ensures
            r@ == (EtatChiffreur { cle: cle_chiffrement@, numero: 0, prefixe: seq![0u8, 0u8, 0u8, 0u8] }),
    {
        let r = Self::avec_prefixe(cle_chiffrement, [0u8; 4]);
        assert(r@.prefixe =~= seq![0u8, 0u8, 0u8, 0u8]);
        r
    }

    /// A cipher under `cle`, numbering blocks from zero, with the given nonce prefix.
    pub fn avec_prefixe(cle_chiffrement: &[u8; 32], prefixe: [u8; 4]) -> (r: Self)
        ensures
            r@ == (EtatChiffreur { cle: cle_chiffrement@, numero: 0, prefixe: prefixe@ }),
    {
        CipherManager { cle: *cle_chiffrement, numero_bloc_courant: 0, prefixe_nonce: prefixe }
    }

    /// Encrypts one block. The block that comes out decrypts, in every decrypting state that
    /// is the counterpart of this one, to `texte_clair`.
    pub fn chiffrer_bloc(&mut self, texte_clair: &[u8]) -> (r: Result<Vec<u8>, ErreurSecurite>)
        requires
            bloc_chiffre(old(self)@, texte_clair@) is Ok ==> old(self)@.numero < u64::MAX,
        ensures
            match r {
                Ok(b) => bloc_chiffre(old(self)@, texte_clair@) == Ok::<Seq<u8>, ErreurSecurite>(b@),
                Err(e) => bloc_chiffre(old(self)@, texte_clair@) == Err::<Seq<u8>, ErreurSecurite>(e),
            },
            final(self)@ == chiffreur_apres(old(self)@, texte_clair@),
            r matches Ok(b) ==> b@.len() == texte_clair@.len() + MIN_BLOC_SIZE,
            r is Ok ==> forall|d: EtatDechiffreur|
                accordes(old(self)@, d) && d.attendu < u64::MAX ==> #[trigger] bloc_dechiffre(d, r->Ok_0@)
                    == Ok::<Seq<u8>, ErreurSecurite>(texte_clair@),
    {
        if texte_clair.len() == 0 {
            return Err(ErreurSecurite::BlocVide);
        }
        if texte_clair.len() > TAILLE_MAX_CLAIR {
            return Err(ErreurSecurite::BlocTropGrand(texte_clair.len()));
        }
        let numero = octets_le_u64(self.numero_bloc_courant);
        let p = self.prefixe_nonce;
        let nonce: [u8; 12] = [
            numero[0], numero[1], numero[2], numero[3], numero[4], numero[5], numero[6], numero[7],
            p[0], p[1], p[2], p[3],
        ];
        assert(nonce@ =~= nonce_bloc(numero@, p@));
        let chiffre = match aes256gcm_chiffrer(&self.cle, &nonce, texte_clair) {
            Some(c) => c,
            None => return Err(ErreurSecurite::EchecChiffrement),
        };
        let mut resultat: Vec<u8> = Vec::with_capacity(8 + chiffre.len());
        let mut i: usize = 0;
        while i < 8
            invariant
                i <= 8,
                resultat@ =~= numero@.take(i as int),
            decreases 8 - i,
        {
            resultat.push(numero[i]);
            i = i + 1;
        }
        let mut j: usize = 0;
        while j < chiffre.len()
            invariant
                j <= chiffre.len(),
                resultat@ =~= numero@ + chiffre@.take(j as int),
            decreases chiffre.len() - j,
        {
            resultat.push(chiffre[j]);
            j = j + 1;
        }
        proof {
            assert(chiffre@.take(chiffre.len() as int) =~= chiffre@);
            lemme_le_u64(self.numero_bloc_courant);
            assert(resultat@.take(8) =~= numero@);
            assert(resultat@.skip(8) =~= chiffre@);
            assert forall|d: EtatDechiffreur|
                accordes(old(self)@, d) && d.attendu < u64::MAX implies #[trigger] bloc_dechiffre(d, resultat@)
                    == Ok::<Seq<u8>, ErreurSecurite>(texte_clair@) by {
                assert(u64_le(resultat@) == u64_le(numero@));
            }
        }
        self.numero_bloc_courant = self.numero_bloc_courant + 1;
        Ok(resultat)
    }

    /// Encrypts one block when the block counter has room for it: `None`, the cipher
    /// unchanged, when the counter is full; otherwise what `chiffrer_bloc` gives.
    pub fn essayer_chiffrer_bloc(&mut self, texte_clair: &[u8]) -> (r: Option<Result<Vec<u8>, ErreurSecurite>>)
        ensures
            old(self)@.numero == u64::MAX ==> r is None && final(self)@ == old(self)@,
            old(self)@.numero < u64::MAX ==> {
                &&& r matches Some(res)
                &&& match res {
                    Ok(b) => bloc_chiffre(old(self)@, texte_clair@) == Ok::<Seq<u8>, ErreurSecurite>(b@),
                    Err(e) => bloc_chiffre(old(self)@, texte_clair@) == Err::<Seq<u8>, ErreurSecurite>(e),
                }
                &&& final(self)@ == chiffreur_apres(old(self)@, texte_clair@)
            },
    {
        if self.numero_bloc_courant == u64::MAX {
            return None;
        }
        Some(self.chiffrer_bloc(texte_clair))
    }

    /// The number that the next block will carry.
    pub fn obtenir_numero_bloc(&self) -> (r: u64)
        ensures
            r == self@.numero,
    {
        self.numero_bloc_courant
    }
}

/// Decrypting side of a block channel.
pub struct DecipherManager {
    cle: [u8; 32],
    prochain_numero_bloc_attendu: u64,
    prefixe_nonce: [u8; 4],
}

impl View for DecipherManager {
    type V = EtatDechiffreur;

    closed spec fn view(&self) -> EtatDechiffreur {
        EtatDechiffreur {
            cle: self.cle@,
            attendu: self.prochain_numero_bloc_attendu,
            prefixe: self.prefixe_nonce@,
        }
    }
}

impl DecipherManager {
    /// A decipher under `cle`, expecting block zero first, with a nonce prefix of four zeros.
    pub fn nouveau(cle_chiffrement: &[u8; 32]) -> (r: Self)
        ensures
            r@ == (EtatDechiffreur { cle: cle_chiffrement@, attendu: 0, prefixe: seq![0u8, 0u8, 0u8, 0u8] }),
    {
        let r = DecipherManager { cle: *cle_chiffrement, prochain_numero_bloc_attendu: 0, prefixe_nonce: [0u8; 4] };
        assert(r.prefixe_nonce@ =~= seq![0u8, 0u8, 0u8, 0u8]);
        r
    }

    /// A decipher under `cle`, expecting block zero first, with the given nonce prefix.
    pub fn avec_prefixe(cle_chiffrement: &[u8; 32], prefixe: [u8; 4]) -> (r: Self)
        ensures
            r@ == (EtatDechiffreur { cle: cle_chiffrement@, attendu: 0, prefixe: prefixe@ }),
    {
        DecipherManager { cle: *cle_chiffrement, prochain_numero_bloc_attendu: 0, prefixe_nonce: prefixe }
    }

    /// Decrypts one wire block: refuses a block of the wrong size or number before any
    /// decryption is tried.
    pub fn dechiffrer_bloc(&mut self, donnees_chiffrees: &[u8]) -> (r: Result<Vec<u8>, ErreurSecurite>)
        requires
            bloc_dechiffre(old(self)@, donnees_chiffrees@) is Ok ==> old(self)@.attendu < u64::MAX,
        ensures
            match r {
                Ok(b) => bloc_dechiffre(old(self)@, donnees_chiffrees@) == Ok::<Seq<u8>, ErreurSecurite>(b@),
                Err(e) => bloc_dechiffre(old(self)@, donnees_chiffrees@) == Err::<Seq<u8>, ErreurSecurite>(e),
            },
            final(self)@ == dechiffreur_apres(old(self)@, donnees_chiffrees@),
    {
        if donnees_chiffrees.len() < 8 {
            return Err(ErreurSecurite::BlocTropCourt);
        }
        if donnees_chiffrees.len() > MAX_BLOC_SIZE {
            return Err(ErreurSecurite::BlocSurdimensionne(donnees_chiffrees.len()));
        }
        let numero_bloc_recu = lire_u64_le(donnees_chiffrees);
        if numero_bloc_recu != self.prochain_numero_bloc_attendu {
            return Err(ErreurSecurite::BlocHorsOrdre { attendu: self.prochain_numero_bloc_attendu, recu: numero_bloc_recu });
        }
        let d = donnees_chiffrees;
        let p = self.prefixe_nonce;
        let nonce: [u8; 12] = [d[0], d[1], d[2], d[3], d[4], d[5], d[6], d[7], p[0], p[1], p[2], p[3]];
        assert(nonce@ =~= nonce_bloc(d@.take(8), p@));
        let chiffre = vstd::slice::slice_subrange(d, 8, d.len());
        assert(chiffre@ =~= d@.skip(8));
        match aes256gcm_dechiffrer(&self.cle, &nonce, chiffre) {
            Some(clair) => {
                self.prochain_numero_bloc_attendu = self.prochain_numero_bloc_attendu + 1;
                Ok(clair)
            },
            None => Err(ErreurSecurite::EchecDechiffrement),
        }
    }

    /// Decrypts one wire block when the block counter has room for another: `None`, the
    /// decipher unchanged, when the counter is full; otherwise what `dechiffrer_bloc` gives.
    pub fn essayer_dechiffrer_bloc(&mut self, donnees_chiffrees: &[u8]) -> (r: Option<Result<Vec<u8>, ErreurSecurite>>)
        ensures
            old(self)@.attendu == u64::MAX ==> r is None && final(self)@ == old(self)@,
            old(self)@.attendu < u64::MAX ==> {
                &&& r matches Some(res)
                &&& match res {
                    Ok(b) => bloc_dechiffre(old(self)@, donnees_chiffrees@) == Ok::<Seq<u8>, ErreurSecurite>(b@),
                    Err(e) => bloc_dechiffre(old(self)@, donnees_chiffrees@) == Err::<Seq<u8>, ErreurSecurite>(e),
                }
                &&& final(self)@ == dechiffreur_apres(old(self)@, donnees_chiffrees@)
            },
    {
        if self.prochain_numero_bloc_attendu == u64::MAX {
            return None;
        }
        Some(self.dechiffrer_bloc(donnees_chiffrees))
    }

    /// The number that the next accepted block must carry.
    pub fn obtenir_numero_bloc_attendu(&self) -> (r: u64)
        ensures
            r == self@.attendu,
    {
        self.prochain_numero_bloc_attendu
    }
}

} // verus!
