//! Protocol messages of a transfer, their framing on the stream, and the bookkeeping of
//! a file's bytes as they arrive.

use vstd::prelude::*;
use crate::octets::{
    be_u32, u32_be, lemme_be_u32, octets_be_u32, ajouter_octets, decimal, vers_decimal, minuscules, en_minuscules,
    chiffre_decimal, caractere_chiffre, pousser_caractere,
};
use vstd::arithmetic::div_mod::{lemma_fundamental_div_mod, lemma_div_denominator};

verus! {

/// Where to reach a peer, as the discovery layer supplies it.
#[derive(Debug, Clone)]
pub struct PeerInfo {
    pub ip: String,
    pub port: u16,
    pub device_name: String,
}

/// What the sender announces about a file before its bytes.
#[derive(Debug, Clone)]
pub struct FileHeader {
    pub filename: String,
    pub file_size: u64,
    pub file_type: String,
}

/// The request a sender makes before a transfer.
#[derive(Debug, Clone)]
pub struct TransferRequest {
    pub device_name: String,
    pub file_header: FileHeader,
}

/// The receiver's answer to a request.
#[derive(Debug, Clone)]
pub struct TransferResponse {
    pub device_name: String,
    pub accepted: bool,
    pub message: String,
}

/// Why a transfer step was refused.
#[derive(Debug, Clone)]
pub enum ErreurTransfert {
    /// An encoded message is too long for its 32-bit length prefix (its length).
    MessageTropLong(usize),
    /// No file name can be derived from the path.
    NomDeFichierIntrouvable,
    /// The connection closed before the announced size had arrived.
    ConnexionFermee,
    /// The receiver refused the transfer (its message).
    TransfertRefuse(String),
}

/// Size of the chunks in which file bytes are moved, in bytes.
pub const CHUNK_SIZE: usize = 1048576;

/// A frame on the stream: the payload's length as a big-endian `u32`, then the payload.
pub open spec fn trame(charge: Seq<u8>) -> Seq<u8> {
    be_u32(charge.len() as u32) + charge
}

/// A frame's header announces exactly the length of the payload it carries, and the
/// payload follows it.
pub proof fn loi_trame_relue(charge: Seq<u8>)
    requires
        charge.len() <= u32::MAX,
    ensures
        u32_be(trame(charge).take(4)) as int == charge.len(),
        trame(charge).skip(4) == charge,
{
    lemme_be_u32(charge.len() as u32);
    let t = trame(charge);
    assert(t.take(4) =~= be_u32(charge.len() as u32));
    assert(t.skip(4) =~= charge);
}

/// The last component of a path, as `Path::file_name` then `OsStr::to_str` give it.
pub uninterp spec fn nom_de_fichier(chemin: Seq<char>) -> Option<Seq<char>>;

/// `Path::new(chemin).file_name()` as UTF-8 text.
#[verifier::external_body]
fn nom_de_fichier_du_chemin(chemin: &str) -> (r: Option<String>)
    ensures
        match r {
            Some(n) => nom_de_fichier(chemin@) == Some(n@),
            None => nom_de_fichier(chemin@) is None,
        },
{
    std::path::Path::new(chemin).file_name().and_then(|n| n.to_str()).map(|n| n.to_string())
}

/// The number of seconds since the Unix epoch, or `None` when the clock is before it.
/// What it returns depends on the clock: nothing is stated of it.
#[verifier::external_body]
fn secondes_depuis_epoque() -> (r: Option<u64>) {
    match std::time::SystemTime::now().duration_since(std::time::UNIX_EPOCH) {
        Ok(d) => Some(d.as_secs()),
        Err(_) => None,
    }
}

/// Index of the last '.' in a text, if any.
pub open spec fn dernier_point(s: Seq<char>) -> Option<int>
    decreases s.len(),
{
    if s.len() == 0 {
        None
    } else if s.last() == '.' {
        Some(s.len() - 1)
    } else {
        dernier_point(s.drop_last())
    }
}

/// The extension of a file name, as `Path::extension` reads it: what follows the last '.',
/// unless there is no '.' or the only one starts the name (or the name is "..").
pub open spec fn extension(nom: Seq<char>) -> Option<Seq<char>> {
    if nom == seq!['.', '.'] {
        None
    } else {
        match dernier_point(nom) {
            Some(i) => if i > 0 { Some(nom.skip(i + 1)) } else { None },
            None => None,
        }
    }
}

/// "unknown".
pub open spec fn type_inconnu() -> Seq<char> {
    seq!['u', 'n', 'k', 'n', 'o', 'w', 'n']
}

/// The type recorded for a file name: its extension in lowercase, or "unknown" when it has
/// none or an empty one.
pub open spec fn type_de_fichier(nom: Seq<char>) -> Seq<char> {
    match extension(nom) {
        Some(e) => if minuscules(e).len() > 0 { minuscules(e) } else { type_inconnu() },
        None => type_inconnu(),
    }
}

/// A text without '.' added at the end does not move the last '.'.
proof fn lemme_dernier_point_suffixe(x: Seq<char>, e: Seq<char>)
    requires
        !e.contains('.'),
    ensures
        dernier_point(x + e) == dernier_point(x),
    decreases e.len(),
{
    if e.len() == 0 {
        assert(x + e =~= x);
    } else {
        let e2 = e.drop_last();
        assert((x + e).drop_last() =~= x + e2);
        assert((x + e).last() == e.last());
        assert(e.last() != '.') by {
            if e.last() == '.' {
                assert(e.contains(e[e.len() - 1]));
            }
        }
        assert(!e2.contains('.')) by {
            if e2.contains('.') {
                let i = choose|i: int| 0 <= i < e2.len() && e2[i] == '.';
                assert(e[i] == e2[i]);
            }
        }
        lemme_dernier_point_suffixe(x, e2);
    }
}

/// The type recorded for a file name `base.e`, where `base` is not empty and `e` is not empty
/// and holds no '.', is the lowercase of `e`, whatever its length (the type of "report.docx" is "docx"),
/// unless that lowercase is empty; and a name whose only '.' starts it, or that has none,
/// is of unknown type.
pub proof fn loi_type_extension(base: Seq<char>, e: Seq<char>)
    requires
        !e.contains('.'),
    ensures
        base.len() > 0 && e.len() > 0 && minuscules(e).len() > 0 ==> type_de_fichier(base + seq!['.'] + e) == minuscules(e),
        type_de_fichier(seq!['.'] + e) == type_inconnu(),
        type_de_fichier(e) == type_inconnu(),
{
    let x = base + seq!['.'];
    lemme_dernier_point_suffixe(x, e);
    assert(x.drop_last() =~= base);
    assert(x.last() == '.');
    assert(dernier_point(x) == Some(base.len() as int));
    if base.len() > 0 {
        assert((x + e).skip(base.len() + 1int) =~= e);
        assert((x + e).len() >= 2);
        if e.len() > 0 {
            assert((x + e).len() >= 3);
            assert(x + e != seq!['.', '.']);
            assert(extension(x + e) == Some(e));
        }
    }
    let y = seq!['.'];
    lemme_dernier_point_suffixe(y, e);
    assert(y.drop_last() =~= Seq::<char>::empty());
    assert(dernier_point(y) == Some(0int));
    lemme_dernier_point_suffixe(Seq::<char>::empty(), e);
    assert(Seq::<char>::empty() + e =~= e);
    assert(dernier_point(Seq::<char>::empty()) is None);
}

/// The power of two by which `b` is divided to bring it under 2^53, the length of an
/// `f64` significand: 1 for every `b` that an `f64` holds exactly.
pub open spec fn diviseur_f64(b: nat) -> nat
    decreases b,
{
    if b < 9007199254740992 {
        1
    } else {
        2 * diviseur_f64(b / 2)
    }
}

/// `n / d` rounded to the nearest integer, a tie going to the even one.
pub open spec fn arrondi_au_pair(n: nat, d: nat) -> nat {
    let q = n / d;
    let r = n % d;
    if 2 * r > d || (2 * r == d && q % 2 == 1) {
        q + 1
    } else {
        q
    }
}

/// The value of `b as f64`: `b` rounded to 53 significant bits, ties to even.
pub open spec fn valeur_f64(b: nat) -> nat {
    arrondi_au_pair(b, diviseur_f64(b)) * diviseur_f64(b)
}

/// `v / d` counted in hundredths, rounded as `{:.2}` rounds: to the nearest, ties to even.
pub open spec fn centiemes(v: nat, d: nat) -> nat {
    arrondi_au_pair(v * 100, d)
}

/// A count of hundredths written with two decimals, such as "12.34".
pub open spec fn deux_decimales(c: nat) -> Seq<char> {
    decimal(c / 100) + seq!['.', chiffre_decimal((c % 100) / 10), chiffre_decimal(c % 10)]
}

/// A byte count for people. Its `f64` value is written in GB, MB or KB (powers of 1024)
/// with two decimals, in the largest unit that it reaches; below 1 KB the count is written
/// in bytes.
pub open spec fn taille_lisible(b: nat) -> Seq<char> {
    let v = valeur_f64(b);
    if v >= 1073741824 {
        deux_decimales(centiemes(v, 1073741824)) + seq![' ', 'G', 'B']
    } else if v >= 1048576 {
        deux_decimales(centiemes(v, 1048576)) + seq![' ', 'M', 'B']
    } else if v >= 1024 {
        deux_decimales(centiemes(v, 1024)) + seq![' ', 'K', 'B']
    } else {
        decimal(b) + seq![' ', 'B']
    }
}

/// `n / d` rounded to the nearest integer, ties to even.
fn arrondir_au_pair(n: u128, d: u128) -> (r: u128)
    requires
        d > 0,
        n / d < u128::MAX,
    ensures
        r == arrondi_au_pair(n as nat, d as nat),
        r <= n / d + 1,
{
    let q = n / d;
    let reste = n % d;
    if reste > d - reste || (reste == d - reste && q % 2 == 1) {
        q + 1
    } else {
        q
    }
}

/// The exact value of `b as f64`.
fn valeur_en_f64(b: u64) -> (r: u128)
    ensures
        r == valeur_f64(b as nat),
        r <= b + 4096,
{
    let mut p: u64 = 1;
    let mut t: u64 = b;
    while t >= 9007199254740992
        invariant
            1 <= p <= 4096,
            t == b / p,
            diviseur_f64(b as nat) == p * diviseur_f64(t as nat),
        decreases t,
    {
        proof {
            lemma_fundamental_div_mod(b as int, p as int);
            assert(p < 2048) by (nonlinear_arith)
                requires
                    t >= 9007199254740992,
                    p * t <= b,
                    b <= 18446744073709551615u64,
                    p >= 1,
            ;
            lemma_div_denominator(b as int, p as int, 2);
            let x = diviseur_f64((t / 2) as nat);
            assert(diviseur_f64(t as nat) == 2 * x);
            assert(p * (2 * x) == (p * 2) * x) by (nonlinear_arith);
        }
        t = t / 2;
        p = p * 2;
    }
    proof {
        lemma_fundamental_div_mod(b as int, p as int);
        assert(diviseur_f64(t as nat) == 1);
        let x = diviseur_f64(t as nat);
        assert(p * x == p) by (nonlinear_arith)
            requires
                x == 1,
        ;
    }
    let m = arrondir_au_pair(b as u128, p as u128);
    assert(m * p <= b + 4096) by (nonlinear_arith)
        requires
            m <= t + 1,
            p * t <= b,
            p <= 4096,
    ;
    m * (p as u128)
}

/// `c` hundredths with two decimals, a space, the unit letter and 'B'.
fn ecrire_en_unite(c: u128, unite: char) -> (r: String)
    requires
        c / 100 <= u64::MAX,
    ensures
        r@ == deux_decimales(c as nat) + seq![' ', unite, 'B'],
{
    let mut s = vers_decimal((c / 100) as u64);
    pousser_caractere(&mut s, '.');
    pousser_caractere(&mut s, caractere_chiffre(((c % 100) / 10) as u64));
    pousser_caractere(&mut s, caractere_chiffre((c % 10) as u64));
    pousser_caractere(&mut s, ' ');
    pousser_caractere(&mut s, unite);
    pousser_caractere(&mut s, 'B');
    assert(s@ =~= deux_decimales(c as nat) + seq![' ', unite, 'B']);
    s
}

/// `v / d` in hundredths, as `{:.2}` rounds it, for a value of at most 2^64 + 4096 and a
/// unit of at least 1 KB.
fn centiemes_de(v: u128, d: u128) -> (r: u128)
    requires
        v <= 18446744073709555712u128,
        d >= 1024,
    ensures
        r == centiemes(v as nat, d as nat),
        r / 100 <= u64::MAX,
{
    let n = v * 100;
    proof {
        lemma_fundamental_div_mod(n as int, d as int);
        assert(n / d < 18446744073709551615u128) by (nonlinear_arith)
            requires
                n <= 1844674407370955571200u128,
                d >= 1024,
                d * (n / d) <= n,
        ;
    }
    arrondir_au_pair(n, d)
}

/// The bookkeeping of a file arriving: bytes received so far and bytes still due.
pub struct SuiviReception {
    total: u64,
    recu: u64,
    restant: u64,
}

impl SuiviReception {
    #[verifier::type_invariant]
    spec fn bien_forme(self) -> bool {
        self.recu + self.restant == self.total
    }

    /// The announced size.
    pub closed spec fn total(self) -> u64 {
        self.total
    }

    /// Bytes received so far.
    pub closed spec fn recu(self) -> u64 {
        self.recu
    }

    /// Bytes still due.
    pub closed spec fn restant(self) -> u64 {
        self.restant
    }

    /// Received and due bytes always add up to the announced size.
    pub fn bilan(&self) -> (r: (u64, u64))
        ensures
            r == (self.recu(), self.restant()),
            self.recu() + self.restant() == self.total(),
    {
        proof { use_type_invariant(self); }
        (self.recu, self.restant)
    }

    /// Nothing received yet of `total_size` bytes.
    pub fn nouveau(total_size: u64) -> (r: Self)
        ensures
            r.total() == total_size,
            r.recu() == 0,
            r.restant() == total_size,
    {
        SuiviReception { total: total_size, recu: 0, restant: total_size }
    }

    /// Whether bytes are still due.
    pub fn en_cours(&self) -> (r: bool)
        ensures
            r == (self.restant() > 0),
    {
        self.restant > 0
    }

    /// How many bytes to ask for next: what is due, at most a chunk.
    pub fn taille_a_lire(&self) -> (r: usize)
        ensures
            r as int == if (self.restant() as usize) < CHUNK_SIZE { (self.restant() as usize) as int } else { CHUNK_SIZE as int },
            r <= self.restant(),
    {
        let restant = self.restant;
        let a_lire = restant as usize;
        assert(a_lire <= restant) by (bit_vector)
            requires a_lire == restant as usize;
        if a_lire < CHUNK_SIZE { a_lire } else { CHUNK_SIZE }
    }

    /// Records a read of `octets_lus` bytes: a read of nothing before the end means the
    /// connection closed.
    pub fn enregistrer_lecture(&mut self, octets_lus: usize) -> (r: Result<(), ErreurTransfert>)
        requires
            octets_lus <= old(self).restant(),
        ensures
            final(self).total() == old(self).total(),
            octets_lus == 0 ==> (r matches Err(ErreurTransfert::ConnexionFermee) && *final(self) == *old(self)),
            octets_lus > 0 ==> r is Ok && final(self).recu() == old(self).recu() + octets_lus
                && final(self).restant() == old(self).restant() - octets_lus,
    {
        proof { use_type_invariant(&*self); }
        if octets_lus == 0 {
            return Err(ErreurTransfert::ConnexionFermee);
        }
        *self = SuiviReception {
            total: self.total,
            recu: self.recu + octets_lus as u64,
            restant: self.restant - octets_lus as u64,
        };
        Ok(())
    }
}

/// Shared utilities for framing, file metadata and log time stamps.
pub struct FileTransfer;

impl FileTransfer {
    /// Frames an encoded message for the stream: its length as a big-endian `u32`, then the
    /// message; refused when the length does not fit in a `u32`.
    pub fn trame_message(encoded: &[u8]) -> (r: Result<Vec<u8>, ErreurTransfert>)
        ensures
            encoded@.len() <= u32::MAX ==> (r matches Ok(t) && t@ == trame(encoded@)),
            encoded@.len() > u32::MAX ==> (r matches Err(ErreurTransfert::MessageTropLong(n)) && n == encoded@.len()),
    {
        if encoded.len() > 4294967295 {
            return Err(ErreurTransfert::MessageTropLong(encoded.len()));
        }
        let len = encoded.len() as u32;
        let entete = octets_be_u32(len);
        let mut t: Vec<u8> = Vec::new();
        ajouter_octets(&mut t, entete.as_slice());
        ajouter_octets(&mut t, encoded);
        Ok(t)
    }

    /// The payload length that a frame header announces.
    pub fn longueur_annoncee(entete: &[u8; 4]) -> (r: usize)
        ensures
            r == u32_be(entete@) as usize,
    {
        let n: u32 = ((entete[0] as u32) << 24u32) | ((entete[1] as u32) << 16u32) | ((entete[2] as u32) << 8u32)
            | (entete[3] as u32);
        n as usize
    }

    /// The metadata of a file of `file_size` bytes at `file_path`: its name, size and type.
    pub fn build_file_header(file_path: &str, file_size: u64) -> (r: Result<FileHeader, ErreurTransfert>)
        ensures
            match nom_de_fichier(file_path@) {
                Some(nom) => r matches Ok(h) && h.filename@ == nom && h.file_size == file_size
                    && h.file_type@ == type_de_fichier(nom),
                None => r matches Err(ErreurTransfert::NomDeFichierIntrouvable),
            },
    {
        let filename = match nom_de_fichier_du_chemin(file_path) {
            Some(n) => n,
            None => return Err(ErreurTransfert::NomDeFichierIntrouvable),
        };
        let file_type = Self::detect_file_type(filename.as_str());
        Ok(FileHeader { filename, file_size, file_type })
    }

    /// The type of a file from its name: the extension in lowercase, or "unknown".
    pub fn detect_file_type(file_name: &str) -> (r: String)
        ensures
            r@ == type_de_fichier(file_name@),
    {
        let n = file_name.unicode_len();
        let mut i: usize = n;
        let mut point: Option<usize> = None;
        assert(file_name@.take(n as int) =~= file_name@);
        while i > 0
            invariant
                i <= n == file_name@.len(),
                point is None ==> dernier_point(file_name@) == dernier_point(file_name@.take(i as int)),
                point matches Some(p) ==> dernier_point(file_name@) == Some(p as int) && p < n,
            decreases i,
        {
            if point.is_none() {
                let c = file_name.get_char(i - 1);
                assert(file_name@.take(i as int).drop_last() =~= file_name@.take(i - 1));
                if c == '.' {
                    point = Some(i - 1);
                }
            }
            i = i - 1;
        }
        assert(file_name@.take(0) =~= Seq::<char>::empty());
        let est_parent = n == 2 && file_name.get_char(0) == '.' && file_name.get_char(1) == '.';
        assert(est_parent == (file_name@ == seq!['.', '.'])) by {
            if n == 2 && file_name@[0] == '.' && file_name@[1] == '.' {
                assert(file_name@ =~= seq!['.', '.']);
            }
        }
        let inconnu = "unknown";
        proof {
            reveal_strlit("unknown");
            assert(inconnu@ =~= type_inconnu());
        }
        if est_parent {
            return inconnu.to_owned();
        }
        match point {
            Some(p) => {
                if p == 0 {
                    return inconnu.to_owned();
                }
                let ext = file_name.substring_char(p + 1, n);
                assert(ext@ =~= file_name@.skip(p + 1));
                let ext_min = en_minuscules(ext);
                if ext_min.as_str().unicode_len() > 0 {
                    ext_min
                } else {
                    inconnu.to_owned()
                }
            },
            None => inconnu.to_owned(),
        }
    }

    /// A byte count for people, as `taille_lisible` writes it: "1.50 MB", "512 B".
    pub fn human_bytes(bytes: u64) -> (r: String)
        ensures
            r@ == taille_lisible(bytes as nat),
    {
        let v = valeur_en_f64(bytes);
        if v >= 1073741824 {
            ecrire_en_unite(centiemes_de(v, 1073741824), 'G')
        } else if v >= 1048576 {
            ecrire_en_unite(centiemes_de(v, 1048576), 'M')
        } else if v >= 1024 {
            ecrire_en_unite(centiemes_de(v, 1024), 'K')
        } else {
            let mut s = vers_decimal(bytes);
            pousser_caractere(&mut s, ' ');
            pousser_caractere(&mut s, 'B');
            assert(s@ =~= decimal(bytes as nat) + seq![' ', 'B']);
            s
        }
    }

    /// A time marker for logs: the seconds since the Unix epoch in decimal, or "0" when the
    /// clock is before it.
    pub fn timestamp() -> (r: String)
        ensures
            exists|n: u64| r@ == decimal(n as nat),
    {
        Self::horodatage(secondes_depuis_epoque())
    }

    /// The time marker for a reading of the clock.
    pub fn horodatage(secondes: Option<u64>) -> (r: String)
        ensures
            r@ == decimal(
                match secondes {
                    Some(s) => s as nat,
                    None => 0,
                },
            ),
    {
        match secondes {
            Some(s) => vers_decimal(s),
            None => vers_decimal(0),
        }
    }
}

} // verus!
