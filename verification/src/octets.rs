//! Byte and text encodings shared by the whole crate: decimal and hexadecimal
//! renderings, little- and big-endian integers.

use vstd::prelude::*;
use vstd::utf8::{valid_utf8, decode_utf8, encode_utf8, is_ascii_chars, is_ascii_chars_encode_utf8, encode_utf8_decode_utf8, is_char_boundary, encode_utf8_valid_utf8, is_char_boundary_start_end_of_seq, is_char_boundary_iff_is_leading_byte};

verus! {

/// The ASCII digit for a value below ten.
pub open spec fn chiffre_decimal(d: nat) -> char {
    ((48 + d) as u32) as char
}

/// Decimal rendering of a natural number, without leading zeros ("0" for zero).
pub open spec fn decimal(n: nat) -> Seq<char>
    decreases n,
{
    if n < 10 {
        seq![chiffre_decimal(n)]
    } else {
        decimal(n / 10).push(chiffre_decimal(n % 10))
    }
}

/// `String::push`.
#[verifier::external_body]
pub(crate) fn pousser_caractere(s: &mut String, c: char)
    ensures
        final(s)@ == old(s)@.push(c),
{
    s.push(c);
}

pub(crate) fn caractere_chiffre(d: u64) -> (c: char)
    requires
        d < 10,
    ensures
        c == chiffre_decimal(d as nat),
{
    let b: u8 = 48 + (d as u8);
    b as char
}

/// Renders `n` in decimal, as `format!("{}", n)` does for an unsigned integer.
pub fn vers_decimal(n: u64) -> (r: String)
    ensures
        r@ == decimal(n as nat),
{
    let mut chiffres: Vec<char> = Vec::new();
    let mut reste: u64 = n;
    while reste >= 10
        invariant
            decimal(n as nat) == decimal(reste as nat) + chiffres@.reverse(),
        decreases reste,
    {
        let c = caractere_chiffre(reste % 10);
        let ghost avant = chiffres@;
        chiffres.push(c);
        assert(chiffres@.reverse() =~= seq![c] + avant.reverse());
        assert(decimal(reste as nat) == decimal((reste / 10) as nat).push(c));
        assert(decimal((reste / 10) as nat).push(c) + avant.reverse()
            =~= decimal((reste / 10) as nat) + chiffres@.reverse());
        reste = reste / 10;
    }
    let c = caractere_chiffre(reste);
    let ghost avant = chiffres@;
    chiffres.push(c);
    assert(chiffres@.reverse() =~= seq![c] + avant.reverse());
    let mut r = String::new();
    let mut i: usize = chiffres.len();
    while i > 0
        invariant
            i <= chiffres.len(),
            r@ =~= chiffres@.subrange(i as int, chiffres.len() as int).reverse(),
        decreases i,
    {
        i = i - 1;
        let ghost avant_r = r@;
        pousser_caractere(&mut r, chiffres[i]);
        assert(chiffres@.subrange(i as int, chiffres.len() as int).reverse()
            =~= chiffres@.subrange(i + 1, chiffres.len() as int).reverse().push(chiffres@[i as int]));
    }
    assert(chiffres@.subrange(0, chiffres.len() as int) =~= chiffres@);
    r
}


/// Little-endian bytes of a `u64` (`u64::to_le_bytes`).
pub open spec fn le_u64(x: u64) -> Seq<u8> {
    seq![
        x as u8,
        (x >> 8u64) as u8,
        (x >> 16u64) as u8,
        (x >> 24u64) as u8,
        (x >> 32u64) as u8,
        (x >> 40u64) as u8,
        (x >> 48u64) as u8,
        (x >> 56u64) as u8,
    ]
}

/// The `u64` whose little-endian bytes are the first eight of `b` (`u64::from_le_bytes`).
pub open spec fn u64_le(b: Seq<u8>) -> u64 {
    (b[0] as u64) | ((b[1] as u64) << 8u64) | ((b[2] as u64) << 16u64) | ((b[3] as u64) << 24u64)
        | ((b[4] as u64) << 32u64) | ((b[5] as u64) << 40u64) | ((b[6] as u64) << 48u64) | ((
    b[7] as u64) << 56u64)
}

/// Big-endian bytes of a `u16` (`u16::to_be_bytes`).
pub open spec fn be_u16(x: u16) -> Seq<u8> {
    seq![(x >> 8u16) as u8, x as u8]
}

/// The `u16` of two big-endian bytes (`u16::from_be_bytes`).
pub open spec fn u16_be(haut: u8, bas: u8) -> u16 {
    ((haut as u16) << 8u16) | (bas as u16)
}

/// Big-endian bytes of a `u32` (`u32::to_be_bytes`).
pub open spec fn be_u32(x: u32) -> Seq<u8> {
    seq![(x >> 24u32) as u8, (x >> 16u32) as u8, (x >> 8u32) as u8, x as u8]
}

/// The `u32` of four big-endian bytes (`u32::from_be_bytes`).
pub open spec fn u32_be(b: Seq<u8>) -> u32 {
    ((b[0] as u32) << 24u32) | ((b[1] as u32) << 16u32) | ((b[2] as u32) << 8u32) | (b[3] as u32)
}

/// Reading back the little-endian bytes of a `u64` gives the same `u64`.
pub proof fn lemme_le_u64(x: u64)
    ensures
        u64_le(le_u64(x)) == x,
        le_u64(x).len() == 8,
{
    let b = le_u64(x);
    let (b0, b1, b2, b3, b4, b5, b6, b7) = (b[0], b[1], b[2], b[3], b[4], b[5], b[6], b[7]);
    assert(b0 == x as u8 && b1 == (x >> 8u64) as u8 && b2 == (x >> 16u64) as u8 && b3 == (x
        >> 24u64) as u8 && b4 == (x >> 32u64) as u8 && b5 == (x >> 40u64) as u8 && b6 == (x
        >> 48u64) as u8 && b7 == (x >> 56u64) as u8);
    assert(x == ((x as u8) as u64) | ((((x >> 8u64) as u8) as u64) << 8u64) | ((((x >> 16u64) as u8) as u64)
        << 16u64) | ((((x >> 24u64) as u8) as u64) << 24u64) | ((((x >> 32u64) as u8) as u64) << 32u64)
        | ((((x >> 40u64) as u8) as u64) << 40u64) | ((((x >> 48u64) as u8) as u64) << 48u64) | ((((x
        >> 56u64) as u8) as u64) << 56u64)) by (bit_vector);
}

/// Reading back the big-endian bytes of a `u16` gives the same `u16`.
pub proof fn lemme_be_u16(x: u16)
    ensures
        u16_be(be_u16(x)[0], be_u16(x)[1]) == x,
{
    assert(x == ((((x >> 8u16) as u8) as u16) << 8u16) | ((x as u8) as u16)) by (bit_vector);
}

/// Reading back the big-endian bytes of a `u32` gives the same `u32`.
pub proof fn lemme_be_u32(x: u32)
    ensures
        u32_be(be_u32(x)) == x,
        be_u32(x).len() == 4,
{
    let b = be_u32(x);
    assert(b[0] == (x >> 24u32) as u8 && b[1] == (x >> 16u32) as u8 && b[2] == (x >> 8u32) as u8 && b[3] == x as u8);
    assert(x == ((((x >> 24u32) as u8) as u32) << 24u32) | ((((x >> 16u32) as u8) as u32) << 16u32) | ((((x
        >> 8u32) as u8) as u32) << 8u32) | ((x as u8) as u32)) by (bit_vector);
}

/// `u64::to_le_bytes`.
pub fn octets_le_u64(x: u64) -> (r: [u8; 8])
    ensures
        r@ == le_u64(x),
{
    let r: [u8; 8] = [
        x as u8,
        (x >> 8u64) as u8,
        (x >> 16u64) as u8,
        (x >> 24u64) as u8,
        (x >> 32u64) as u8,
        (x >> 40u64) as u8,
        (x >> 48u64) as u8,
        (x >> 56u64) as u8,
    ];
    assert(r@ =~= le_u64(x));
    r
}

/// `u64::from_le_bytes` of the first eight bytes of `b`.
pub fn lire_u64_le(b: &[u8]) -> (r: u64)
    requires
        b@.len() >= 8,
    ensures
        r == u64_le(b@),
{
    (b[0] as u64) | ((b[1] as u64) << 8u64) | ((b[2] as u64) << 16u64) | ((b[3] as u64) << 24u64)
        | ((b[4] as u64) << 32u64) | ((b[5] as u64) << 40u64) | ((b[6] as u64) << 48u64) | ((
    b[7] as u64) << 56u64)
}

/// `u16::to_be_bytes`.
pub fn octets_be_u16(x: u16) -> (r: [u8; 2])
    ensures
        r@ == be_u16(x),
{
    let r: [u8; 2] = [(x >> 8u16) as u8, x as u8];
    assert(r@ =~= be_u16(x));
    r
}

/// `u32::to_be_bytes`.
pub fn octets_be_u32(x: u32) -> (r: [u8; 4])
    ensures
        r@ == be_u32(x),
{
    let r: [u8; 4] = [(x >> 24u32) as u8, (x >> 16u32) as u8, (x >> 8u32) as u8, x as u8];
    assert(r@ =~= be_u32(x));
    r
}

/// The lowercase hexadecimal digit for a value below sixteen.
pub open spec fn chiffre_hex(d: nat) -> char {
    if d < 10 {
        ((48 + d) as u32) as char
    } else {
        ((87 + d) as u32) as char
    }
}

/// Lowercase hexadecimal rendering of bytes, two digits per byte (as `{:x}` renders a
/// byte array, and `hex::encode`).
pub open spec fn hex_minuscule(b: Seq<u8>) -> Seq<char> {
    Seq::new(
        2 * b.len(),
        |i: int|
            if i % 2 == 0 {
                chiffre_hex((b[i / 2] / 16) as nat)
            } else {
                chiffre_hex((b[i / 2] % 16) as nat)
            },
    )
}

pub(crate) fn caractere_hex(d: u8) -> (c: char)
    requires
        d < 16,
    ensures
        c == chiffre_hex(d as nat),
{
    if d < 10 {
        (48 + d) as char
    } else {
        (87 + d) as char
    }
}

/// Lowercase hexadecimal rendering of the first `n` bytes of `b`.
pub fn vers_hex(b: &[u8], n: usize) -> (r: String)
    requires
        n <= b@.len(),
    ensures
        r@ == hex_minuscule(b@.take(n as int)),
{
    let mut r = String::new();
    let mut i: usize = 0;
    while i < n
        invariant
            i <= n <= b@.len(),
            r@ =~= hex_minuscule(b@.take(i as int)),
        decreases n - i,
    {
        let octet = b[i];
        pousser_caractere(&mut r, caractere_hex(octet / 16));
        pousser_caractere(&mut r, caractere_hex(octet % 16));
        assert(r@ =~= hex_minuscule(b@.take(i + 1)));
        i = i + 1;
    }
    r
}

/// On ASCII text, a prefix of the UTF-8 bytes is the encoding of the prefix of the text.
pub proof fn lemme_prefixe_ascii(s: Seq<char>, n: int)
    requires
        is_ascii_chars(s),
        0 <= n <= s.len(),
    ensures
        encode_utf8(s).take(n) == encode_utf8(s.take(n)),
{
    let t = s.take(n);
    assert(is_ascii_chars(t));
    is_ascii_chars_encode_utf8(s);
    is_ascii_chars_encode_utf8(t);
    assert(encode_utf8(s).take(n) =~= encode_utf8(t));
}

/// Two texts with the same UTF-8 bytes are the same text.
pub proof fn lemme_utf8_injectif(a: Seq<char>, b: Seq<char>)
    requires
        encode_utf8(a) == encode_utf8(b),
    ensures
        a == b,
{
    encode_utf8_decode_utf8(a);
    encode_utf8_decode_utf8(b);
}

/// Hexadecimal renderings are ASCII.
pub proof fn lemme_hex_ascii(b: Seq<u8>)
    ensures
        is_ascii_chars(hex_minuscule(b)),
{
    let h = hex_minuscule(b);
    assert forall|i| 0 <= i < h.len() implies '\0' <= #[trigger] h[i] <= '\u{7f}' by {
        let o = b[i / 2];
        assert(o / 16 < 16 && o % 16 < 16);
    }
}

/// Appends the bytes of `s` to `v`.
pub fn ajouter_octets(v: &mut Vec<u8>, s: &[u8])
    ensures
        final(v)@ == old(v)@ + s@,
{
    v.extend_from_slice(s);
    assert(v@ =~= old(v)@ + s@);
}

/// In ASCII text every byte index up to the end is a character boundary.
pub proof fn lemme_bord_ascii(s: Seq<char>, n: int)
    requires
        is_ascii_chars(s),
        0 <= n <= s.len(),
    ensures
        is_char_boundary(encode_utf8(s), n),
{
    let b = encode_utf8(s);
    encode_utf8_valid_utf8(s);
    is_ascii_chars_encode_utf8(s);
    if n == s.len() {
        is_char_boundary_start_end_of_seq(b);
    } else {
        assert(s[n] as u8 == b[n]);
        is_char_boundary_iff_is_leading_byte(b, n);
    }
}

/// A prefix of ASCII text is ASCII.
pub proof fn lemme_prefixe_ascii_est_ascii(s: Seq<char>, n: int)
    requires
        is_ascii_chars(s),
        0 <= n <= s.len(),
    ensures
        is_ascii_chars(s.take(n)),
{
    assert forall|i| 0 <= i < s.take(n).len() implies '\0' <= #[trigger] s.take(n)[i] <= '\u{7f}' by {
        assert(s.take(n)[i] == s[i]);
    }
}

/// `String::from_utf8`: the text that the bytes encode, or `None` when they are not UTF-8.
#[verifier::external_body]
pub(crate) fn chaine_depuis_utf8(octets: Vec<u8>) -> (r: Option<String>)
    ensures
        match r {
            Some(s) => valid_utf8(octets@) && s@ == decode_utf8(octets@),
            None => !valid_utf8(octets@),
        },
{
    String::from_utf8(octets).ok()
}

/// Whether a character has the Unicode White_Space property (`char::is_whitespace`): the
/// controls U+0009 to U+000D, the space, U+0085, U+00A0, U+1680, U+2000 to U+200A, U+2028,
/// U+2029, U+202F, U+205F and U+3000.
pub open spec fn est_blanc(c: char) -> bool {
    let n = c as u32;
    ||| 9 <= n <= 13
    ||| n == 32
    ||| n == 0x85
    ||| n == 0xa0
    ||| n == 0x1680
    ||| 0x2000 <= n <= 0x200a
    ||| n == 0x2028
    ||| n == 0x2029
    ||| n == 0x202f
    ||| n == 0x205f
    ||| n == 0x3000
}

/// A text without its leading white space.
pub open spec fn sans_blancs_debut(texte: Seq<char>) -> Seq<char>
    decreases texte.len(),
{
    if texte.len() > 0 && est_blanc(texte[0]) {
        sans_blancs_debut(texte.skip(1))
    } else {
        texte
    }
}

/// A text without its trailing white space.
pub open spec fn sans_blancs_fin(texte: Seq<char>) -> Seq<char>
    decreases texte.len(),
{
    if texte.len() > 0 && est_blanc(texte.last()) {
        sans_blancs_fin(texte.drop_last())
    } else {
        texte
    }
}

/// A text without its leading and trailing white space (`str::trim`).
pub open spec fn sans_blancs(texte: Seq<char>) -> Seq<char> {
    sans_blancs_fin(sans_blancs_debut(texte))
}

/// `str::trim`, which removes leading and trailing characters of the Unicode White_Space
/// property.
#[verifier::external_body]
pub(crate) fn rogner(texte: &str) -> (r: &str)
    ensures
        r@ == sans_blancs(texte@),
{
    texte.trim()
}

/// ASCII lowercase of one character (`char::to_ascii_lowercase`).
pub open spec fn minuscule_ascii(c: char) -> char {
    if 'A' <= c && c <= 'Z' {
        ((c as u32) + 32) as char
    } else {
        c
    }
}

/// ASCII lowercase of a text (`str::to_ascii_lowercase`).
pub open spec fn minuscules_ascii(s: Seq<char>) -> Seq<char> {
    s.map_values(|c: char| minuscule_ascii(c))
}

/// Whether `s`, lowered to ASCII lowercase, is `mot` (which is itself lowercase).
pub fn egal_en_minuscules_ascii(s: &str, mot: &str) -> (r: bool)
    ensures
        r == (minuscules_ascii(s@) == mot@),
{
    let n = s.unicode_len();
    let m = mot.unicode_len();
    if n != m {
        assert(minuscules_ascii(s@).len() != mot@.len());
        return false;
    }
    let mut i: usize = 0;
    while i < n
        invariant
            i <= n == s@.len() == mot@.len(),
            minuscules_ascii(s@).take(i as int) =~= mot@.take(i as int),
        decreases n - i,
    {
        let c = s.get_char(i);
        let bas: char = if 'A' <= c && c <= 'Z' { ((c as u8) + 32) as char } else { c };
        assert(bas == minuscule_ascii(c));
        if bas != mot.get_char(i) {
            assert(minuscules_ascii(s@)[i as int] != mot@[i as int]);
            return false;
        }
        assert(minuscules_ascii(s@).take(i + 1) =~= mot@.take(i + 1));
        i = i + 1;
    }
    assert(minuscules_ascii(s@) =~= minuscules_ascii(s@).take(n as int));
    assert(mot@ =~= mot@.take(n as int));
    true
}

/// Unicode lowercase of a text (`str::to_lowercase`).
pub uninterp spec fn minuscules(texte: Seq<char>) -> Seq<char>;

/// `str::to_lowercase`. On ASCII text it lowers each ASCII letter and keeps every other
/// character, as the Unicode lowercase mapping of an ASCII character is its ASCII lowercase.
#[verifier::external_body]
pub(crate) fn en_minuscules(texte: &str) -> (r: String)
    ensures
        r@ == minuscules(texte@),
        is_ascii_chars(texte@) ==> r@ == minuscules_ascii(texte@),
{
    texte.to_lowercase()
}

/// Whether a character is an ASCII digit.
pub open spec fn est_chiffre(c: char) -> bool {
    '0' <= c && c <= '9'
}

/// The value of a string of ASCII digits.
pub open spec fn valeur_chiffres(s: Seq<char>) -> nat
    decreases s.len(),
{
    if s.len() == 0 {
        0
    } else {
        valeur_chiffres(s.drop_last()) * 10 + ((s.last() as u32) - 48) as nat
    }
}

/// Whether a text is one or more ASCII digits.
pub open spec fn que_des_chiffres(s: Seq<char>) -> bool {
    s.len() > 0 && forall|i: int| 0 <= i < s.len() ==> est_chiffre(#[trigger] s[i])
}

/// The number that `usize::from_str` reads in a text, before its range is checked: an
/// optional '+' then one or more ASCII digits.
pub open spec fn nombre_decimal(s: Seq<char>) -> Option<nat> {
    if s.len() > 0 && s[0] == '+' {
        if que_des_chiffres(s.skip(1)) {
            Some(valeur_chiffres(s.skip(1)))
        } else {
            None
        }
    } else if que_des_chiffres(s) {
        Some(valeur_chiffres(s))
    } else {
        None
    }
}

/// `str::parse::<usize>`: the number, when the text is one and it fits.
pub fn lire_usize(s: &str) -> (r: Option<usize>)
    ensures
        match nombre_decimal(s@) {
            Some(v) => if v <= usize::MAX { r == Some(v as usize) } else { r is None },
            None => r is None,
        },
{
    let n = s.unicode_len();
    let mut debut: usize = 0;
    if n > 0 && s.get_char(0) == '+' {
        debut = 1;
    }
    if debut >= n {
        proof {
            if s@.len() > 0 && s@[0] == '+' {
                assert(s@.skip(1).len() == 0);
            }
        }
        return None;
    }
    let ghost t = s@.skip(debut as int);
    assert(s@.skip(0) =~= s@);
    assert(nombre_decimal(s@) == if que_des_chiffres(t) { Some(valeur_chiffres(t)) } else { None::<nat> });
    let mut valeur: usize = 0;
    let mut deborde = false;
    let mut i: usize = debut;
    while i < n
        invariant
            debut <= i <= n == s@.len(),
            debut < n,
            t == s@.skip(debut as int),
            nombre_decimal(s@) == if que_des_chiffres(t) { Some(valeur_chiffres(t)) } else { None::<nat> },
            forall|j: int| debut <= j < i ==> est_chiffre(#[trigger] s@[j]),
            !deborde ==> valeur == valeur_chiffres(t.take(i - debut)),
            deborde ==> valeur_chiffres(t.take(i - debut)) > usize::MAX,
        decreases n - i,
    {
        let c = s.get_char(i);
        if !('0' <= c && c <= '9') {
            assert(t[i - debut] == s@[i as int]);
            assert(!est_chiffre(t[i - debut]));
            assert(!que_des_chiffres(t));
            return None;
        }
        let d = (c as u32 - 48) as usize;
        assert(t.take(i + 1 - debut).drop_last() =~= t.take(i - debut));
        assert(t.take(i + 1 - debut).last() == c);
        if !deborde {
            match valeur.checked_mul(10) {
                Some(v) => match v.checked_add(d) {
                    Some(w) => { valeur = w; },
                    None => { deborde = true; },
                },
                None => {
                    deborde = true;
                    assert(valeur_chiffres(t.take(i + 1 - debut)) >= valeur_chiffres(t.take(i - debut)) * 10);
                },
            }
        } else {
            assert(valeur_chiffres(t.take(i + 1 - debut)) >= valeur_chiffres(t.take(i - debut)) * 10) by (nonlinear_arith)
                requires valeur_chiffres(t.take(i + 1 - debut)) >= valeur_chiffres(t.take(i - debut)) * 10;
        }
        i = i + 1;
    }
    assert(t.take(n - debut) =~= t);
    assert(que_des_chiffres(t)) by {
        assert forall|j: int| 0 <= j < t.len() implies est_chiffre(#[trigger] t[j]) by {
            assert(t[j] == s@[j + debut]);
        }
    }
    if deborde { None } else { Some(valeur) }
}


/// The decimal rendering of a number is one or more ASCII digits whose value is the number.
pub proof fn lemme_decimal_relu(n: nat)
    ensures
        que_des_chiffres(decimal(n)),
        valeur_chiffres(decimal(n)) == n,
    decreases n,
{
    let d = decimal(n);
    if n < 10 {
        assert((chiffre_decimal(n) as u32) == 48 + n);
        assert(d.drop_last() =~= Seq::<char>::empty());
        assert(valeur_chiffres(Seq::<char>::empty()) == 0);
        assert(d.last() == chiffre_decimal(n));
    } else {
        lemme_decimal_relu(n / 10);
        let c = chiffre_decimal(n % 10);
        assert((c as u32) == 48 + n % 10);
        assert(d.drop_last() =~= decimal(n / 10));
        assert(d.last() == c);
        assert(valeur_chiffres(d) == valeur_chiffres(decimal(n / 10)) * 10 + ((c as u32) - 48) as nat);
        assert(n == (n / 10) * 10 + n % 10);
        assert forall|i: int| 0 <= i < d.len() implies est_chiffre(#[trigger] d[i]) by {
            if i < d.len() - 1 {
                assert(d[i] == decimal(n / 10)[i]);
            }
        }
    }
}

/// ASCII digits are neither white space nor changed by ASCII lowering, so a number written
/// in decimal is read back unchanged once trimmed and lowered.
pub proof fn lemme_decimal_sans_blancs(n: nat)
    ensures
        sans_blancs(decimal(n)) == decimal(n),
        is_ascii_chars(decimal(n)),
        minuscules_ascii(decimal(n)) == decimal(n),
        decimal(n).len() > 0,
{
    lemme_decimal_relu(n);
    let d = decimal(n);
    assert(est_chiffre(d[0]));
    assert(est_chiffre(d.last()));
    assert(('0' as u32) == 48u32 && ('9' as u32) == 57u32);
    assert(sans_blancs_debut(d) == d);
    assert(sans_blancs_fin(d) == d);
    assert forall|i: int| 0 <= i < d.len() implies '\0' <= #[trigger] d[i] <= '\u{7f}' by {
        assert(est_chiffre(d[i]));
    }
    assert forall|i: int| 0 <= i < d.len() implies #[trigger] minuscules_ascii(d)[i] == d[i] by {
        assert(est_chiffre(d[i]));
    }
    assert(minuscules_ascii(d) =~= d);
}


/// Trailing white space does not change what trimming the end leaves.
pub proof fn lemme_blancs_en_fin(x: Seq<char>, w: Seq<char>)
    requires
        forall|i: int| 0 <= i < w.len() ==> est_blanc(#[trigger] w[i]),
    ensures
        sans_blancs_fin(x + w) == sans_blancs_fin(x),
    decreases w.len(),
{
    if w.len() == 0 {
        assert(x + w =~= x);
    } else {
        let w2 = w.drop_last();
        assert((x + w).drop_last() =~= x + w2);
        assert((x + w).last() == w.last());
        assert forall|i: int| 0 <= i < w2.len() implies est_blanc(#[trigger] w2[i]) by {
            assert(w2[i] == w[i]);
        }
        lemme_blancs_en_fin(x, w2);
    }
}

} // verus!
