//! Rendezvous over Bluetooth Low Energy. A peer advertises, as its device name, the
//! URL-safe unpadded Base64 of a compact payload:
//! `[4 bytes IPv4][2 bytes port, big-endian][1 byte name length][name bytes]`.

pub mod advertise;
pub mod discover;

use vstd::prelude::*;
use base64::Engine;

verus! {

/// The service UUID under which CargoDrop peers advertise.
pub const APP_SERVICE_UUID: &'static str = "d59218d6-6b22-4a0b-9ba7-70e28148b488";

/// Largest raw payload, in bytes, before Base64.
pub const MAX_RAW_PAYLOAD_BYTES: usize = 21;

/// Offset of the name-length byte in the raw payload.
pub const USERNAME_LEN_OFFSET: usize = 6;

/// Offset of the name bytes in the raw payload.
pub const USERNAME_OFFSET: usize = 7;

/// The character of a 6-bit value in the URL-safe Base64 alphabet: 'A' to 'Z', 'a' to 'z',
/// '0' to '9', '-' and '_'.
pub open spec fn car_b64(v: nat) -> char {
    if v < 26 {
        ((65 + v) as u32) as char
    } else if v < 52 {
        ((71 + v) as u32) as char
    } else if v < 62 {
        ((v - 4) as u32) as char
    } else if v == 62 {
        '-'
    } else {
        '_'
    }
}

/// URL-safe Base64 without padding of a byte string: each group of three bytes becomes
/// four characters of six bits each; a last group of one or two bytes becomes two or three
/// characters, the unused low bits set to zero.
pub open spec fn base64_url_encode(b: Seq<u8>) -> Seq<char>
    decreases b.len(),
{
    if b.len() == 0 {
        Seq::empty()
    } else if b.len() == 1 {
        seq![car_b64((b[0] / 4) as nat), car_b64(((b[0] % 4) * 16) as nat)]
    } else if b.len() == 2 {
        seq![
            car_b64((b[0] / 4) as nat),
            car_b64(((b[0] % 4) * 16 + b[1] / 16) as nat),
            car_b64(((b[1] % 16) * 4) as nat),
        ]
    } else {
        seq![
            car_b64((b[0] / 4) as nat),
            car_b64(((b[0] % 4) * 16 + b[1] / 16) as nat),
            car_b64(((b[1] % 16) * 4 + b[2] / 64) as nat),
            car_b64((b[2] % 64) as nat),
        ] + base64_url_encode(b.skip(3))
    }
}

/// URL-safe unpadded Base64 decoding of a text: the bytes whose encoding it is, `None` when
/// it is no encoding (a character outside the alphabet, padding, a length of one more than a
/// multiple of four, or unused bits that are not zero).
pub open spec fn base64_url_decode(texte: Seq<char>) -> Option<Seq<u8>> {
    if exists|b: Seq<u8>| base64_url_encode(b) == texte {
        Some(choose|b: Seq<u8>| base64_url_encode(b) == texte)
    } else {
        None
    }
}

/// Two values below 64 with the same character are the same value.
proof fn lemme_car_b64_injectif(v: nat, w: nat)
    requires
        v < 64,
        w < 64,
        car_b64(v) == car_b64(w),
    ensures
        v == w,
{
    assert(('-' as u32) == 45u32);
    assert(('_' as u32) == 95u32);
}

/// The length of an encoding: four characters per whole group, and two or three for a last
/// group of one or two bytes.
proof fn lemme_longueur_b64(b: Seq<u8>)
    ensures
        base64_url_encode(b).len() == 4 * (b.len() / 3) + (if b.len() % 3 == 0 { 0 } else { b.len() % 3 + 1 }),
    decreases b.len(),
{
    if b.len() >= 3 {
        lemme_longueur_b64(b.skip(3));
    }
}

/// The bytes of a group are found again from its characters' values.
proof fn lemme_groupe_b64(x0: u8, x1: u8, x2: u8, y0: u8, y1: u8, y2: u8)
    requires
        x0 / 4 == y0 / 4,
        (x0 % 4) * 16 + x1 / 16 == (y0 % 4) * 16 + y1 / 16,
        (x1 % 16) * 4 + x2 / 64 == (y1 % 16) * 4 + y2 / 64,
        x2 % 64 == y2 % 64,
    ensures
        x0 == y0,
        x1 == y1,
        x2 == y2,
{
    assert(x0 == y0 && x1 == y1 && x2 == y2) by (bit_vector)
        requires
            x0 / 4 == y0 / 4,
            (x0 % 4) * 16 + x1 / 16 == (y0 % 4) * 16 + y1 / 16,
            (x1 % 16) * 4 + x2 / 64 == (y1 % 16) * 4 + y2 / 64,
            x2 % 64 == y2 % 64,
    ;
}

/// Two byte strings with the same encoding are the same.
pub proof fn lemme_base64_injectif(a: Seq<u8>, b: Seq<u8>)
    requires
        base64_url_encode(a) == base64_url_encode(b),
    ensures
        a == b,
    decreases a.len(),
{
    lemme_longueur_b64(a);
    lemme_longueur_b64(b);
    assert(a.len() == b.len()) by (nonlinear_arith)
        requires
            4 * (a.len() / 3) + (if a.len() % 3 == 0 { 0 } else { a.len() % 3 + 1 })
                == 4 * (b.len() / 3) + (if b.len() % 3 == 0 { 0 } else { b.len() % 3 + 1 }),
    ;
    let ea = base64_url_encode(a);
    let eb = base64_url_encode(b);
    if a.len() == 0 {
        assert(a =~= b);
    } else if a.len() == 1 {
        lemme_car_b64_injectif((a[0] / 4) as nat, (b[0] / 4) as nat);
        lemme_car_b64_injectif(((a[0] % 4) * 16) as nat, ((b[0] % 4) * 16) as nat);
        lemme_groupe_b64(a[0], 0, 0, b[0], 0, 0);
        assert(a =~= b);
    } else if a.len() == 2 {
        assert(ea[0] == eb[0] && ea[1] == eb[1] && ea[2] == eb[2]);
        lemme_car_b64_injectif((a[0] / 4) as nat, (b[0] / 4) as nat);
        lemme_car_b64_injectif(((a[0] % 4) * 16 + a[1] / 16) as nat, ((b[0] % 4) * 16 + b[1] / 16) as nat);
        lemme_car_b64_injectif(((a[1] % 16) * 4) as nat, ((b[1] % 16) * 4) as nat);
        lemme_groupe_b64(a[0], a[1], 0, b[0], b[1], 0);
        assert(a =~= b);
    } else {
        assert(ea[0] == eb[0] && ea[1] == eb[1] && ea[2] == eb[2] && ea[3] == eb[3]);
        lemme_car_b64_injectif((a[0] / 4) as nat, (b[0] / 4) as nat);
        lemme_car_b64_injectif(((a[0] % 4) * 16 + a[1] / 16) as nat, ((b[0] % 4) * 16 + b[1] / 16) as nat);
        lemme_car_b64_injectif(((a[1] % 16) * 4 + a[2] / 64) as nat, ((b[1] % 16) * 4 + b[2] / 64) as nat);
        lemme_car_b64_injectif((a[2] % 64) as nat, (b[2] % 64) as nat);
        lemme_groupe_b64(a[0], a[1], a[2], b[0], b[1], b[2]);
        assert(ea.skip(4) =~= base64_url_encode(a.skip(3)));
        assert(eb.skip(4) =~= base64_url_encode(b.skip(3)));
        lemme_base64_injectif(a.skip(3), b.skip(3));
        assert forall|i: int| 3 <= i < a.len() implies a[i] == b[i] by {
            assert(a.skip(3)[i - 3] == a[i]);
            assert(b.skip(3)[i - 3] == b[i]);
        }
        assert(a =~= b);
    }
}

/// Decoding an encoding gives the bytes back.
pub proof fn lemme_base64_aller_retour(b: Seq<u8>)
    ensures
        base64_url_decode(base64_url_encode(b)) == Some(b),
{
    let t = base64_url_encode(b);
    assert(base64_url_encode(b) == t);
    let c = choose|c: Seq<u8>| base64_url_encode(c) == t;
    lemme_base64_injectif(c, b);
}

/// `base64::engine::general_purpose::URL_SAFE_NO_PAD.encode`: the URL-safe alphabet, no
/// padding, unused low bits zero.
#[verifier::external_body]
pub(crate) fn encoder_base64(octets: &[u8]) -> (r: String)
    ensures
        r@ == base64_url_encode(octets@),
{
    base64::engine::general_purpose::URL_SAFE_NO_PAD.encode(octets)
}

/// `base64::engine::general_purpose::URL_SAFE_NO_PAD.decode`: `None` on any decoding error.
/// The engine refuses a byte outside the alphabet, padding, a length of one more than a
/// multiple of four and unused bits that are not zero, so it accepts exactly the encodings.
#[verifier::external_body]
pub(crate) fn decoder_base64(texte: &str) -> (r: Option<Vec<u8>>)
    ensures
        match r {
            Some(v) => base64_url_decode(texte@) == Some(v@),
            None => base64_url_decode(texte@) is None,
        },
{
    base64::engine::general_purpose::URL_SAFE_NO_PAD.decode(texte).ok()
}

} // verus!
