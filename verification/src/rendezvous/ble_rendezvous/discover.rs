//! Reading advertised payloads back.

use vstd::prelude::*;
use vstd::utf8::{decode_utf8, valid_utf8};
use crate::octets::{u16_be, chaine_depuis_utf8};
use crate::rendezvous::ble_rendezvous::{USERNAME_LEN_OFFSET, USERNAME_OFFSET, base64_url_decode, decoder_base64};
use crate::rendezvous::{Peer, PeerMap};
use crate::ui::interaction::{InteractionHandler, PeerEvent};
use std::sync::Arc;

verus! {

/// What a raw payload says: address bytes, port and name, when it is well formed (long
/// enough for its header, exactly as long as its length byte says, and a UTF-8 name).
pub open spec fn lecture_charge(b: Seq<u8>) -> Option<(Seq<u8>, u16, Seq<char>)> {
    if b.len() < USERNAME_OFFSET {
        None
    } else if b.len() != USERNAME_OFFSET + b[USERNAME_LEN_OFFSET as int] {
        None
    } else if !valid_utf8(b.skip(USERNAME_OFFSET as int)) {
        None
    } else {
        Some((b.take(4), u16_be(b[4], b[5]), decode_utf8(b.skip(USERNAME_OFFSET as int))))
    }
}

/// What an advertised device name says, when it is the Base64 of a well-formed payload.
pub open spec fn lecture_nom(nom: Seq<char>) -> Option<(Seq<u8>, u16, Seq<char>)> {
    match base64_url_decode(nom) {
        Some(b) => lecture_charge(b),
        None => None,
    }
}

/// Decodes an advertised device name into address, port and name.
pub fn decode_network_info_from_name(name: &str) -> (r: Option<([u8; 4], u16, String)>)
    ensures
        match r {
            Some((ip, port, username)) => lecture_nom(name@) == Some((ip@, port, username@)),
            None => lecture_nom(name@) is None,
        },
{
    let decoded = match decoder_base64(name) {
        Some(d) => d,
        None => return None,
    };
    if decoded.len() < USERNAME_OFFSET {
        return None;
    }
    let username_len = decoded[USERNAME_LEN_OFFSET] as usize;
    if decoded.len() != USERNAME_OFFSET + username_len {
        return None;
    }
    let ip: [u8; 4] = [decoded[0], decoded[1], decoded[2], decoded[3]];
    assert(ip@ =~= decoded@.take(4));
    let port: u16 = ((decoded[4] as u16) << 8u16) | (decoded[5] as u16);
    let nom_octets = vstd::slice::slice_to_vec(vstd::slice::slice_subrange(decoded.as_slice(), USERNAME_OFFSET, USERNAME_OFFSET + username_len));
    assert(nom_octets@ =~= decoded@.skip(USERNAME_OFFSET as int));
    let username = match chaine_depuis_utf8(nom_octets) {
        Some(u) => u,
        None => return None,
    };
    Some((ip, port, username))
}

/// Whether a list holds the value `x`.
pub open spec fn contient(v: Seq<u128>, x: u128) -> bool {
    exists|i: int| 0 <= i < v.len() && v[i] == x
}

/// The peer that an advertisement describes: one that lists the application's service and
/// whose local name decodes; it is keyed by that name.
pub open spec fn pair_annonce(services: Seq<u128>, cible: u128, nom_local: Option<Seq<char>>) -> Option<(Seq<char>, Seq<u8>, u16, Seq<char>)> {
    if !contient(services, cible) {
        None
    } else {
        match nom_local {
            None => None,
            Some(n) => match lecture_nom(n) {
                Some((ip, port, nom)) => Some((n, ip, port, nom)),
                None => None,
            },
        }
    }
}

/// Whether an event is one of the stale discoveries that the system replays in the first
/// second of a scan.
pub open spec fn decouverte_ignoree(decouverte: bool, ecoule_ms: u64) -> bool {
    decouverte && ecoule_ms < 1000
}

/// Longest silence, in nanoseconds, after which a peer is taken as gone: 21 s, the first
/// duration whose whole seconds exceed 20.
pub const SILENCE_MAX_NS: u64 = 21000000000;

/// Time elapsed from `depuis` to `maintenant`, none when the clock reads earlier.
pub open spec fn ecoule(depuis: u64, maintenant: u64) -> nat {
    if maintenant >= depuis { (maintenant - depuis) as nat } else { 0 }
}

/// Whether a peer last heard at `vu` is gone at `maintenant`.
pub open spec fn expire(vu: u64, maintenant: u64) -> bool {
    ecoule(vu, maintenant) >= SILENCE_MAX_NS
}

/// Whether a key is among the entries.
pub open spec fn cle_presente<V>(v: Seq<(String, V)>, k: Seq<char>) -> bool {
    exists|i: int| 0 <= i < v.len() && v[i].0@ == k
}

/// The entries as a map, a later entry replacing an earlier one of the same key.
pub open spec fn vue_entrees<V>(v: Seq<(String, V)>) -> Map<Seq<char>, V>
    decreases v.len(),
{
    if v.len() == 0 {
        Map::empty()
    } else {
        vue_entrees(v.drop_last()).insert(v.last().0@, v.last().1)
    }
}

/// Whether no key appears twice.
pub open spec fn cles_uniques<V>(v: Seq<(String, V)>) -> bool {
    forall|i: int, j: int| 0 <= i < j < v.len() ==> v[i].0@ != v[j].0@
}

/// The events for peers present now that were not before, in the order they are listed now.
pub open spec fn apparitions(actuels: Seq<(String, Peer)>, derniers: Seq<(String, Peer)>, heure: String) -> Seq<PeerEvent>
    decreases actuels.len(),
{
    if actuels.len() == 0 {
        Seq::empty()
    } else {
        let avant = apparitions(actuels.drop_last(), derniers, heure);
        if cle_presente(derniers, actuels.last().0@) {
            avant
        } else {
            avant.push(PeerEvent::NewPeer(actuels.last().1, heure))
        }
    }
}

/// The events for peers present before that are not now, in the order they were listed.
pub open spec fn disparitions(derniers: Seq<(String, Peer)>, actuels: Seq<(String, Peer)>, heure: String) -> Seq<PeerEvent>
    decreases derniers.len(),
{
    if derniers.len() == 0 {
        Seq::empty()
    } else {
        let avant = disparitions(derniers.drop_last(), actuels, heure);
        if cle_presente(actuels, derniers.last().0@) {
            avant
        } else {
            avant.push(PeerEvent::PeerLost(derniers.last().1, heure))
        }
    }
}

/// The appearance events of an observation are exactly one `NewPeer`, at the time of the
/// observation, for each entry present now whose key was absent at the last change, in the
/// order the entries are listed now; so their number is the number of such entries.
pub proof fn loi_apparitions(actuels: Seq<(String, Peer)>, derniers: Seq<(String, Peer)>, heure: String)
    ensures
        apparitions(actuels, derniers, heure) == actuels.filter(|e: (String, Peer)| !cle_presente(derniers, e.0@)).map_values(
            |e: (String, Peer)| PeerEvent::NewPeer(e.1, heure),
        ),
        apparitions(actuels, derniers, heure).len() == actuels.filter(|e: (String, Peer)| !cle_presente(derniers, e.0@)).len(),
    decreases actuels.len(),
{
    reveal(Seq::filter);
    let f = |e: (String, Peer)| !cle_presente(derniers, e.0@);
    let g = |e: (String, Peer)| PeerEvent::NewPeer(e.1, heure);
    if actuels.len() > 0 {
        loi_apparitions(actuels.drop_last(), derniers, heure);
        let avant = actuels.drop_last().filter(f);
        if f(actuels.last()) {
            assert(actuels.filter(f) == avant.push(actuels.last()));
            assert(avant.push(actuels.last()).map_values(g) =~= avant.map_values(g).push(g(actuels.last())));
        } else {
            assert(actuels.filter(f) == avant);
        }
    } else {
        assert(actuels.filter(f).map_values(g) =~= Seq::<PeerEvent>::empty());
    }
}

/// The departure events of an observation are exactly one `PeerLost`, at the time of the
/// observation, for each entry seen at the last change whose key is absent now, in the order
/// they were listed then.
pub proof fn loi_disparitions(derniers: Seq<(String, Peer)>, actuels: Seq<(String, Peer)>, heure: String)
    ensures
        disparitions(derniers, actuels, heure) == derniers.filter(|e: (String, Peer)| !cle_presente(actuels, e.0@)).map_values(
            |e: (String, Peer)| PeerEvent::PeerLost(e.1, heure),
        ),
    decreases derniers.len(),
{
    reveal(Seq::filter);
    let f = |e: (String, Peer)| !cle_presente(actuels, e.0@);
    let g = |e: (String, Peer)| PeerEvent::PeerLost(e.1, heure);
    if derniers.len() > 0 {
        loi_disparitions(derniers.drop_last(), actuels, heure);
        let avant = derniers.drop_last().filter(f);
        if f(derniers.last()) {
            assert(derniers.filter(f) == avant.push(derniers.last()));
            assert(avant.push(derniers.last()).map_values(g) =~= avant.map_values(g).push(g(derniers.last())));
        } else {
            assert(derniers.filter(f) == avant);
        }
    } else {
        assert(derniers.filter(f).map_values(g) =~= Seq::<PeerEvent>::empty());
    }
}

/// The lost peers once those that came back are taken out.
pub open spec fn sans_revenus(perdus: Map<Seq<char>, Peer>, actuels: Seq<(String, Peer)>, derniers: Seq<(String, Peer)>) -> Map<Seq<char>, Peer>
    decreases actuels.len(),
{
    if actuels.len() == 0 {
        perdus
    } else {
        let avant = sans_revenus(perdus, actuels.drop_last(), derniers);
        if cle_presente(derniers, actuels.last().0@) {
            avant
        } else {
            avant.remove(actuels.last().0@)
        }
    }
}

/// The lost peers once those that just left are added.
pub open spec fn avec_partis(perdus: Map<Seq<char>, Peer>, derniers: Seq<(String, Peer)>, actuels: Seq<(String, Peer)>) -> Map<Seq<char>, Peer>
    decreases derniers.len(),
{
    if derniers.len() == 0 {
        perdus
    } else {
        let avant = avec_partis(perdus, derniers.drop_last(), actuels);
        if cle_presente(actuels, derniers.last().0@) {
            avant
        } else {
            avant.insert(derniers.last().0@, derniers.last().1)
        }
    }
}

/// Whether two lists of entries hold the same keys.
pub open spec fn memes_cles<V, W>(a: Seq<(String, V)>, b: Seq<(String, W)>) -> bool {
    forall|k: Seq<char>| #[trigger] cle_presente(a, k) <==> cle_presente(b, k)
}

/// Whether every key of `a` is among the keys of `b`.
fn cles_incluses<V, W>(a: &Vec<(String, V)>, b: &Vec<(String, W)>) -> (r: bool)
    ensures
        r == forall|k: Seq<char>| cle_presente(a@, k) ==> cle_presente(b@, k),
{
    let mut i: usize = 0;
    while i < a.len()
        invariant
            i <= a.len(),
            forall|j: int| 0 <= j < i ==> cle_presente(b@, #[trigger] a@[j].0@),
        decreases a.len() - i,
    {
        if !cle_dans(b, &a[i].0) {
            assert(cle_presente(a@, a@[i as int].0@));
            return false;
        }
        i = i + 1;
    }
    assert forall|k: Seq<char>| cle_presente(a@, k) implies cle_presente(b@, k) by {
        let j = choose|j: int| 0 <= j < a@.len() && a@[j].0@ == k;
        assert(cle_presente(b@, a@[j].0@));
    }
    true
}

/// Whether a key is among the entries.
fn cle_dans<V>(v: &Vec<(String, V)>, k: &String) -> (r: bool)
    ensures
        r == cle_presente(v@, k@),
{
    let mut i: usize = 0;
    while i < v.len()
        invariant
            i <= v.len(),
            forall|j: int| 0 <= j < i ==> v@[j].0@ != k@,
        decreases v.len() - i,
    {
        if v[i].0 == *k {
            return true;
        }
        i = i + 1;
    }
    false
}

/// The entries without those of key `k`.
fn retirer_cle<V>(v: Vec<(String, V)>, k: &String) -> (r: Vec<(String, V)>)
    requires
        cles_uniques(v@),
    ensures
        vue_entrees(r@) == vue_entrees(v@).remove(k@),
        cles_uniques(r@),
        !cle_presente(r@, k@),
        forall|c: Seq<char>| cle_presente(r@, c) <==> cle_presente(v@, c) && c != k@,
{
    let mut r: Vec<(String, V)> = Vec::new();
    let mut reste = v;
    let ghost v0 = reste@;
    let mut i: usize = 0;
    let n = reste.len();
    while i < n
        invariant
            i <= n == v0.len(),
            reste@ =~= v0.skip(i as int),
            cles_uniques(v0),
            vue_entrees(r@) == vue_entrees(v0.take(i as int)).remove(k@),
            cles_uniques(r@),
            !cle_presente(r@, k@),
            forall|c: Seq<char>| cle_presente(r@, c) <==> cle_presente(v0.take(i as int), c) && c != k@,
        decreases n - i,
    {
        let e = reste.remove(0);
        let ghost pris = v0.take(i + 1);
        assert(e == v0[i as int]);
        assert(pris.drop_last() =~= v0.take(i as int));
        assert(pris.last() == e);
        assert(v0.skip(i + 1) =~= v0.skip(i as int).drop_first());
        if e.0 == *k {
            assert(vue_entrees(pris).remove(k@) =~= vue_entrees(v0.take(i as int)).remove(k@));
            assert forall|c: Seq<char>| cle_presente(pris, c) && c != k@ implies cle_presente(v0.take(i as int), c) by {
                let j = choose|j: int| 0 <= j < pris.len() && pris[j].0@ == c;
                assert(j < i);
                assert(v0.take(i as int)[j] == pris[j]);
            }
            assert forall|c: Seq<char>| cle_presente(v0.take(i as int), c) implies cle_presente(pris, c) by {
                let j = choose|j: int| 0 <= j < v0.take(i as int).len() && v0.take(i as int)[j].0@ == c;
                assert(pris[j] == v0.take(i as int)[j]);
            }
        } else {
            let ghost avant = r@;
            assert forall|j: int| 0 <= j < r@.len() implies r@[j].0@ != e.0@ by {
                if r@[j].0@ == e.0@ {
                    assert(cle_presente(r@, e.0@));
                    let m = choose|m: int| 0 <= m < v0.take(i as int).len() && v0.take(i as int)[m].0@ == e.0@;
                    assert(v0[m].0@ == v0[i as int].0@);
                }
            }
            r.push(e);
            assert(r@.drop_last() =~= avant);
            assert(vue_entrees(r@) =~= vue_entrees(avant).insert(e.0@, e.1));
            assert(vue_entrees(pris).remove(k@) =~= vue_entrees(v0.take(i as int)).remove(k@).insert(e.0@, e.1));
            assert forall|c: Seq<char>| cle_presente(r@, c) <==> cle_presente(pris, c) && c != k@ by {
                if cle_presente(r@, c) {
                    let j = choose|j: int| 0 <= j < r@.len() && r@[j].0@ == c;
                    if j < avant.len() {
                        assert(avant[j] == r@[j]);
                        assert(cle_presente(avant, c));
                        let m = choose|m: int| 0 <= m < v0.take(i as int).len() && v0.take(i as int)[m].0@ == c;
                        assert(pris[m] == v0.take(i as int)[m]);
                    } else {
                        assert(pris[i as int] == e);
                    }
                }
                if cle_presente(pris, c) && c != k@ {
                    let j = choose|j: int| 0 <= j < pris.len() && pris[j].0@ == c;
                    if j < i {
                        assert(v0.take(i as int)[j] == pris[j]);
                        assert(cle_presente(avant, c));
                        let m = choose|m: int| 0 <= m < avant.len() && avant[m].0@ == c;
                        assert(r@[m] == avant[m]);
                    } else {
                        assert(r@[avant.len() as int] == e);
                    }
                }
            }
            assert forall|a: int, b: int| 0 <= a < b < r@.len() implies r@[a].0@ != r@[b].0@ by {
                if b < avant.len() {
                    assert(r@[a] == avant[a] && r@[b] == avant[b]);
                } else {
                    assert(r@[a] == avant[a]);
                }
            }
        }
        i = i + 1;
    }
    assert(v0.take(n as int) =~= v0);
    r
}

/// The entries with `(k, x)` in place of any entry of key `k`.
fn inserer_cle<V>(v: Vec<(String, V)>, k: String, x: V) -> (r: Vec<(String, V)>)
    requires
        cles_uniques(v@),
    ensures
        vue_entrees(r@) == vue_entrees(v@).insert(k@, x),
        cles_uniques(r@),
{
    let mut r = retirer_cle(v, &k);
    let ghost avant = r@;
    let ghost cle = k@;
    r.push((k, x));
    proof {
        assert(r@.drop_last() =~= avant);
        assert(vue_entrees(avant).remove(cle).insert(cle, x) =~= vue_entrees(v@).insert(cle, x));
        assert forall|a: int, b: int| 0 <= a < b < r@.len() implies r@[a].0@ != r@[b].0@ by {
            if b < avant.len() {
                assert(r@[a] == avant[a] && r@[b] == avant[b]);
            } else {
                assert(r@[a] == avant[a]);
                assert(cle_presente(avant, avant[a].0@));
            }
        }
    }
    r
}

/// The keys of the lost peers once those that came back are taken out: the keys that were
/// lost, less those now present that were not present before.
proof fn lemme_sans_revenus(perdus: Map<Seq<char>, Peer>, actuels: Seq<(String, Peer)>, derniers: Seq<(String, Peer)>, k: Seq<char>)
    ensures
        sans_revenus(perdus, actuels, derniers).contains_key(k) <==> perdus.contains_key(k)
            && !(cle_presente(actuels, k) && !cle_presente(derniers, k)),
    decreases actuels.len(),
{
    if actuels.len() > 0 {
        let a = actuels.drop_last();
        lemme_sans_revenus(perdus, a, derniers, k);
        if cle_presente(actuels, k) {
            if !cle_presente(a, k) {
                let i = choose|i: int| 0 <= i < actuels.len() && actuels[i].0@ == k;
                assert(i == actuels.len() - 1) by {
                    if i < actuels.len() - 1 {
                        assert(a[i] == actuels[i]);
                    }
                }
            }
        } else {
            assert forall|i: int| 0 <= i < a.len() implies a[i].0@ != k by {
                assert(a[i] == actuels[i]);
            }
        }
        if cle_presente(a, k) {
            let i = choose|i: int| 0 <= i < a.len() && a[i].0@ == k;
            assert(actuels[i] == a[i]);
        }
    }
}

/// The keys of the lost peers once those that left are added: the keys that were lost,
/// and those present before that are not now.
proof fn lemme_avec_partis(perdus: Map<Seq<char>, Peer>, derniers: Seq<(String, Peer)>, actuels: Seq<(String, Peer)>, k: Seq<char>)
    ensures
        avec_partis(perdus, derniers, actuels).contains_key(k) <==> perdus.contains_key(k)
            || (cle_presente(derniers, k) && !cle_presente(actuels, k)),
    decreases derniers.len(),
{
    if derniers.len() > 0 {
        let d = derniers.drop_last();
        lemme_avec_partis(perdus, d, actuels, k);
        if cle_presente(derniers, k) && !cle_presente(d, k) {
            let i = choose|i: int| 0 <= i < derniers.len() && derniers[i].0@ == k;
            assert(i == derniers.len() - 1) by {
                if i < derniers.len() - 1 {
                    assert(d[i] == derniers[i]);
                }
            }
        }
        if cle_presente(d, k) {
            let i = choose|i: int| 0 <= i < d.len() && d[i].0@ == k;
            assert(derniers[i] == d[i]);
        }
    }
}

/// What the watch over discovered peers remembers: the peers seen at the last change, and
/// the peers lost since (keyed by payload, each key once).
pub struct SuiviPairs {
    derniers: Vec<(String, Peer)>,
    perdus: Vec<(String, Peer)>,
}

impl SuiviPairs {
    /// Each lost key once, and no lost peer among those seen at the last change.
    pub closed spec fn bien_forme(self) -> bool {
        &&& cles_uniques(self.perdus@)
        &&& forall|k: Seq<char>| !(cle_presente(self.perdus@, k) && cle_presente(self.derniers@, k))
    }

    /// The peers seen at the last change.
    pub closed spec fn derniers(self) -> Seq<(String, Peer)> {
        self.derniers@
    }

    /// The lost peers, in the order they were recorded.
    pub closed spec fn entrees_perdues(self) -> Seq<(String, Peer)> {
        self.perdus@
    }

    /// The lost peers, by key.
    pub open spec fn perdus(self) -> Map<Seq<char>, Peer> {
        vue_entrees(self.entrees_perdues())
    }

    /// Nothing seen, nothing lost.
    pub fn nouveau() -> (r: Self)
        ensures
            r.bien_forme(),
            r.derniers() == Seq::<(String, Peer)>::empty(),
            r.perdus() == Map::<Seq<char>, Peer>::empty(),
    {
        SuiviPairs { derniers: Vec::new(), perdus: Vec::new() }
    }

    /// A lost peer is never among the peers seen at the last change.
    pub proof fn loi_perdus_absents(s: SuiviPairs, k: Seq<char>)
        requires
            s.bien_forme(),
        ensures
            !(s.perdus().contains_key(k) && cle_presente(s.derniers(), k)),
    {
        lemme_vue_cles(s.perdus@, k);
    }

    /// The lost peers with their keys, each key once, in the order they were recorded.
    pub fn pairs_perdus(&self) -> (r: Vec<(String, Peer)>)
        ensures
            r@ == self.entrees_perdues(),
    {
        let mut r: Vec<(String, Peer)> = Vec::new();
        let mut i: usize = 0;
        while i < self.perdus.len()
            invariant
                i <= self.perdus@.len(),
                r@ =~= self.perdus@.take(i as int),
            decreases self.perdus@.len() - i,
        {
            r.push((self.perdus[i].0.clone(), self.perdus[i].1.copie()));
            assert(self.perdus@.take(i + 1) =~= self.perdus@.take(i as int).push(self.perdus@[i as int]));
            i = i + 1;
        }
        assert(self.perdus@.take(self.perdus@.len() as int) =~= self.perdus@);
        r
    }

    /// Looks at the peers present now. When their keys are those seen at the last change,
    /// nothing happens. Otherwise: an event for each peer that appeared (in the order listed
    /// now), then one for each that left (in the order listed before); peers that came back
    /// are no longer lost, peers that left are; and the present peers are remembered.
    pub fn observer(&mut self, actuels: &Vec<(String, Peer)>, heure: &String) -> (r: Option<Vec<PeerEvent>>)
        requires
            old(self).bien_forme(),
        ensures
            final(self).bien_forme(),
            memes_cles(actuels@, old(self).derniers()) ==> r is None && final(self).derniers() == old(self).derniers()
                && final(self).perdus() == old(self).perdus(),
            !memes_cles(actuels@, old(self).derniers()) ==> {
                &&& r matches Some(evts) && evts@ == apparitions(actuels@, old(self).derniers(), *heure)
                    + disparitions(old(self).derniers(), actuels@, *heure)
                &&& final(self).derniers() == actuels@
                &&& final(self).perdus() == avec_partis(
                    sans_revenus(old(self).perdus(), actuels@, old(self).derniers()),
                    old(self).derniers(),
                    actuels@,
                )
            },
    {
        if cles_incluses(actuels, &self.derniers) && cles_incluses(&self.derniers, actuels) {
            return None;
        }
        let ghost derniers0 = self.derniers@;
        let ghost perdus0 = self.perdus@;
        let mut perdus: Vec<(String, Peer)> = Vec::new();
        std::mem::swap(&mut perdus, &mut self.perdus);
        let mut evts: Vec<PeerEvent> = Vec::new();
        let mut i: usize = 0;
        while i < actuels.len()
            invariant
                i <= actuels@.len(),
                self.derniers@ == derniers0,
                cles_uniques(perdus@),
                evts@ =~= apparitions(actuels@.take(i as int), derniers0, *heure),
                vue_entrees(perdus@) == sans_revenus(vue_entrees(perdus0), actuels@.take(i as int), derniers0),
            decreases actuels@.len() - i,
        {
            let ghost pris = actuels@.take(i + 1);
            assert(pris.drop_last() =~= actuels@.take(i as int));
            if !cle_dans(&self.derniers, &actuels[i].0) {
                evts.push(PeerEvent::NewPeer(actuels[i].1.copie(), heure.clone()));
                perdus = retirer_cle(perdus, &actuels[i].0);
            }
            i = i + 1;
        }
        assert(actuels@.take(actuels@.len() as int) =~= actuels@);
        let ghost milieu = vue_entrees(perdus@);
        let mut j: usize = 0;
        while j < self.derniers.len()
            invariant
                j <= derniers0.len(),
                self.derniers@ == derniers0,
                cles_uniques(perdus@),
                evts@ =~= apparitions(actuels@, derniers0, *heure) + disparitions(derniers0.take(j as int), actuels@, *heure),
                vue_entrees(perdus@) == avec_partis(milieu, derniers0.take(j as int), actuels@),
            decreases derniers0.len() - j,
        {
            let ghost pris = derniers0.take(j + 1);
            assert(pris.drop_last() =~= derniers0.take(j as int));
            if !cle_dans(actuels, &self.derniers[j].0) {
                evts.push(PeerEvent::PeerLost(self.derniers[j].1.copie(), heure.clone()));
                perdus = inserer_cle(perdus, self.derniers[j].0.clone(), self.derniers[j].1.copie());
            }
            j = j + 1;
        }
        assert(derniers0.take(derniers0.len() as int) =~= derniers0);
        let mut copie: Vec<(String, Peer)> = Vec::new();
        let mut m: usize = 0;
        while m < actuels.len()
            invariant
                m <= actuels@.len(),
                copie@ =~= actuels@.take(m as int),
            decreases actuels@.len() - m,
        {
            copie.push((actuels[m].0.clone(), actuels[m].1.copie()));
            m = m + 1;
        }
        assert(actuels@.take(actuels@.len() as int) =~= actuels@);
        proof {
            assert forall|k: Seq<char>| !(cle_presente(perdus@, k) && cle_presente(copie@, k)) by {
                lemme_vue_cles(perdus@, k);
                lemme_vue_cles(perdus0, k);
                lemme_avec_partis(milieu, derniers0, actuels@, k);
                lemme_sans_revenus(vue_entrees(perdus0), actuels@, derniers0, k);
            }
        }
        *self = SuiviPairs { derniers: copie, perdus };
        Some(evts)
    }
}

/// The map of a list of entries holds exactly the keys of the list.
proof fn lemme_vue_cles<V>(v: Seq<(String, V)>, k: Seq<char>)
    ensures
        vue_entrees(v).contains_key(k) <==> cle_presente(v, k),
    decreases v.len(),
{
    if v.len() > 0 {
        let d = v.drop_last();
        lemme_vue_cles(d, k);
        if cle_presente(v, k) && v.last().0@ != k {
            let i = choose|i: int| 0 <= i < v.len() && v[i].0@ == k;
            assert(d[i] == v[i]);
        }
        if cle_presente(d, k) {
            let i = choose|i: int| 0 <= i < d.len() && d[i].0@ == k;
            assert(v[i] == d[i]);
        }
    }
}

/// The heartbeats still fresh at `maintenant`, in their order.
pub open spec fn battements_frais(v: Seq<(String, u64)>, maintenant: u64) -> Seq<(String, u64)>
    decreases v.len(),
{
    if v.len() == 0 {
        Seq::empty()
    } else {
        let avant = battements_frais(v.drop_last(), maintenant);
        if expire(v.last().1, maintenant) {
            avant
        } else {
            avant.push(v.last())
        }
    }
}

/// The keys whose heartbeat has gone stale at `maintenant`, in their order.
pub open spec fn cles_expirees(v: Seq<(String, u64)>, maintenant: u64) -> Seq<Seq<char>>
    decreases v.len(),
{
    if v.len() == 0 {
        Seq::empty()
    } else {
        let avant = cles_expirees(v.drop_last(), maintenant);
        if expire(v.last().1, maintenant) {
            avant.push(v.last().0@)
        } else {
            avant
        }
    }
}

proof fn lemme_frais_cles(v: Seq<(String, u64)>, maintenant: u64, k: Seq<char>)
    ensures
        cle_presente(battements_frais(v, maintenant), k) ==> cle_presente(v, k),
    decreases v.len(),
{
    if v.len() > 0 {
        let d = v.drop_last();
        lemme_frais_cles(d, maintenant, k);
        let f = battements_frais(v, maintenant);
        if cle_presente(f, k) {
            let i = choose|i: int| 0 <= i < f.len() && f[i].0@ == k;
            let fd = battements_frais(d, maintenant);
            if i < fd.len() {
                assert(f[i] == fd[i]);
                let j = choose|j: int| 0 <= j < d.len() && d[j].0@ == k;
                assert(v[j] == d[j]);
            } else {
                assert(f[i] == v.last());
            }
        }
    }
}

proof fn lemme_frais_uniques(v: Seq<(String, u64)>, maintenant: u64)
    requires
        cles_uniques(v),
    ensures
        cles_uniques(battements_frais(v, maintenant)),
    decreases v.len(),
{
    if v.len() > 0 {
        let d = v.drop_last();
        assert(cles_uniques(d)) by {
            assert forall|a: int, b: int| 0 <= a < b < d.len() implies d[a].0@ != d[b].0@ by {
                assert(d[a] == v[a] && d[b] == v[b]);
            }
        }
        lemme_frais_uniques(d, maintenant);
        let fd = battements_frais(d, maintenant);
        let f = battements_frais(v, maintenant);
        if !expire(v.last().1, maintenant) {
            assert forall|a: int, b: int| 0 <= a < b < f.len() implies f[a].0@ != f[b].0@ by {
                if b == f.len() - 1 {
                    assert(f[a] == fd[a]);
                    if fd[a].0@ == v.last().0@ {
                        assert(cle_presente(fd, v.last().0@));
                        lemme_frais_cles(d, maintenant, v.last().0@);
                        let j = choose|j: int| 0 <= j < d.len() && d[j].0@ == v.last().0@;
                        assert(v[j] == d[j]);
                    }
                } else {
                    assert(f[a] == fd[a] && f[b] == fd[b]);
                }
            }
        }
    }
}

/// The last time each advertising peer was heard, keyed by payload, each key once.
pub struct Battements {
    entrees: Vec<(String, u64)>,
}

impl Battements {
    /// Each key once.
    pub closed spec fn bien_forme(self) -> bool {
        cles_uniques(self.entrees@)
    }

    /// The heartbeats, in the order they were first recorded.
    pub closed spec fn entrees(self) -> Seq<(String, u64)> {
        self.entrees@
    }

    /// The last time heard, by key.
    pub open spec fn vue(self) -> Map<Seq<char>, u64> {
        vue_entrees(self.entrees())
    }

    /// No heartbeat yet.
    pub fn nouveau() -> (r: Self)
        ensures
            r.bien_forme(),
            r.vue() == Map::<Seq<char>, u64>::empty(),
    {
        Battements { entrees: Vec::new() }
    }

    /// Records that the peer of key `cle` was heard at `instant`.
    pub fn enregistrer(&mut self, cle: String, instant: u64)
        requires
            old(self).bien_forme(),
        ensures
            final(self).bien_forme(),
            final(self).vue() == old(self).vue().insert(cle@, instant),
    {
        let mut entrees: Vec<(String, u64)> = Vec::new();
        std::mem::swap(&mut entrees, &mut self.entrees);
        self.entrees = inserer_cle(entrees, cle, instant);
    }

    /// Forgets the peers not heard for `SILENCE_MAX_NS` at `maintenant`, and gives their
    /// keys, in the order they were recorded.
    pub fn expirer(&mut self, maintenant: u64) -> (r: Vec<String>)
        requires
            old(self).bien_forme(),
        ensures
            final(self).bien_forme(),
            final(self).entrees() == battements_frais(old(self).entrees(), maintenant),
            r@.map_values(|s: String| s@) == cles_expirees(old(self).entrees(), maintenant),
    {
        let mut gardees: Vec<(String, u64)> = Vec::new();
        let mut retirees: Vec<String> = Vec::new();
        let ghost v = self.entrees@;
        let mut i: usize = 0;
        while i < self.entrees.len()
            invariant
                i <= v.len(),
                self.entrees@ == v,
                gardees@ =~= battements_frais(v.take(i as int), maintenant),
                retirees@.map_values(|s: String| s@) =~= cles_expirees(v.take(i as int), maintenant),
            decreases v.len() - i,
        {
            assert(v.take(i + 1).drop_last() =~= v.take(i as int));
            let vu = self.entrees[i].1;
            let perime = if maintenant >= vu { maintenant - vu >= SILENCE_MAX_NS } else { false };
            if perime {
                retirees.push(self.entrees[i].0.clone());
            } else {
                gardees.push((self.entrees[i].0.clone(), vu));
            }
            i = i + 1;
        }
        assert(v.take(v.len() as int) =~= v);
        proof {
            lemme_frais_uniques(v, maintenant);
        }
        self.entrees = gardees;
        retirees
    }
}

/// Whether an event is one of the stale discoveries replayed in the first second of a scan.
pub fn ignorer_decouverte(decouverte: bool, ecoule_ms: u64) -> (r: bool)
    ensures
        r == decouverte_ignoree(decouverte, ecoule_ms),
{
    decouverte && ecoule_ms < 1000
}

/// Listens for CargoDrop advertisements and keeps the shared map of peers up to date.
pub struct BleDiscoveryService<H: ?Sized> {
    peers: PeerMap,
    handler: Arc<H>,
}

impl<H: ?Sized + InteractionHandler> BleDiscoveryService<H> {
    /// The shared map it fills.
    pub closed spec fn carte(self) -> PeerMap {
        self.peers
    }

    /// The interface it reports to.
    pub closed spec fn interface(self) -> Arc<H> {
        self.handler
    }

    /// A service filling `peers` and reporting to `handler`.
    pub fn new(peers: PeerMap, handler: Arc<H>) -> (r: Self)
        ensures
            r.carte() == peers,
            r.interface() == handler,
    {
        Self { peers, handler }
    }

    /// The shared map it fills.
    pub fn peers(&self) -> (r: &PeerMap)
        ensures
            *r == self.carte(),
    {
        &self.peers
    }

    /// The interface it reports to.
    pub fn handler(&self) -> (r: &Arc<H>)
        ensures
            *r == self.interface(),
    {
        &self.handler
    }

    /// The peer that an advertisement describes, keyed by its local name: only when it lists
    /// the application's service and its local name decodes.
    pub fn filter_and_parse_peripheral(services: &Vec<u128>, target_uuid: u128, local_name: Option<String>) -> (r: Option<(String, Peer)>)
        ensures
            match pair_annonce(services@, target_uuid, match local_name { Some(n) => Some(n@), None => None }) {
                Some((cle, ip, port, nom)) => r matches Some((k, p)) && k@ == cle && p.ip@ == ip && p.port == port
                    && p.username@ == nom,
                None => r is None,
            },
    {
        let mut trouve = false;
        let mut i: usize = 0;
        while i < services.len()
            invariant
                i <= services@.len(),
                trouve == contient(services@.take(i as int), target_uuid),
            decreases services@.len() - i,
        {
            assert(services@.take(i + 1).drop_last() =~= services@.take(i as int));
            if services[i] == target_uuid {
                trouve = true;
            }
            proof {
                let t = services@.take(i + 1);
                if contient(services@.take(i as int), target_uuid) {
                    let j = choose|j: int| 0 <= j < i && services@.take(i as int)[j] == target_uuid;
                    assert(t[j] == target_uuid);
                }
                if contient(t, target_uuid) && services@[i as int] != target_uuid {
                    let j = choose|j: int| 0 <= j < t.len() && t[j] == target_uuid;
                    assert(services@.take(i as int)[j] == target_uuid);
                }
                assert(t[i as int] == services@[i as int]);
            }
            i = i + 1;
        }
        assert(services@.take(services@.len() as int) =~= services@);
        if !trouve {
            return None;
        }
        let nom = match local_name {
            Some(n) => n,
            None => return None,
        };
        match decode_network_info_from_name(nom.as_str()) {
            Some((ip, port, username)) => Some((nom, Peer { ip, port, username })),
            None => None,
        }
    }
}

} // verus!
