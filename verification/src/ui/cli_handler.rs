//! The terminal interface: peer events as messages, the table of peers redrawn in place,
//! and the reading of the user's choice of peer.

use vstd::prelude::*;
use crate::octets::{
    est_blanc, est_chiffre, sans_blancs_debut, lemme_decimal_relu, lemme_decimal_sans_blancs, lemme_blancs_en_fin,
    decimal, vers_decimal, pousser_caractere, sans_blancs, rogner, minuscules, minuscules_ascii, en_minuscules, nombre_decimal,
    lire_usize,
};
use vstd::utf8::is_ascii_chars;
use crate::rendezvous::Peer;
use crate::ui::interaction::PeerEvent;

verus! {

/// `s` in blue on the terminal.
pub open spec fn en_bleu(s: Seq<char>) -> Seq<char> {
    "\x1b[34m"@ + s + "\x1b[0m"@
}

/// `s` in red on the terminal.
pub open spec fn en_rouge(s: Seq<char>) -> Seq<char> {
    "\x1b[31m"@ + s + "\x1b[0m"@
}

/// `n` copies of `c`.
pub open spec fn repete(c: char, n: nat) -> Seq<char> {
    Seq::new(n, |i: int| c)
}

/// `s` centred in a field of `w` characters, as `{:^w}` pads it: the extra space of an odd
/// padding goes to the right; a text as wide as the field or wider is left as it is.
pub open spec fn centre(s: Seq<char>, w: nat) -> Seq<char> {
    if s.len() >= w {
        s
    } else {
        let marge = (w - s.len()) as nat;
        repete(' ', marge / 2) + s + repete(' ', (marge - marge / 2) as nat)
    }
}

/// An address "a.b.c.d".
pub open spec fn ip_pointee(ip: Seq<u8>) -> Seq<char> {
    decimal(ip[0] as nat) + seq!['.'] + decimal(ip[1] as nat) + seq!['.'] + decimal(ip[2] as nat) + seq!['.']
        + decimal(ip[3] as nat)
}

/// Width of the username column.
pub const LARGEUR_NOM: usize = 19;

/// Width of the address column.
pub const LARGEUR_IP: usize = 19;

/// Width of the port column.
pub const LARGEUR_PORT: usize = 10;

/// Width of the whole table inside its outer borders.
pub const LARGEUR_TOTALE: usize = 50;

/// A horizontal rule of the table, drawn with the given left, middle and right joints.
pub open spec fn ligne_bord(g: char, m: char, d: char) -> Seq<char> {
    en_bleu(seq![g]) + en_bleu(repete('─', LARGEUR_NOM as nat)) + en_bleu(seq![m]) + en_bleu(
        repete('─', LARGEUR_IP as nat),
    ) + en_bleu(seq![m]) + en_bleu(repete('─', LARGEUR_PORT as nat)) + en_bleu(seq![d])
}

/// A row of three cells between blue bars.
pub open spec fn rangee(a: Seq<char>, b: Seq<char>, c: Seq<char>) -> Seq<char> {
    en_bleu(seq!['│']) + a + en_bleu(seq!['│']) + b + en_bleu(seq!['│']) + c + en_bleu(seq!['│'])
}

/// The header row.
pub open spec fn ligne_entete() -> Seq<char> {
    rangee(centre("Username"@, LARGEUR_NOM as nat), centre("IP Address"@, LARGEUR_IP as nat), centre("Port"@, LARGEUR_PORT as nat))
}

/// The row of an active peer.
pub open spec fn ligne_actif(p: Peer) -> Seq<char> {
    rangee(
        centre(p.username@, LARGEUR_NOM as nat),
        centre(ip_pointee(p.ip@), LARGEUR_IP as nat),
        centre(decimal(p.port as nat), LARGEUR_PORT as nat),
    )
}

/// The row of a lost peer, in red.
pub open spec fn ligne_perdu(p: Peer) -> Seq<char> {
    rangee(
        en_rouge(centre(p.username@, LARGEUR_NOM as nat)),
        en_rouge(centre(ip_pointee(p.ip@), LARGEUR_IP as nat)),
        en_rouge(centre(decimal(p.port as nat), LARGEUR_PORT as nat)),
    )
}

/// A row spanning the table.
pub open spec fn ligne_pleine(s: Seq<char>) -> Seq<char> {
    en_bleu(seq!['│']) + s + en_bleu(seq!['│'])
}

/// The last line of the table, followed by an empty line.
pub open spec fn ligne_fin() -> Seq<char> {
    ligne_bord('└', '┴', '┘') + seq!['\n']
}

/// The table of peers, line by line: header, one row per active peer, then, when some are
/// lost, a red section of lost peers; or a notice when there are no peers at all.
pub open spec fn tableau(actifs: Seq<Peer>, perdus: Seq<Peer>) -> Seq<Seq<char>> {
    let debut = seq![ligne_bord('┌', '┬', '┐'), ligne_entete(), ligne_bord('├', '┼', '┤')];
    if actifs.len() == 0 && perdus.len() == 0 {
        debut + seq![
            ligne_pleine(centre("No peers discovered yet."@, LARGEUR_TOTALE as nat)),
            ligne_fin(),
        ]
    } else {
        let section_perdus = if perdus.len() > 0 {
            seq![
                ligne_bord('├', '┼', '┤'),
                ligne_pleine(en_rouge(centre("--- X LOST PEERS ---"@, LARGEUR_TOTALE as nat))),
                ligne_bord('├', '┼', '┤'),
            ] + perdus.map_values(|p: Peer| ligne_perdu(p))
        } else {
            Seq::empty()
        };
        debut + actifs.map_values(|p: Peer| ligne_actif(p)) + section_perdus + seq![ligne_fin()]
    }
}

/// The lines of the table. It opens with its top border, header and separator; the notice
/// "No peers discovered yet." stands fourth, then the bottom border, exactly when both lists
/// are empty. Otherwise each active peer has its row, in order, after the header; whenever
/// some peer is lost, the red "LOST PEERS" banner follows, between separators, then one red
/// row per lost peer, in order; and the bottom border ends the table.
pub proof fn loi_tableau(actifs: Seq<Peer>, perdus: Seq<Peer>)
    ensures
        tableau(actifs, perdus)[0] == ligne_bord('┌', '┬', '┐'),
        tableau(actifs, perdus)[1] == ligne_entete(),
        tableau(actifs, perdus)[2] == ligne_bord('├', '┼', '┤'),
        actifs.len() == 0 && perdus.len() == 0 ==> tableau(actifs, perdus) == seq![
            ligne_bord('┌', '┬', '┐'),
            ligne_entete(),
            ligne_bord('├', '┼', '┤'),
            ligne_pleine(centre("No peers discovered yet."@, LARGEUR_TOTALE as nat)),
            ligne_fin(),
        ],
        actifs.len() + perdus.len() > 0 ==> {
            let t = tableau(actifs, perdus);
            &&& forall|i: int| 0 <= i < actifs.len() ==> t[3 + i] == ligne_actif(#[trigger] actifs[i])
            &&& t.last() == ligne_fin()
            &&& perdus.len() == 0 ==> t.len() == actifs.len() + 4
            &&& perdus.len() > 0 ==> {
                &&& t.len() == actifs.len() + perdus.len() + 7
                &&& t[3 + actifs.len() as int] == ligne_bord('├', '┼', '┤')
                &&& t[4 + actifs.len() as int] == ligne_pleine(en_rouge(centre("--- X LOST PEERS ---"@, LARGEUR_TOTALE as nat)))
                &&& t[5 + actifs.len() as int] == ligne_bord('├', '┼', '┤')
                &&& forall|i: int| 0 <= i < perdus.len() ==> t[6 + actifs.len() + i] == ligne_perdu(#[trigger] perdus[i])
            }
        },
{
    let t = tableau(actifs, perdus);
    if actifs.len() + perdus.len() > 0 {
        assert forall|i: int| 0 <= i < actifs.len() implies t[3 + i] == ligne_actif(#[trigger] actifs[i]) by {
            assert(actifs.map_values(|p: Peer| ligne_actif(p))[i] == ligne_actif(actifs[i]));
        }
        if perdus.len() > 0 {
            assert forall|i: int| 0 <= i < perdus.len() implies t[6 + actifs.len() + i] == ligne_perdu(#[trigger] perdus[i]) by {
                assert(perdus.map_values(|p: Peer| ligne_perdu(p))[i] == ligne_perdu(perdus[i]));
            }
        }
    } else {
        assert(t =~= seq![
            ligne_bord('┌', '┬', '┐'),
            ligne_entete(),
            ligne_bord('├', '┼', '┤'),
            ligne_pleine(centre("No peers discovered yet."@, LARGEUR_TOTALE as nat)),
            ligne_fin(),
        ]);
    }
}

/// The message shown for a peer event.
pub open spec fn message_evenement(e: PeerEvent) -> Seq<char> {
    match e {
        PeerEvent::NewPeer(p, heure) => "\n["@ + heure@ + "] --- 📡 PEER DETECTED: "@ + p.username@ + " ---"@,
        PeerEvent::PeerLost(p, heure) => "\n["@ + heure@ + "] --- ❌ PEER DISCONNECTED: "@ + p.username@ + " ---"@,
    }
}

/// The terminal sequence that moves the cursor up `n` lines and clears below it.
pub open spec fn effacement(n: nat) -> Seq<char> {
    "\x1b["@ + decimal(n) + "A\x1b[J"@
}

/// Texts seen as character sequences.
pub open spec fn textes(v: Seq<String>) -> Seq<Seq<char>> {
    v.map_values(|s: String| s@)
}

/// `s` in blue.
pub fn blue(s: &str) -> (r: String)
    ensures
        r@ == en_bleu(s@),
{
    let mut r = "\x1b[34m".to_owned();
    r.append(s);
    r.append("\x1b[0m");
    r
}

/// `s` in red.
pub fn red(s: &str) -> (r: String)
    ensures
        r@ == en_rouge(s@),
{
    let mut r = "\x1b[31m".to_owned();
    r.append(s);
    r.append("\x1b[0m");
    r
}

fn repeter(c: char, n: usize) -> (r: String)
    ensures
        r@ == repete(c, n as nat),
{
    let mut r = String::new();
    let mut i: usize = 0;
    while i < n
        invariant
            i <= n,
            r@ =~= repete(c, i as nat),
        decreases n - i,
    {
        pousser_caractere(&mut r, c);
        i = i + 1;
    }
    r
}

fn centrer(s: &str, w: usize) -> (r: String)
    ensures
        r@ == centre(s@, w as nat),
{
    let n = s.unicode_len();
    if n >= w {
        return s.to_owned();
    }
    let marge = w - n;
    let mut r = repeter(' ', marge / 2);
    r.append(s);
    let droite = repeter(' ', marge - marge / 2);
    r.append(droite.as_str());
    r
}

fn car(c: char) -> (r: String)
    ensures
        r@ == seq![c],
{
    let mut r = String::new();
    pousser_caractere(&mut r, c);
    assert(r@ =~= seq![c]);
    r
}

fn bleu_car(c: char) -> (r: String)
    ensures
        r@ == en_bleu(seq![c]),
{
    let s = car(c);
    blue(s.as_str())
}

/// The address "a.b.c.d" of four bytes.
pub fn vers_ip_pointee(ip: &[u8; 4]) -> (r: String)
    ensures
        r@ == ip_pointee(ip@),
{
    let mut r = vers_decimal(ip[0] as u64);
    let mut i: usize = 1;
    while i < 4
        invariant
            1 <= i <= 4,
            r@ =~= if i == 1 {
                decimal(ip@[0] as nat)
            } else if i == 2 {
                decimal(ip@[0] as nat) + seq!['.'] + decimal(ip@[1] as nat)
            } else if i == 3 {
                decimal(ip@[0] as nat) + seq!['.'] + decimal(ip@[1] as nat) + seq!['.'] + decimal(ip@[2] as nat)
            } else {
                ip_pointee(ip@)
            },
        decreases 4 - i,
    {
        pousser_caractere(&mut r, '.');
        let d = vers_decimal(ip[i] as u64);
        r.append(d.as_str());
        i = i + 1;
    }
    r
}

fn vers_ligne_bord(g: char, m: char, d: char) -> (r: String)
    ensures
        r@ == ligne_bord(g, m, d),
{
    let mut r = bleu_car(g);
    let a = repeter('─', LARGEUR_NOM);
    r.append(blue(a.as_str()).as_str());
    r.append(bleu_car(m).as_str());
    let b = repeter('─', LARGEUR_IP);
    r.append(blue(b.as_str()).as_str());
    r.append(bleu_car(m).as_str());
    let c = repeter('─', LARGEUR_PORT);
    r.append(blue(c.as_str()).as_str());
    r.append(bleu_car(d).as_str());
    r
}

fn vers_rangee(a: &str, b: &str, c: &str) -> (r: String)
    ensures
        r@ == rangee(a@, b@, c@),
{
    let barre = bleu_car('│');
    let mut r = barre.clone();
    r.append(a);
    r.append(barre.as_str());
    r.append(b);
    r.append(barre.as_str());
    r.append(c);
    r.append(barre.as_str());
    r
}

fn vers_ligne_pleine(s: &str) -> (r: String)
    ensures
        r@ == ligne_pleine(s@),
{
    let barre = bleu_car('│');
    let mut r = barre.clone();
    r.append(s);
    r.append(barre.as_str());
    r
}

fn vers_ligne_actif(p: &Peer) -> (r: String)
    ensures
        r@ == ligne_actif(*p),
{
    let nom = centrer(p.username.as_str(), LARGEUR_NOM);
    let ip = centrer(vers_ip_pointee(&p.ip).as_str(), LARGEUR_IP);
    let port = centrer(vers_decimal(p.port as u64).as_str(), LARGEUR_PORT);
    vers_rangee(nom.as_str(), ip.as_str(), port.as_str())
}

fn vers_ligne_perdu(p: &Peer) -> (r: String)
    ensures
        r@ == ligne_perdu(*p),
{
    let nom = red(centrer(p.username.as_str(), LARGEUR_NOM).as_str());
    let ip = red(centrer(vers_ip_pointee(&p.ip).as_str(), LARGEUR_IP).as_str());
    let port = red(centrer(vers_decimal(p.port as u64).as_str(), LARGEUR_PORT).as_str());
    vers_rangee(nom.as_str(), ip.as_str(), port.as_str())
}

fn vers_ligne_fin() -> (r: String)
    ensures
        r@ == ligne_fin(),
{
    let mut r = vers_ligne_bord('└', '┴', '┘');
    pousser_caractere(&mut r, '\n');
    r
}

/// The lines of the table of peers.
pub fn lignes_tableau(actifs: &Vec<Peer>, perdus: &Vec<Peer>) -> (r: Vec<String>)
    ensures
        textes(r@) == tableau(actifs@, perdus@),
{
    let mut r: Vec<String> = Vec::new();
    r.push(vers_ligne_bord('┌', '┬', '┐'));
    let entete = vers_rangee(
        centrer("Username", LARGEUR_NOM).as_str(),
        centrer("IP Address", LARGEUR_IP).as_str(),
        centrer("Port", LARGEUR_PORT).as_str(),
    );
    r.push(entete);
    r.push(vers_ligne_bord('├', '┼', '┤'));
    let ghost debut = seq![ligne_bord('┌', '┬', '┐'), ligne_entete(), ligne_bord('├', '┼', '┤')];
    assert(textes(r@) =~= debut);
    if actifs.len() == 0 && perdus.len() == 0 {
        r.push(vers_ligne_pleine(centrer("No peers discovered yet.", LARGEUR_TOTALE).as_str()));
        r.push(vers_ligne_fin());
        assert(textes(r@) =~= tableau(actifs@, perdus@));
        return r;
    }
    let mut i: usize = 0;
    while i < actifs.len()
        invariant
            i <= actifs.len(),
            textes(r@) =~= debut + actifs@.take(i as int).map_values(|p: Peer| ligne_actif(p)),
        decreases actifs.len() - i,
    {
        let ghost avant = r@;
        let ligne = vers_ligne_actif(&actifs[i]);
        r.push(ligne);
        assert(textes(r@) =~= textes(avant).push(ligne_actif(actifs@[i as int])));
        assert(actifs@.take(i + 1).map_values(|p: Peer| ligne_actif(p)) =~= actifs@.take(i as int).map_values(
            |p: Peer| ligne_actif(p),
        ).push(ligne_actif(actifs@[i as int])));
        i = i + 1;
    }
    assert(actifs@.take(actifs.len() as int) =~= actifs@);
    let ghost avec_actifs = textes(r@);
    if perdus.len() > 0 {
        r.push(vers_ligne_bord('├', '┼', '┤'));
        r.push(vers_ligne_pleine(red(centrer("--- X LOST PEERS ---", LARGEUR_TOTALE).as_str()).as_str()));
        r.push(vers_ligne_bord('├', '┼', '┤'));
        let ghost titre = seq![
            ligne_bord('├', '┼', '┤'),
            ligne_pleine(en_rouge(centre("--- X LOST PEERS ---"@, LARGEUR_TOTALE as nat))),
            ligne_bord('├', '┼', '┤'),
        ];
        assert(textes(r@) =~= avec_actifs + titre);
        let mut j: usize = 0;
        while j < perdus.len()
            invariant
                j <= perdus.len(),
                textes(r@) =~= avec_actifs + titre + perdus@.take(j as int).map_values(|p: Peer| ligne_perdu(p)),
            decreases perdus.len() - j,
        {
            let ghost avant = r@;
            let ligne = vers_ligne_perdu(&perdus[j]);
            r.push(ligne);
            assert(textes(r@) =~= textes(avant).push(ligne_perdu(perdus@[j as int])));
            assert(perdus@.take(j + 1).map_values(|p: Peer| ligne_perdu(p)) =~= perdus@.take(j as int).map_values(
                |p: Peer| ligne_perdu(p),
            ).push(ligne_perdu(perdus@[j as int])));
            j = j + 1;
        }
        assert(perdus@.take(perdus.len() as int) =~= perdus@);
    }
    let ghost avant_fin = r@;
    r.push(vers_ligne_fin());
    assert(textes(r@) =~= textes(avant_fin).push(ligne_fin()));
    assert(textes(r@) =~= tableau(actifs@, perdus@));
    r
}

/// The message of a peer event.
pub fn texte_evenement(event: &PeerEvent) -> (r: String)
    ensures
        r@ == message_evenement(*event),
{
    match event {
        PeerEvent::NewPeer(peer, time) => {
            let mut r = "\n[".to_owned();
            r.append(time.as_str());
            r.append("] --- 📡 PEER DETECTED: ");
            r.append(peer.username.as_str());
            r.append(" ---");
            r
        },
        PeerEvent::PeerLost(peer, time) => {
            let mut r = "\n[".to_owned();
            r.append(time.as_str());
            r.append("] --- ❌ PEER DISCONNECTED: ");
            r.append(peer.username.as_str());
            r.append(" ---");
            r
        },
    }
}

/// What to write to redraw the table: the sequence that clears the previous table, if one
/// was drawn, then the lines (the events since the last drawing, then the table).
pub struct AffichageTableau {
    pub effacement: Option<String>,
    pub lignes: Vec<String>,
}

/// What the user's answer at the peer prompt means.
#[derive(Debug, Clone, Copy, PartialEq, Eq, Structural)]
pub enum Selection {
    /// There was no peer to choose from.
    AucunPair,
    /// The user cancelled with 'q'.
    Annulee,
    /// The user chose the peer at this index.
    Choisi(usize),
    /// The answer is not the number of a listed peer.
    Invalide,
}

/// What an answer at the peer prompt means when `nombre` peers are listed (numbered from 1).
pub open spec fn selection(saisie: Seq<char>, nombre: nat) -> Selection {
    let t = sans_blancs(saisie);
    if nombre == 0 {
        Selection::AucunPair
    } else if (if is_ascii_chars(t) { minuscules_ascii(t) } else { minuscules(t) }) == seq!['q'] {
        Selection::Annulee
    } else {
        match nombre_decimal(t) {
            Some(v) => if 0 < v <= nombre && v <= usize::MAX {
                Selection::Choisi((v - 1) as usize)
            } else {
                Selection::Invalide
            },
            None => Selection::Invalide,
        }
    }
}

/// With `nombre` peers listed, the answer "k" (k in decimal, from 1 to `nombre`), followed by
/// any white space such as the end of the line, chooses the k-th peer, at index k - 1.
pub proof fn loi_selection_numero(k: nat, nombre: nat, fin: Seq<char>)
    requires
        1 <= k <= nombre <= usize::MAX,
        forall|i: int| 0 <= i < fin.len() ==> est_blanc(#[trigger] fin[i]),
    ensures
        selection(decimal(k) + fin, nombre) == Selection::Choisi((k - 1) as usize),
{
    lemme_decimal_relu(k);
    lemme_decimal_sans_blancs(k);
    let d = decimal(k);
    lemme_blancs_en_fin(d, fin);
    assert((d + fin)[0] == d[0]);
    assert(est_chiffre(d[0]));
    assert(('0' as u32) == 48u32 && ('9' as u32) == 57u32);
    assert(sans_blancs_debut(d + fin) == d + fin);
    assert(sans_blancs(d + fin) == d);
    assert(d[0] != '+');
    assert(minuscules_ascii(d) != seq!['q']) by {
        if minuscules_ascii(d) == seq!['q'] {
            assert(d[0] == 'q');
        }
    }
}

/// "No peer" is the answer's meaning exactly when no peer is listed, whatever was typed.
pub proof fn loi_aucun_pair(saisie: Seq<char>, nombre: nat)
    ensures
        (selection(saisie, nombre) == Selection::AucunPair) <==> nombre == 0,
{
}

/// The state of the terminal interface: the height of the last table drawn, and the event
/// messages waiting to be shown above the next one.
pub struct CliHandler {
    last_table_height: usize,
    last_events: Vec<String>,
}

impl CliHandler {
    /// Height of the last table drawn (zero before the first).
    pub closed spec fn hauteur(self) -> nat {
        self.last_table_height as nat
    }

    /// Messages waiting to be shown.
    pub closed spec fn evenements(self) -> Seq<Seq<char>> {
        textes(self.last_events@)
    }

    /// Nothing drawn yet, no message waiting.
    pub fn new() -> (r: Self)
        ensures
            r.hauteur() == 0,
            r.evenements() == Seq::<Seq<char>>::empty(),
    {
        let r = CliHandler { last_table_height: 0, last_events: Vec::new() };
        assert(textes(r.last_events@) =~= Seq::<Seq<char>>::empty());
        r
    }

    /// Queues the message of a peer event for the next drawing.
    pub fn handle_peer_event(&mut self, event: PeerEvent)
        ensures
            final(self).evenements() == old(self).evenements().push(message_evenement(event)),
            final(self).hauteur() == old(self).hauteur(),
    {
        let msg = texte_evenement(&event);
        self.last_events.push(msg);
        assert(textes(self.last_events@) =~= textes(old(self).last_events@).push(message_evenement(event)));
    }

    /// Prepares the redrawing of the peer table: the waiting messages then the table, in
    /// place of the previous drawing. The messages are consumed and the new height kept.
    pub fn display_peers_list(&mut self, active_peers: &Vec<Peer>, lost_peers: &Vec<Peer>) -> (r: AffichageTableau)
        ensures
            old(self).hauteur() > 0 ==> (r.effacement matches Some(e) && e@ == effacement(old(self).hauteur())),
            old(self).hauteur() == 0 ==> r.effacement is None,
            textes(r.lignes@) == old(self).evenements() + tableau(active_peers@, lost_peers@),
            final(self).evenements() == Seq::<Seq<char>>::empty(),
            final(self).hauteur() == r.lignes@.len(),
    {
        let prev_h = self.last_table_height;
        let effacement = if prev_h > 0 {
            let mut e = "\x1b[".to_owned();
            e.append(vers_decimal(prev_h as u64).as_str());
            e.append("A\x1b[J");
            Some(e)
        } else {
            None
        };
        let mut lignes: Vec<String> = Vec::new();
        let mut evenements: Vec<String> = Vec::new();
        std::mem::swap(&mut evenements, &mut self.last_events);
        assert(evenements@ == old(self).last_events@);
        let mut i: usize = 0;
        while i < evenements.len()
            invariant
                i <= evenements.len(),
                textes(lignes@) =~= textes(evenements@.take(i as int)),
            decreases evenements.len() - i,
        {
            lignes.push(evenements[i].clone());
            assert(textes(evenements@.take(i + 1)) =~= textes(evenements@.take(i as int)).push(evenements@[i as int]@));
            i = i + 1;
        }
        assert(evenements@.take(evenements.len() as int) =~= evenements@);
        let table = lignes_tableau(active_peers, lost_peers);
        let ghost avant = lignes@;
        let mut j: usize = 0;
        while j < table.len()
            invariant
                j <= table.len(),
                lignes@ =~= avant + table@.take(j as int),
            decreases table.len() - j,
        {
            lignes.push(table[j].clone());
            j = j + 1;
        }
        assert(table@.take(table.len() as int) =~= table@);
        assert(textes(lignes@) =~= textes(avant) + textes(table@));
        self.last_table_height = lignes.len();
        assert(textes(self.last_events@) =~= Seq::<Seq<char>>::empty());
        AffichageTableau { effacement, lignes }
    }

    /// What the user's answer at the peer prompt means, for `nombre` listed peers.
    pub fn select_peer(saisie: &str, nombre: usize) -> (r: Selection)
        ensures
            r == selection(saisie@, nombre as nat),
    {
        if nombre == 0 {
            return Selection::AucunPair;
        }
        let t = rogner(saisie);
        let bas = en_minuscules(t);
        let q = "q";
        proof {
            reveal_strlit("q");
            assert(q@ =~= seq!['q']);
        }
        if bas == q.to_owned() {
            return Selection::Annulee;
        }
        match lire_usize(t) {
            Some(choix) => {
                if choix > 0 && choix <= nombre {
                    Selection::Choisi(choix - 1)
                } else {
                    Selection::Invalide
                }
            },
            None => Selection::Invalide,
        }
    }
}

} // verus!
