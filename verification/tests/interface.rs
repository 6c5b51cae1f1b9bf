use cargodrop::octets::lire_usize;
use cargodrop::rendezvous::Peer;
use cargodrop::ui::cli_handler::{blue, lignes_tableau, red, texte_evenement, vers_ip_pointee, CliHandler, Selection};
use cargodrop::ui::interaction::PeerEvent;

const BLEU: &str = "\x1b[34m";
const ROUGE: &str = "\x1b[31m";
const FIN: &str = "\x1b[0m";

fn b(s: &str) -> String {
    format!("{}{}{}", BLEU, s, FIN)
}

fn r(s: &str) -> String {
    format!("{}{}{}", ROUGE, s, FIN)
}

fn pair(ip: [u8; 4], port: u16, nom: &str) -> Peer {
    Peer { ip, port, username: nom.to_string() }
}

fn bord(g: &str, m: &str, d: &str) -> String {
    format!("{}{}{}{}{}{}{}", b(g), b(&"─".repeat(19)), b(m), b(&"─".repeat(19)), b(m), b(&"─".repeat(10)), b(d))
}

#[test]
fn couleurs() {
    assert_eq!(blue("x"), "\x1b[34mx\x1b[0m");
    assert_eq!(red("x"), "\x1b[31mx\x1b[0m");
}

#[test]
fn adresse_pointee() {
    assert_eq!(vers_ip_pointee(&[192, 168, 1, 100]), "192.168.1.100");
    assert_eq!(vers_ip_pointee(&[0, 0, 0, 0]), "0.0.0.0");
    assert_eq!(vers_ip_pointee(&[255, 10, 9, 1]), "255.10.9.1");
}

#[test]
fn tableau_vide() {
    let l = lignes_tableau(&vec![], &vec![]);
    let attendu = vec![
        bord("┌", "┬", "┐"),
        format!("{}{:^19}{}{:^19}{}{:^10}{}", b("│"), "Username", b("│"), "IP Address", b("│"), "Port", b("│")),
        bord("├", "┼", "┤"),
        format!("{}{:^50}{}", b("│"), "No peers discovered yet.", b("│")),
        format!("{}\n", bord("└", "┴", "┘")),
    ];
    assert_eq!(l, attendu);
}

#[test]
fn tableau_avec_perdus() {
    let actif = pair([192, 168, 1, 100], 8080, "alice");
    let perdu = pair([10, 0, 0, 1], 9, "bob");
    let l = lignes_tableau(&vec![actif.clone()], &vec![perdu.clone()]);
    let attendu = vec![
        bord("┌", "┬", "┐"),
        format!("{}{:^19}{}{:^19}{}{:^10}{}", b("│"), "Username", b("│"), "IP Address", b("│"), "Port", b("│")),
        bord("├", "┼", "┤"),
        format!("{}{:^19}{}{:^19}{}{:^10}{}", b("│"), "alice", b("│"), "192.168.1.100", b("│"), 8080u16, b("│")),
        bord("├", "┼", "┤"),
        format!("{}{}{}", b("│"), r(&format!("{:^50}", "--- X LOST PEERS ---")), b("│")),
        bord("├", "┼", "┤"),
        format!(
            "{}{}{}{}{}{}{}",
            b("│"),
            r(&format!("{:^19}", "bob")),
            b("│"),
            r(&format!("{:^19}", "10.0.0.1")),
            b("│"),
            r(&format!("{:^10}", 9u16)),
            b("│")
        ),
        format!("{}\n", bord("└", "┴", "┘")),
    ];
    assert_eq!(l, attendu);
}

#[test]
fn tableau_nom_trop_large() {
    let long = pair([1, 2, 3, 4], 1, "un nom bien plus large que la colonne");
    let l = lignes_tableau(&vec![long], &vec![]);
    assert_eq!(l.len(), 5);
    assert_eq!(
        l[3],
        format!("{}{:^19}{}{:^19}{}{:^10}{}", b("│"), "un nom bien plus large que la colonne", b("│"), "1.2.3.4", b("│"), 1u16, b("│"))
    );
}

#[test]
fn messages_d_evenement() {
    let p = pair([1, 2, 3, 4], 5, "eve");
    assert_eq!(texte_evenement(&PeerEvent::NewPeer(p.clone(), "10:11:12".to_string())), "\n[10:11:12] --- 📡 PEER DETECTED: eve ---");
    assert_eq!(texte_evenement(&PeerEvent::PeerLost(p, "10:11:12".to_string())), "\n[10:11:12] --- ❌ PEER DISCONNECTED: eve ---");
}

#[test]
fn redessin_sur_place() {
    let mut h = CliHandler::new();
    let premier = h.display_peers_list(&vec![], &vec![]);
    assert!(premier.effacement.is_none());
    assert_eq!(premier.lignes.len(), 5);
    h.handle_peer_event(PeerEvent::NewPeer(pair([1, 1, 1, 1], 1, "a"), "t".to_string()));
    h.handle_peer_event(PeerEvent::PeerLost(pair([1, 1, 1, 1], 1, "a"), "t".to_string()));
    let second = h.display_peers_list(&vec![pair([1, 1, 1, 1], 1, "a")], &vec![]);
    assert_eq!(second.effacement, Some("\x1b[5A\x1b[J".to_string()));
    assert_eq!(second.lignes.len(), 2 + 5);
    assert_eq!(second.lignes[0], "\n[t] --- 📡 PEER DETECTED: a ---");
    assert_eq!(second.lignes[1], "\n[t] --- ❌ PEER DISCONNECTED: a ---");
    let troisieme = h.display_peers_list(&vec![], &vec![]);
    assert_eq!(troisieme.effacement, Some("\x1b[7A\x1b[J".to_string()));
    assert_eq!(troisieme.lignes.len(), 5);
}

#[test]
fn choix_du_pair() {
    assert_eq!(CliHandler::select_peer("2\n", 3), Selection::Choisi(1));
    assert_eq!(CliHandler::select_peer("  1  ", 3), Selection::Choisi(0));
    assert_eq!(CliHandler::select_peer("+3", 3), Selection::Choisi(2));
    assert_eq!(CliHandler::select_peer("q\n", 3), Selection::Annulee);
    assert_eq!(CliHandler::select_peer(" Q ", 3), Selection::Annulee);
    assert_eq!(CliHandler::select_peer("0", 3), Selection::Invalide);
    assert_eq!(CliHandler::select_peer("4", 3), Selection::Invalide);
    assert_eq!(CliHandler::select_peer("deux", 3), Selection::Invalide);
    assert_eq!(CliHandler::select_peer("", 3), Selection::Invalide);
    assert_eq!(CliHandler::select_peer("-1", 3), Selection::Invalide);
    assert_eq!(CliHandler::select_peer("99999999999999999999999", 3), Selection::Invalide);
    assert_eq!(CliHandler::select_peer("1", 0), Selection::AucunPair);
}

#[test]
fn lecture_de_nombre() {
    assert_eq!(lire_usize("0"), Some(0));
    assert_eq!(lire_usize("+17"), Some(17));
    assert_eq!(lire_usize("007"), Some(7));
    assert_eq!(lire_usize("+"), None);
    assert_eq!(lire_usize(""), None);
    assert_eq!(lire_usize("1 2"), None);
    assert_eq!(lire_usize(&usize::MAX.to_string()), Some(usize::MAX));
    assert_eq!(lire_usize("99999999999999999999999"), None);
}

#[test]
fn selection_blancs_unicode() {
    assert_eq!(CliHandler::select_peer("\u{3000}2\u{a0}\u{2028}", 3), Selection::Choisi(1));
    assert_eq!(CliHandler::select_peer("\u{85}q\u{205f}", 3), Selection::Annulee);
    assert_eq!(CliHandler::select_peer("\u{200b}2", 3), Selection::Invalide);
}
