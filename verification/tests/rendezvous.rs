use cargodrop::rendezvous::ble_rendezvous::advertise::{
    build_advertisement_payload, encode_network_info_to_name, get_local_network_info, get_local_username,
    max_username_payload_bytes, truncate_username_for_payload,
};
use cargodrop::rendezvous::ble_rendezvous::discover::{
    decode_network_info_from_name, ignorer_decouverte, Battements, BleDiscoveryService, SuiviPairs, SILENCE_MAX_NS,
};
use cargodrop::rendezvous::ble_rendezvous::{APP_SERVICE_UUID, MAX_RAW_PAYLOAD_BYTES, USERNAME_LEN_OFFSET, USERNAME_OFFSET};
use cargodrop::rendezvous::{Peer, RendezvousImpl, RendezvousManager};
use cargodrop::security::identity::GestionnaireIdentite;
use cargodrop::ui::interaction::{InteractionHandler, PeerEvent};
use cargodrop::user_info::{AdresseIp, UserInfo};
use base64::Engine;
use std::collections::HashMap;
use std::sync::Arc;

fn pair(ip: [u8; 4], port: u16, nom: &str) -> Peer {
    Peer { ip, port, username: nom.to_string() }
}

fn nouveau_nom(e: &PeerEvent) -> Option<String> {
    match e {
        PeerEvent::NewPeer(p, _) => Some(p.username.clone()),
        PeerEvent::PeerLost(_, _) => None,
    }
}

fn perdu_nom(e: &PeerEvent) -> Option<String> {
    match e {
        PeerEvent::PeerLost(p, _) => Some(p.username.clone()),
        PeerEvent::NewPeer(_, _) => None,
    }
}

#[test]
fn constantes_charge_utile() {
    assert_eq!(APP_SERVICE_UUID, "d59218d6-6b22-4a0b-9ba7-70e28148b488");
    assert_eq!(USERNAME_LEN_OFFSET, 6);
    assert_eq!(USERNAME_OFFSET, 7);
    assert_eq!(max_username_payload_bytes(), MAX_RAW_PAYLOAD_BYTES - USERNAME_OFFSET);
}

#[test]
fn charge_utile_connue() {
    assert_eq!(encode_network_info_to_name([192, 168, 1, 100], 8080, "alice"), "wKgBZB-QBWFsaWNl");
    assert_eq!(encode_network_info_to_name([192, 168, 1, 100], 8080, ""), "wKgBZB-QAA");
}

#[test]
fn charge_utile_aller_retour() {
    let nom = encode_network_info_to_name([10, 0, 0, 7], 9000, "bob_ab12");
    assert_eq!(decode_network_info_from_name(&nom), Some(([10, 0, 0, 7], 9000, "bob_ab12".to_string())));
    let long = encode_network_info_to_name([1, 2, 3, 4], 65535, "un nom vraiment trop long");
    assert_eq!(decode_network_info_from_name(&long), Some(([1, 2, 3, 4], 65535, "un nom vraimen".to_string())));
    let accents = encode_network_info_to_name([1, 2, 3, 4], 1, "aééééééééé");
    assert_eq!(decode_network_info_from_name(&accents), Some(([1, 2, 3, 4], 1, "aéééééé".to_string())));
}

#[test]
fn troncature_sur_frontiere_de_caractere() {
    assert_eq!(truncate_username_for_payload("court"), "court");
    assert_eq!(truncate_username_for_payload("abcdefghijklmnopqrstuvwxyz"), "abcdefghijklmn");
    assert_eq!(truncate_username_for_payload("éééééééééé"), "ééééééé");
    assert_eq!(truncate_username_for_payload("aééééééééé"), "aéééééé");
    assert_eq!(truncate_username_for_payload("abcdefghijklm€"), "abcdefghijklm");
}

#[test]
fn decodage_refuse() {
    assert_eq!(decode_network_info_from_name("!!!"), None);
    assert_eq!(decode_network_info_from_name("wKgBZB8"), None);
    assert_eq!(decode_network_info_from_name("wKgBZB-QBWFsaWN"), None);
    let mauvais_utf8 = base64::engine::general_purpose::URL_SAFE_NO_PAD.encode([1u8, 2, 3, 4, 0, 80, 1, 0xff]);
    assert_eq!(decode_network_info_from_name(&mauvais_utf8), None);
}

#[test]
fn annonce_construite() {
    let user = UserInfo::new("alice".to_string(), 8080, AdresseIp::V4([192, 168, 1, 20]));
    let id = GestionnaireIdentite::depuis_secret([1u8; 32]);
    let court = GestionnaireIdentite::creer_identifiant_court(&GestionnaireIdentite::creer_empreinte(&id.obtenir_cle_verification_locale()));
    let (ip, port, affiche, charge) = build_advertisement_payload(&user, &id);
    assert_eq!(ip, [192, 168, 1, 20]);
    assert_eq!(port, 8080);
    assert_eq!(affiche, format!("alice_{}", court));
    assert_eq!(decode_network_info_from_name(&charge), Some((ip, port, affiche.clone())));
    assert_eq!(get_local_network_info(&user), ([192, 168, 1, 20], 8080));
    assert_eq!(get_local_username(&user), "alice");
}

#[test]
fn annonce_nom_long_recoupee() {
    let user = UserInfo::new("abcdefghijklmnop".to_string(), 1, AdresseIp::V6([0; 8]));
    let id = GestionnaireIdentite::depuis_secret([1u8; 32]);
    let (ip, _, affiche, charge) = build_advertisement_payload(&user, &id);
    assert_eq!(ip, [127, 0, 0, 1]);
    assert!(affiche.starts_with("abcdefghijklmn_"));
    assert_eq!(decode_network_info_from_name(&charge), Some((ip, 1, "abcdefghijklmn".to_string())));
}

#[test]
fn peripherique_filtre() {
    let cible = 0xd59218d66b224a0b9ba770e28148b488u128;
    let nom = encode_network_info_to_name([192, 168, 1, 5], 8080, "carol");
    type S = BleDiscoveryService<dyn InteractionHandler>;
    assert_eq!(S::filter_and_parse_peripheral(&vec![1, 2], cible, Some(nom.clone())), None);
    assert_eq!(S::filter_and_parse_peripheral(&vec![cible], cible, None), None);
    assert_eq!(S::filter_and_parse_peripheral(&vec![cible], cible, Some("pas de la base64!".to_string())), None);
    assert_eq!(
        S::filter_and_parse_peripheral(&vec![7, cible], cible, Some(nom.clone())),
        Some((nom, pair([192, 168, 1, 5], 8080, "carol")))
    );
}

#[test]
fn decouvertes_initiales_ignorees() {
    assert!(ignorer_decouverte(true, 999));
    assert!(!ignorer_decouverte(true, 1000));
    assert!(!ignorer_decouverte(false, 10));
}

#[test]
fn suivi_des_pairs() {
    let a = ("ka".to_string(), pair([1, 1, 1, 1], 1, "a"));
    let b = ("kb".to_string(), pair([2, 2, 2, 2], 2, "b"));
    let heure = "12:00:00".to_string();
    let mut suivi = SuiviPairs::nouveau();
    let e = suivi.observer(&vec![a.clone()], &heure).unwrap();
    assert_eq!(e.len(), 1);
    assert_eq!(nouveau_nom(&e[0]), Some("a".to_string()));
    let e = suivi.observer(&vec![a.clone(), b.clone()], &heure).unwrap();
    assert_eq!(e.len(), 1);
    assert_eq!(nouveau_nom(&e[0]), Some("b".to_string()));
    let e = suivi.observer(&vec![b.clone()], &heure).unwrap();
    assert_eq!(e.len(), 1);
    assert_eq!(perdu_nom(&e[0]), Some("a".to_string()));
    assert_eq!(suivi.pairs_perdus(), vec![a.clone()]);
    // Same keys as before: nothing is reported.
    assert!(suivi.observer(&vec![b.clone()], &heure).is_none());
    // One peer replaced by another in one look: both changes are reported.
    let e = suivi.observer(&vec![a.clone()], &heure).unwrap();
    assert_eq!(e.len(), 2);
    assert_eq!(nouveau_nom(&e[0]), Some("a".to_string()));
    assert_eq!(perdu_nom(&e[1]), Some("b".to_string()));
    assert_eq!(suivi.pairs_perdus(), vec![b.clone()]);
    let e = suivi.observer(&vec![a.clone(), b.clone()], &heure).unwrap();
    assert_eq!(e.len(), 1);
    assert_eq!(nouveau_nom(&e[0]), Some("b".to_string()));
    assert_eq!(suivi.pairs_perdus(), Vec::<(String, Peer)>::new());
    let e = suivi.observer(&vec![], &heure).unwrap();
    assert_eq!(e.len(), 2);
    assert_eq!(perdu_nom(&e[0]), Some("a".to_string()));
    assert_eq!(perdu_nom(&e[1]), Some("b".to_string()));
    assert_eq!(suivi.pairs_perdus(), vec![a.clone(), b.clone()]);
}

#[test]
fn battements_expires() {
    let mut b = Battements::nouveau();
    b.enregistrer("a".to_string(), 0);
    b.enregistrer("b".to_string(), 10_000_000_000);
    assert_eq!(b.expirer(SILENCE_MAX_NS - 1), Vec::<String>::new());
    assert_eq!(b.expirer(SILENCE_MAX_NS), vec!["a".to_string()]);
    b.enregistrer("b".to_string(), 20_000_000_000);
    assert_eq!(b.expirer(40_000_000_000), Vec::<String>::new());
    assert_eq!(b.expirer(41_000_000_000), vec!["b".to_string()]);
    assert_eq!(b.expirer(0), Vec::<String>::new());
}

#[test]
fn pair_vers_info() {
    let info = pair([192, 168, 0, 42], 8080, "dave").vers_peer_info();
    assert_eq!(info.ip, "192.168.0.42");
    assert_eq!(info.port, 8080);
    assert_eq!(info.device_name, "dave");
}

#[test]
fn methode_de_rendezvous() {
    assert_eq!(RendezvousManager::rendezvous_impl(), RendezvousImpl::Bluetooth);
}

struct Muet;

impl InteractionHandler for Muet {
    fn display_peers_list(&self, _: &HashMap<String, Peer>, _: &HashMap<String, Peer>) {}
    fn handle_peer_event(&self, _: PeerEvent) {}
    fn select_peer(&self, _: &[cargodrop::network::file_transfer::PeerInfo]) -> Option<cargodrop::network::file_transfer::PeerInfo> {
        None
    }
    fn on_advertising_start(&self, _: &str, _: [u8; 4], _: u16, _: &str) {}
    fn update_progress(&self, _: &str, _: u64, _: u64) {}
}

#[test]
fn service_de_decouverte() {
    let pairs: cargodrop::rendezvous::PeerMap = Arc::new(tokio::sync::RwLock::new(HashMap::new()));
    let h: Arc<dyn InteractionHandler> = Arc::new(Muet);
    let s = BleDiscoveryService::new(pairs.clone(), h);
    assert!(Arc::ptr_eq(s.peers(), &pairs));
}

#[test]
fn base64_non_canonique_refuse() {
    assert_eq!(decode_network_info_from_name("wKgBZB-QAA"), Some(([192, 168, 1, 100], 8080, String::new())));
    assert_eq!(decode_network_info_from_name("wKgBZB-QAB"), None);
    assert_eq!(decode_network_info_from_name("wKgBZB-QAA=="), None);
    assert_eq!(decode_network_info_from_name("wKgBZB+QAA"), None);
}
