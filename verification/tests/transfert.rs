use cargodrop::network::file_transfer::{
    ErreurTransfert, FileHeader, FileTransfer, PeerInfo, SuiviReception, TransferResponse, CHUNK_SIZE,
};
use cargodrop::network::tcp_client::TcpClient;
use cargodrop::network::tcp_server::TcpServer;
use cargodrop::rendezvous::Peer;
use cargodrop::ui::interaction::{InteractionHandler, PeerEvent};
use std::collections::HashMap;
use std::sync::Arc;

struct Muet;

impl InteractionHandler for Muet {
    fn display_peers_list(&self, _: &HashMap<String, Peer>, _: &HashMap<String, Peer>) {}
    fn handle_peer_event(&self, _: PeerEvent) {}
    fn select_peer(&self, _: &[PeerInfo]) -> Option<PeerInfo> {
        None
    }
    fn on_advertising_start(&self, _: &str, _: [u8; 4], _: u16, _: &str) {}
    fn update_progress(&self, _: &str, _: u64, _: u64) {}
}

fn interface() -> Arc<dyn InteractionHandler> {
    Arc::new(Muet)
}

#[test]
fn trame_prefixee() {
    assert_eq!(FileTransfer::trame_message(b"{}").unwrap(), vec![0, 0, 0, 2, b'{', b'}']);
    assert_eq!(FileTransfer::trame_message(&[]).unwrap(), vec![0, 0, 0, 0]);
    let grand = vec![7u8; 300];
    let t = FileTransfer::trame_message(&grand).unwrap();
    assert_eq!(&t[..4], &[0, 0, 1, 44]);
    assert_eq!(&t[4..], &grand[..]);
}

#[test]
fn longueur_de_trame() {
    assert_eq!(FileTransfer::longueur_annoncee(&[0, 0, 1, 0]), 256);
    assert_eq!(FileTransfer::longueur_annoncee(&[1, 2, 3, 4]), 0x01020304);
}

#[test]
fn type_de_fichier() {
    assert_eq!(FileTransfer::detect_file_type("photo.JPG"), "jpg");
    assert_eq!(FileTransfer::detect_file_type("archive.tar.gz"), "gz");
    assert_eq!(FileTransfer::detect_file_type(".bashrc"), "unknown");
    assert_eq!(FileTransfer::detect_file_type("README"), "unknown");
    assert_eq!(FileTransfer::detect_file_type("fichier."), "unknown");
    assert_eq!(FileTransfer::detect_file_type(".."), "unknown");
    assert_eq!(FileTransfer::detect_file_type("notes.ÉTÉ"), "été");
}

#[test]
fn entete_de_fichier() {
    let h = FileTransfer::build_file_header("dossier/rapport.PDF", 42).unwrap();
    assert_eq!(h.filename, "rapport.PDF");
    assert_eq!(h.file_size, 42);
    assert_eq!(h.file_type, "pdf");
    assert!(matches!(FileTransfer::build_file_header("/", 1), Err(ErreurTransfert::NomDeFichierIntrouvable)));
    assert!(matches!(FileTransfer::build_file_header("a/..", 1), Err(ErreurTransfert::NomDeFichierIntrouvable)));
}

#[test]
fn reception_suivie() {
    assert_eq!(CHUNK_SIZE, 1024 * 1024);
    let mut s = SuiviReception::nouveau(10);
    assert!(s.en_cours());
    assert_eq!(s.taille_a_lire(), 10);
    assert!(s.enregistrer_lecture(4).is_ok());
    assert_eq!(s.bilan(), (4, 6));
    assert!(matches!(s.enregistrer_lecture(0), Err(ErreurTransfert::ConnexionFermee)));
    assert_eq!(s.bilan(), (4, 6));
    assert!(s.enregistrer_lecture(6).is_ok());
    assert!(!s.en_cours());
    assert_eq!(s.bilan(), (10, 0));
    let gros = SuiviReception::nouveau(5 * 1024 * 1024);
    assert_eq!(gros.taille_a_lire(), CHUNK_SIZE);
}

#[test]
fn horodatage() {
    assert_eq!(FileTransfer::horodatage(Some(1725029869)), "1725029869");
    assert_eq!(FileTransfer::horodatage(None), "0");
    let t = FileTransfer::timestamp();
    assert!(!t.is_empty() && t.chars().all(|c| c.is_ascii_digit()));
    assert!(t.parse::<u64>().unwrap() > 1_600_000_000);
}

#[test]
fn client_adresse_et_requete() {
    let peer = PeerInfo { ip: "192.168.1.2".to_string(), port: 8080, device_name: "receiver".to_string() };
    let c = TcpClient::new(peer, "moi".to_string(), interface());
    assert_eq!(c.adresse(), "192.168.1.2:8080");
    assert_eq!(c.peer().device_name, "receiver");
    let h = FileHeader { filename: "a.txt".to_string(), file_size: 3, file_type: "txt".to_string() };
    let r = c.requete(h);
    assert_eq!(r.device_name, "moi");
    assert_eq!(r.file_header.filename, "a.txt");
}

#[test]
fn reponse_lue_par_le_client() {
    type C = TcpClient<dyn InteractionHandler>;
    let oui = TransferResponse { device_name: "r".to_string(), accepted: true, message: "Ready to receive".to_string() };
    assert!(C::verifier_reponse(&oui).is_ok());
    let non = TransferResponse { device_name: "r".to_string(), accepted: false, message: "Transfer rejected by user".to_string() };
    match C::verifier_reponse(&non) {
        Err(ErreurTransfert::TransfertRefuse(m)) => assert_eq!(m, "Transfer rejected by user"),
        _ => panic!("refusal expected"),
    }
}

#[test]
fn serveur_adresse_et_reponse() {
    let s = TcpServer::new(9000, "recepteur".to_string(), interface());
    assert_eq!(s.adresse(), "0.0.0.0:9000");
    assert_eq!(s.device_name(), "recepteur");
    let oui = s.reponse(true);
    assert!(oui.accepted);
    assert_eq!(oui.message, "Ready to receive");
    assert_eq!(oui.device_name, "recepteur");
    let non = s.reponse(false);
    assert!(!non.accepted);
    assert_eq!(non.message, "Transfer rejected by user");
}

#[test]
fn confirmation_saisie() {
    type S = TcpServer<dyn InteractionHandler>;
    assert!(S::interpreter_confirmation("y\n"));
    assert!(S::interpreter_confirmation("  Yes \n"));
    assert!(S::interpreter_confirmation("YES"));
    assert!(!S::interpreter_confirmation("no"));
    assert!(!S::interpreter_confirmation("yess"));
    assert!(!S::interpreter_confirmation(""));
    assert!(!S::interpreter_confirmation("y e s"));
}

fn taille_en_flottants(bytes: u64) -> String {
    let value = bytes as f64;
    let kb = 1024.0;
    let mb = kb * 1024.0;
    let gb = mb * 1024.0;
    if value >= gb {
        format!("{:.2} GB", value / gb)
    } else if value >= mb {
        format!("{:.2} MB", value / mb)
    } else if value >= kb {
        format!("{:.2} KB", value / kb)
    } else {
        format!("{} B", bytes)
    }
}

#[test]
fn taille_lisible_valeurs() {
    assert_eq!(FileTransfer::human_bytes(0), "0 B");
    assert_eq!(FileTransfer::human_bytes(1023), "1023 B");
    assert_eq!(FileTransfer::human_bytes(1024), "1.00 KB");
    assert_eq!(FileTransfer::human_bytes(1536), "1.50 KB");
    assert_eq!(FileTransfer::human_bytes(1152), "1.12 KB");
    assert_eq!(FileTransfer::human_bytes(1048576), "1.00 MB");
    assert_eq!(FileTransfer::human_bytes(1073741824), "1.00 GB");
    assert_eq!(FileTransfer::human_bytes(u64::MAX), "17179869184.00 GB");
}

#[test]
fn taille_lisible_comme_en_flottants() {
    let mut valeurs: Vec<u64> = Vec::new();
    for b in 0..70000u64 {
        valeurs.push(b);
    }
    for k in 0..64u32 {
        let p = 1u64 << k;
        for d in 0..8u64 {
            valeurs.push(p.wrapping_add(d));
            valeurs.push(p.wrapping_sub(d));
            valeurs.push(p.wrapping_add(p / 2).wrapping_add(d));
        }
    }
    let mut x: u64 = 0x9e3779b97f4a7c15;
    for _ in 0..200000 {
        x = x.wrapping_mul(6364136223846793005).wrapping_add(1442695040888963407);
        valeurs.push(x >> (x % 64));
        valeurs.push(x);
    }
    for m in 0..4096u64 {
        valeurs.push((1u64 << 53) + m);
        valeurs.push(u64::MAX - m);
        valeurs.push(m * 10737418);
        valeurs.push(m * 1073741824 / 100 * 3 + 5368709);
    }
    for b in valeurs {
        assert_eq!(FileTransfer::human_bytes(b), taille_en_flottants(b), "{}", b);
    }
}
