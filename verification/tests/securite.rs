use cargodrop::security::encryption::{CipherManager, DecipherManager, MAX_BLOC_SIZE, MIN_BLOC_SIZE};
use cargodrop::security::handshake::InitiateurPoigneeDeMain;
use cargodrop::security::identity::GestionnaireIdentite;
use cargodrop::security::{ErreurSecurite, SecureSession};
use sha2::Digest;

fn octets_hex(s: &str) -> Vec<u8> {
    hex::decode(s).unwrap()
}

fn tableau32(s: &str) -> [u8; 32] {
    let v = octets_hex(s);
    let mut t = [0u8; 32];
    t.copy_from_slice(&v);
    t
}

#[test]
fn bloc_chiffre_aller_retour() {
    let cle = [7u8; 32];
    let mut c = CipherManager::avec_prefixe(&cle, [0u8; 4]);
    let mut d = DecipherManager::nouveau(&cle);
    for message in [&b"Hello, securite!"[..], &[42u8; 1000][..], &[1u8][..]] {
        let bloc = c.chiffrer_bloc(message).unwrap();
        assert_eq!(bloc.len(), 8 + message.len() + 16);
        assert_eq!(d.dechiffrer_bloc(&bloc).unwrap(), message.to_vec());
    }
    assert_eq!(c.obtenir_numero_bloc(), 3);
    assert_eq!(d.obtenir_numero_bloc_attendu(), 3);
}

#[test]
fn bloc_porte_son_numero() {
    let mut c = CipherManager::avec_prefixe(&[1u8; 32], [0u8; 4]);
    let premier = c.chiffrer_bloc(b"a").unwrap();
    let second = c.chiffrer_bloc(b"b").unwrap();
    assert_eq!(&premier[..8], &0u64.to_le_bytes());
    assert_eq!(&second[..8], &1u64.to_le_bytes());
}

#[test]
fn aes_gcm_vecteur_connu() {
    // Key, nonce and a 16-byte plaintext of zeros: the published AES-256-GCM test case.
    let mut c = CipherManager::avec_prefixe(&[0u8; 32], [0u8; 4]);
    let bloc = c.chiffrer_bloc(&[0u8; 16]).unwrap();
    let mut attendu = vec![0u8; 8];
    attendu.extend(octets_hex("cea7403d4d606b6e074ec5d3baf39d18"));
    attendu.extend(octets_hex("d0d1c8a799996bf0265b98b5d48ab919"));
    assert_eq!(bloc, attendu);
}

#[test]
fn bloc_vide_refuse() {
    let mut c = CipherManager::avec_prefixe(&[0u8; 32], [0u8; 4]);
    assert_eq!(c.chiffrer_bloc(&[]), Err(ErreurSecurite::BlocVide));
    assert_eq!(c.obtenir_numero_bloc(), 0);
}

#[test]
fn bloc_trop_grand_refuse() {
    let mut c = CipherManager::avec_prefixe(&[0u8; 32], [0u8; 4]);
    assert_eq!(c.chiffrer_bloc(&vec![0u8; 65537]), Err(ErreurSecurite::BlocTropGrand(65537)));
    assert!(c.chiffrer_bloc(&vec![0u8; 65536]).is_ok());
}

#[test]
fn bloc_trop_court_refuse() {
    let mut d = DecipherManager::nouveau(&[0u8; 32]);
    assert_eq!(d.dechiffrer_bloc(&[0u8; 7]), Err(ErreurSecurite::BlocTropCourt));
}

#[test]
fn bloc_surdimensionne_refuse() {
    let mut d = DecipherManager::nouveau(&[0u8; 32]);
    assert_eq!(MAX_BLOC_SIZE, 65536 + 24);
    assert_eq!(MIN_BLOC_SIZE, 24);
    assert_eq!(d.dechiffrer_bloc(&vec![0u8; MAX_BLOC_SIZE + 1]), Err(ErreurSecurite::BlocSurdimensionne(MAX_BLOC_SIZE + 1)));
}

#[test]
fn rejeu_refuse() {
    let cle = [3u8; 32];
    let mut c = CipherManager::avec_prefixe(&cle, [0u8; 4]);
    let mut d = DecipherManager::nouveau(&cle);
    let bloc = c.chiffrer_bloc(b"une fois").unwrap();
    assert!(d.dechiffrer_bloc(&bloc).is_ok());
    assert_eq!(d.dechiffrer_bloc(&bloc), Err(ErreurSecurite::BlocHorsOrdre { attendu: 1, recu: 0 }));
}

#[test]
fn bloc_hors_ordre_refuse() {
    let cle = [3u8; 32];
    let mut c = CipherManager::avec_prefixe(&cle, [0u8; 4]);
    let mut d = DecipherManager::nouveau(&cle);
    let _premier = c.chiffrer_bloc(b"un").unwrap();
    let second = c.chiffrer_bloc(b"deux").unwrap();
    assert_eq!(d.dechiffrer_bloc(&second), Err(ErreurSecurite::BlocHorsOrdre { attendu: 0, recu: 1 }));
    assert_eq!(d.obtenir_numero_bloc_attendu(), 0);
}

#[test]
fn bloc_altere_refuse() {
    let cle = [9u8; 32];
    let mut c = CipherManager::avec_prefixe(&cle, [0u8; 4]);
    let mut d = DecipherManager::nouveau(&cle);
    let mut bloc = c.chiffrer_bloc(b"integre").unwrap();
    let n = bloc.len();
    bloc[n - 1] ^= 1;
    assert_eq!(d.dechiffrer_bloc(&bloc), Err(ErreurSecurite::EchecDechiffrement));
    assert_eq!(d.obtenir_numero_bloc_attendu(), 0);
}

#[test]
fn prefixe_different_refuse() {
    // The decipher always uses a zero prefix: a cipher with another prefix is not read back.
    let cle = [9u8; 32];
    let mut c = CipherManager::avec_prefixe(&cle, [1, 2, 3, 4]);
    let mut d = DecipherManager::nouveau(&cle);
    let bloc = c.chiffrer_bloc(b"message").unwrap();
    assert_eq!(d.dechiffrer_bloc(&bloc), Err(ErreurSecurite::EchecDechiffrement));
}

#[test]
fn session_non_activee() {
    let mut s = SecureSession::new("test-device".to_string());
    assert_eq!(s.chiffrer(b"x"), Err(ErreurSecurite::ChiffrementNonActive));
    assert_eq!(s.dechiffrer(&[0u8; 30]), Err(ErreurSecurite::DechiffrementNonActive));
}

#[test]
fn session_aller_retour() {
    let mut s = SecureSession::avec_identite(GestionnaireIdentite::depuis_secret([5u8; 32]));
    s.activer_chiffrement(&[7u8; 32]);
    let message = b"Hello, securite!";
    let chiffre = s.chiffrer(message).unwrap();
    assert_eq!(chiffre.len(), 8 + message.len() + 16);
    assert_eq!(s.dechiffrer(&chiffre).unwrap(), message.to_vec());
    let gros = vec![0u8; 1000];
    let chiffre_gros = s.chiffrer(&gros).unwrap();
    assert_eq!(chiffre_gros.len(), 8 + 1000 + 16);
    assert_eq!(s.dechiffrer(&chiffre_gros).unwrap(), gros);
    assert_eq!(s.dechiffrer(&chiffre_gros), Err(ErreurSecurite::BlocHorsOrdre { attendu: 2, recu: 1 }));
}

#[test]
fn session_aller_retour_avec_prefixe() {
    let mut s = SecureSession::new("x".to_string());
    s.activer_chiffrement_avec_prefixe(&[9u8; 32], [1, 2, 3, 4]);
    let chiffre = s.chiffrer(b"abc").unwrap();
    assert_eq!(s.dechiffrer(&chiffre).unwrap(), b"abc".to_vec());
}

#[test]
fn paire_neuve_en_phase() {
    let cle = [3u8; 32];
    let mut c = CipherManager::nouveau(&cle);
    let mut d = DecipherManager::nouveau(&cle);
    let messages: Vec<Vec<u8>> = vec![b"un".to_vec(), vec![9u8; 65536], b"trois".to_vec()];
    let blocs: Vec<Vec<u8>> = messages.iter().map(|m| c.chiffrer_bloc(m).unwrap()).collect();
    for (m, b) in messages.iter().zip(blocs.iter()) {
        assert_eq!(&d.dechiffrer_bloc(b).unwrap(), m);
    }
    assert_eq!(d.obtenir_numero_bloc_attendu(), 3);
}

#[test]
fn session_activee_chiffre() {
    let mut s = SecureSession::new("x".to_string());
    s.activer_chiffrement(&[4u8; 32]);
    let bloc = s.chiffrer(b"abc").unwrap();
    assert_eq!(&bloc[..8], &0u64.to_le_bytes());
    assert_eq!(s.cipher.as_ref().unwrap().obtenir_numero_bloc(), 1);
    assert_eq!(s.decipher.as_ref().unwrap().obtenir_numero_bloc_attendu(), 0);
}

#[test]
fn empreinte_sha256() {
    assert_eq!(GestionnaireIdentite::creer_empreinte(b""), "e3b0c44298fc1c14");
    assert_eq!(GestionnaireIdentite::creer_empreinte(b"abc"), "ba7816bf8f01cfea");
}

#[test]
fn identifiant_court() {
    assert_eq!(GestionnaireIdentite::creer_identifiant_court("e3b0c44298fc1c14"), "e3b0");
}

#[test]
fn ed25519_vecteur_rfc8032() {
    let id = GestionnaireIdentite::depuis_secret(tableau32("9d61b19deffd5a60ba844af492ec2cc44449c5697b326919703bac031cae7f60"));
    assert_eq!(id.obtenir_cle_verification_locale(), octets_hex("d75a980182b10ab7d54bfed3c964073a0ee172f3daa62325af021a68f707511a"));
    let signature = id.signer(b"");
    assert_eq!(signature.to_vec(), octets_hex("e5564300c360ac729086e2cc806e828a84877f1eb8e5d974d873e065224901555fb8821590a33bacc61e39701cf9b46bd25bf5f0595bbe24655141438e7a100b"));
}

#[test]
fn signature_verifiee() {
    let id = GestionnaireIdentite::depuis_secret([11u8; 32]);
    let cle = id.obtenir_cle_verification_locale();
    let sig = id.signer(b"donnees");
    assert_eq!(GestionnaireIdentite::verifier_signature(&cle, b"donnees", &sig), Ok(()));
    assert_eq!(GestionnaireIdentite::verifier_signature(&cle, b"autres", &sig), Err(ErreurSecurite::SignatureInvalide));
    let autre = GestionnaireIdentite::depuis_secret([12u8; 32]).obtenir_cle_verification_locale();
    assert_eq!(GestionnaireIdentite::verifier_signature(&autre, b"donnees", &sig), Err(ErreurSecurite::SignatureInvalide));
}

#[test]
fn identite_locale() {
    let id = GestionnaireIdentite::depuis_secret([11u8; 32]);
    let ident = id.creer_identite_locale("poste".to_string());
    assert_eq!(ident.cle_publique, id.obtenir_cle_verification_locale());
    assert_eq!(ident.empreinte, GestionnaireIdentite::creer_empreinte(&ident.cle_publique));
    assert_eq!(ident.nom_appareil, "poste");
    assert_eq!(id.get_cle_signature(), [11u8; 32]);
    assert_eq!(id.get_cle_verification().to_vec(), ident.cle_publique);
}

#[test]
fn x25519_vecteur_rfc7748() {
    let (secret_a, public_a) = InitiateurPoigneeDeMain::secret_ephemere_depuis(tableau32("77076d0a7318a57d3c16c17251b26645df4c2f87ebc0992ab177fba51db92c2a"));
    assert_eq!(public_a, tableau32("8520f0098930a754748b7ddcb43ef75a0dbf3a0d26381af4eba4a98eaa9b4e6a"));
    let public_b = tableau32("de9edb7d7b7dc1b4d35b61c2ece435373f8343c85b78674dadfc7e146f882b4f");
    let partage = InitiateurPoigneeDeMain::deriver_secret_partage(secret_a, &public_b);
    assert_eq!(partage, tableau32("4a5d9d5ba4ce2de1728e3bf480350f25e07e21c947d19e3376f09b3c1e161742"));
}

#[test]
fn derivation_hkdf() {
    let partage = tableau32("4a5d9d5ba4ce2de1728e3bf480350f25e07e21c947d19e3376f09b3c1e161742");
    assert_eq!(
        InitiateurPoigneeDeMain::deriver_cle_chiffrement(&partage),
        tableau32("201b7d4d5c8b57a9e0c0a216c90792fc0eb1b8a457782c960a179e62e531df17")
    );
}

#[test]
fn message_init_signe() {
    let id = GestionnaireIdentite::depuis_secret([21u8; 32]);
    let init = InitiateurPoigneeDeMain::nouveau(id.get_cle_signature(), id.get_cle_verification());
    let (secret, public) = InitiateurPoigneeDeMain::secret_ephemere_depuis([33u8; 32]);
    let (message, _) = init.creer_message_init_avec("appareil".to_string(), secret);
    assert_eq!(message.cle_ephemere_pub, public.to_vec());
    assert_eq!(message.cle_identite, id.obtenir_cle_verification_locale());
    assert_eq!(message.nom_appareil, "appareil");
    let sig: [u8; 64] = message.signature_ephemere.clone().try_into().unwrap();
    assert_eq!(GestionnaireIdentite::verifier_signature(&message.cle_identite, &public, &sig), Ok(()));
    assert_eq!(init.signer_cle_ephemere(&public).to_vec(), message.signature_ephemere);
    let mut h = sha2::Sha256::new();
    h.update(public);
    h.update(b"appareil");
    h.update(&message.cle_identite);
    let condensat = h.finalize();
    let sig_msg: [u8; 64] = message.signature_message.clone().try_into().unwrap();
    assert_eq!(GestionnaireIdentite::verifier_signature(&message.cle_identite, &condensat, &sig_msg), Ok(()));
}

#[test]
fn handshake_de_session() {
    let id = GestionnaireIdentite::depuis_secret([8u8; 32]);
    let s = SecureSession::avec_identite(id);
    let (e, _) = InitiateurPoigneeDeMain::secret_ephemere_depuis([44u8; 32]);
    let (message, secret) = s.initier_handshake_avec(e);
    assert_eq!(message.nom_appareil, "cargodrop-client");
    assert_eq!(message.cle_identite, id.obtenir_cle_verification_locale());
    let public = x25519_dalek::x25519([44u8; 32], x25519_dalek::X25519_BASEPOINT_BYTES);
    assert_eq!(message.cle_ephemere_pub, public.to_vec());
    let pair = SecureSession::avec_identite(GestionnaireIdentite::depuis_secret([9u8; 32]));
    let (message_pair, secret_pair) = pair.initier_handshake();
    let cle = SecureSession::terminer_handshake(secret, &message_pair).unwrap();
    let cle_pair = SecureSession::terminer_handshake(secret_pair, &message).unwrap();
    assert_eq!(cle, cle_pair);
    let pub_pair: [u8; 32] = message_pair.cle_ephemere_pub.clone().try_into().unwrap();
    let partage = x25519_dalek::x25519([44u8; 32], pub_pair);
    assert_eq!(cle, InitiateurPoigneeDeMain::deriver_cle_chiffrement(&partage));
}

#[test]
fn handshake_cle_pair_invalide() {
    let s = SecureSession::avec_identite(GestionnaireIdentite::depuis_secret([8u8; 32]));
    let (_, secret) = s.initier_handshake();
    let (mut message_pair, _) = s.initier_handshake();
    message_pair.cle_ephemere_pub.pop();
    assert_eq!(SecureSession::terminer_handshake(secret, &message_pair), None);
}

#[test]
fn sessions_chiffrent_entre_elles() {
    let a = SecureSession::avec_identite(GestionnaireIdentite::depuis_secret([1u8; 32]));
    let b = SecureSession::avec_identite(GestionnaireIdentite::depuis_secret([2u8; 32]));
    let (ma, sa) = a.initier_handshake();
    let (mb, sb) = b.initier_handshake();
    let ka = SecureSession::terminer_handshake(sa, &mb).unwrap();
    let kb = SecureSession::terminer_handshake(sb, &ma).unwrap();
    let mut a = a;
    let mut b = b;
    a.activer_chiffrement(&ka);
    b.activer_chiffrement(&kb);
    let bloc = a.chiffrer(b"fichier").unwrap();
    assert_eq!(b.dechiffrer(&bloc).unwrap(), b"fichier".to_vec());
}

#[test]
fn identifiant_court_de_session() {
    let s = SecureSession::avec_identite(GestionnaireIdentite::depuis_secret([8u8; 32]));
    let empreinte = GestionnaireIdentite::creer_empreinte(&s.identite.obtenir_cle_verification_locale());
    assert_eq!(s.get_identifiant_court(), empreinte[..4].to_string());
}

#[test]
fn essais_sous_compteur() {
    let mut c = CipherManager::nouveau(&[6u8; 32]);
    let mut d = DecipherManager::nouveau(&[6u8; 32]);
    let bloc = c.essayer_chiffrer_bloc(b"abc").unwrap().unwrap();
    assert_eq!(d.essayer_dechiffrer_bloc(&bloc).unwrap(), Ok(b"abc".to_vec()));
    assert_eq!(c.essayer_chiffrer_bloc(b"").unwrap(), Err(ErreurSecurite::BlocVide));
    let mut s = SecureSession::new("x".to_string());
    assert_eq!(s.essayer_chiffrer(b"x"), Some(Err(ErreurSecurite::ChiffrementNonActive)));
    s.activer_chiffrement(&[6u8; 32]);
    let bloc = s.essayer_chiffrer(b"abc").unwrap().unwrap();
    assert_eq!(s.essayer_dechiffrer(&bloc), Some(Ok(b"abc".to_vec())));
}

#[test]
fn signatures_du_message_verifiees() {
    let s = SecureSession::avec_identite(GestionnaireIdentite::depuis_secret([13u8; 32]));
    let (m, _) = s.initier_handshake();
    let sig_e: [u8; 64] = m.signature_ephemere.clone().try_into().unwrap();
    assert_eq!(GestionnaireIdentite::verifier_signature(&m.cle_identite, &m.cle_ephemere_pub, &sig_e), Ok(()));
    assert_eq!(m.cle_ephemere_pub.len(), 32);
}
