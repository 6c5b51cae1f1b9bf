use cargodrop::cli::{CasUtilisation, Cli, Commands};
use cargodrop::user_info::{truncate_username, nom_par_defaut, AdresseIp, UserInfo, PORT_PAR_DEFAUT};

#[test]
fn nom_tronque_a_quatorze() {
    assert_eq!(truncate_username("abcdefghijklmnopqrstuvwxyz"), "abcdefghijklmn");
    assert_eq!(truncate_username("court"), "court");
    assert_eq!(truncate_username("ééééééééééééééé"), "éééééééééééééé");
}

#[test]
fn configuration_nouvelle() {
    let u = UserInfo::new("abcdefghijklmnopqrstuvwxyz".to_string(), 9000, AdresseIp::V4([10, 0, 0, 2]));
    assert_eq!(u.username, "abcdefghijklmn");
    assert_eq!(u.port, 9000);
    assert_eq!(u.get_ip_bytes(), [10, 0, 0, 2]);
}

#[test]
fn configuration_chargee() {
    let ip = AdresseIp::V4([1, 2, 3, 4]);
    let stockee = UserInfo::depuis_configuration(Some(("un nom stocke plus long".to_string(), 7000)), None, ip);
    assert_eq!(stockee.username, "un nom stocke ");
    assert_eq!(stockee.port, 7000);
    let hote = UserInfo::depuis_configuration(None, Some("machine-avec-un-long-nom".to_string()), ip);
    assert_eq!(hote.username, "machine-avec-u");
    assert_eq!(hote.port, PORT_PAR_DEFAUT);
    let secours = UserInfo::depuis_configuration(None, None, ip);
    assert_eq!(secours.username, "cargo-user");
    assert_eq!(secours.port, 8080);
    assert_eq!(nom_par_defaut(Some("h".to_string())), "h");
}

#[test]
fn modifications() {
    let mut u = UserInfo::new("a".to_string(), 1, AdresseIp::V6([0, 0, 0, 0, 0, 0, 0, 1]));
    u.set_username("abcdefghijklmnopq".to_string());
    assert_eq!(u.username, "abcdefghijklmn");
    u.set_port(4242);
    assert_eq!(u.port, 4242);
    assert_eq!(u.get_ip_bytes(), [127, 0, 0, 1]);
}

fn cas(command: Commands) -> CasUtilisation {
    Cli { command }.cas_utilisation()
}

#[test]
fn commandes() {
    assert!(matches!(cas(Commands::Advertise), CasUtilisation::Advertise));
    assert!(matches!(cas(Commands::Discover), CasUtilisation::Discover));
    match cas(Commands::Send { ip: Some("1.2.3.4".to_string()), port: Some(9), file: "f".to_string() }) {
        CasUtilisation::Send { ip, port, file_path } => {
            assert_eq!(ip, "1.2.3.4");
            assert_eq!(port, Some(9));
            assert_eq!(file_path, "f");
        },
        _ => panic!("direct send expected"),
    }
    match cas(Commands::Send { ip: None, port: None, file: "g".to_string() }) {
        CasUtilisation::InteractiveSend { file_path } => assert_eq!(file_path, "g"),
        _ => panic!("interactive send expected"),
    }
    assert!(matches!(cas(Commands::Receive), CasUtilisation::AdvertiseAndReceive));
    assert!(matches!(cas(Commands::GetIp), CasUtilisation::GetIp));
    assert!(matches!(cas(Commands::GetName), CasUtilisation::GetName));
    assert!(matches!(cas(Commands::SetName { name: Some("n".to_string()), default: false }), CasUtilisation::SetName(n) if n == "n"));
    assert!(matches!(cas(Commands::SetName { name: None, default: true }), CasUtilisation::SetNameDefault));
    assert!(matches!(cas(Commands::GetPort), CasUtilisation::GetPort));
    assert!(matches!(cas(Commands::SetPort { port: Some(5), default: false }), CasUtilisation::SetPort(5)));
    assert!(matches!(cas(Commands::SetPort { port: None, default: true }), CasUtilisation::SetPortDefault));
    assert!(matches!(cas(Commands::Info), CasUtilisation::Info));
}
