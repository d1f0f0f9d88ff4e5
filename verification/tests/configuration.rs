use ac_cloud_server_manager::manager::config::IniManager;
use ac_cloud_server_manager::manager::deps::{
    dependencies, dependency_install_result, detect_os, get_missing_dependencies, OsFamily,
};
use ac_cloud_server_manager::manager::error::{IniParseError, ServerManagerError};
use ac_cloud_server_manager::utils::commands::linux::LinuxCommandProvider;
use ac_cloud_server_manager::utils::commands::{get_controller, CommandProvider, CommandType};
use ac_cloud_server_manager::utils::templates::get_ac_server_docker_compose;

const SERVER_CFG: &str = "[SERVER]\nMAX_CLIENTS=2\nUDP_PORT=9600\nTCP_PORT=9600\nHTTP_PORT=8081\nTRACK=monza\nCARS=ks_ferrari\n";

fn validation_message(r: Result<(), ServerManagerError>) -> String {
    match r {
        Err(ServerManagerError::ValidationError(m)) => m,
        Err(_) => panic!("expected a validation error"),
        Ok(()) => "ok".to_string(),
    }
}

fn check(server: &str, entries: &str) -> String {
    match IniManager::new(server, entries) {
        Ok(m) => validation_message(m.validate()),
        Err(e) => e.message(),
    }
}

#[test]
fn valid_configuration_passes() {
    assert_eq!(check(SERVER_CFG, "[CAR_0]\n[CAR_1]\n"), "ok");
}

#[test]
fn each_problem_of_a_configuration() {
    assert_eq!(check("[X]\n", ""), "Missing [SERVER] section in server_cfg.ini");
    assert_eq!(check("[SERVER]\nUDP_PORT=1\n", ""), "Missing MAX_CLIENTS in server_cfg.ini");
    assert_eq!(check("[SERVER]\nMAX_CLIENTS=-1\n", ""), "Invalid MAX_CLIENTS value");
    assert_eq!(check("[SERVER]\nMAX_CLIENTS=1\n", ""), "Missing UDP_PORT in server_cfg.ini");
    assert_eq!(check("[SERVER]\nMAX_CLIENTS=1\nUDP_PORT=70000\n", ""), "Invalid UDP_PORT value");
    assert_eq!(
        check("[SERVER]\nMAX_CLIENTS=1\nUDP_PORT=1\nTCP_PORT=2\nHTTP_PORT=3\n", ""),
        "Missing TRACK in server_cfg.ini"
    );
    assert_eq!(
        check("[SERVER]\nMAX_CLIENTS=1\nUDP_PORT=1\nTCP_PORT=2\nHTTP_PORT=3\nTRACK=t\n", ""),
        "Missing CARS in server_cfg.ini"
    );
    assert_eq!(
        check("[SERVER]\nMAX_CLIENTS=1\nUDP_PORT=1\nTCP_PORT=2\nHTTP_PORT=3\nTRACK=t\nCARS=  \n", ""),
        "CARS list cannot be empty"
    );
    assert_eq!(check(SERVER_CFG, "[CAR_0]\n[CAR_2]\n"), "Missing contiguous section [CAR_1] in entry_list.ini");
    assert_eq!(check(SERVER_CFG, "[CAR_0]\n[CAR_1]\n[CAR_2]\n"), "More cars in entry_list (3) than MAX_CLIENTS (2)");
}

#[test]
fn unreadable_file_is_an_ini_error() {
    let msg = check("[SERVER\n", "");
    assert!(msg.starts_with("INI Parsing Error: "));
}

#[test]
fn updated_parameter_is_written() {
    let mut m = IniManager::new(SERVER_CFG, "").ok().unwrap();
    m.update_server_param("SERVER", "TRACK", "spa");
    let text = m.serialize_server_cfg();
    assert!(text.contains("TRACK=spa"));
    assert!(!text.contains("TRACK=monza"));
    let again = IniManager::new(&text, "").ok().unwrap();
    assert_eq!(validation_message(again.validate()), "ok");
}

#[test]
fn error_messages_name_their_kind() {
    let e = ServerManagerError::IniError(IniParseError { line: 3, col: 7, msg: "bad".to_string() });
    assert_eq!(e.message(), "INI Parsing Error: 3:7 bad");
    assert_eq!(ServerManagerError::CryptoError("x".to_string()).message(), "Crypto Error: x");
    assert_eq!(ServerManagerError::JsonError("y".to_string()).message(), "JSON Serialization Error: y");
    assert_eq!(ServerManagerError::SteamCmdError("z".to_string()).message(), "SteamCMD Error: z");
}

#[test]
fn os_families_from_os_release() {
    assert!(matches!(detect_os(Some("ID=Ubuntu\n")), OsFamily::Debian));
    assert!(matches!(detect_os(Some("ID_LIKE=\"rhel fedora\"\n")), OsFamily::RedHat));
    assert!(matches!(detect_os(Some("ID=arch\n")), OsFamily::Arch));
    assert!(matches!(detect_os(Some("ID=alpine\n")), OsFamily::Unknown));
    assert!(matches!(detect_os(None), OsFamily::Unknown));
}

#[test]
fn missing_tools_with_their_install_commands() {
    let missing = get_missing_dependencies(&OsFamily::RedHat, &vec![true, false, false]);
    assert_eq!(missing.len(), 2);
    assert_eq!(missing[0].name, "curl");
    assert_eq!(missing[0].cmd, "sudo yum install -y curl");
    assert_eq!(missing[1].name, "unzip");
    assert_eq!(missing[1].cmd, "sudo yum install -y unzip");
    assert!(get_missing_dependencies(&OsFamily::Debian, &vec![true, true, true]).is_empty());
    let deps = dependencies();
    assert_eq!(deps[0].get_setup_cmd(&OsFamily::Arch), "curl -fsSL https://get.docker.com | sudo sh");
    assert_eq!(deps[2].get_setup_cmd(&OsFamily::Unknown), "echo 'Unsupported OS for automatic unzip installation'");
    assert_eq!(deps[1].check_cmd, "command -v curl");
}

#[test]
fn install_outcomes() {
    assert!(dependency_install_result(Some(0)).is_ok());
    match dependency_install_result(Some(1)) {
        Err(ServerManagerError::SetupError(m)) => assert_eq!(m, "Dependency installation failed"),
        _ => panic!("expected a setup error"),
    }
    assert!(dependency_install_result(None).is_err());
}

#[test]
fn linux_commands() {
    let c = get_controller("windows");
    assert_eq!(c.get_command(CommandType::Reboot), "sudo reboot");
    assert_eq!(LinuxCommandProvider.get_command(CommandType::Shutdown), "sudo shutdown -h now");
    assert_eq!(
        LinuxCommandProvider.get_command(CommandType::TailLog { file_path: "/var/log/a'b".to_string(), lines: 50 }),
        "tail -n 50 -f /var/log/a'\\''b"
    );
    assert_eq!(
        LinuxCommandProvider.get_command(CommandType::GetFreeSpace { target_dir: "/x\"y".to_string() }),
        "df -B1 \"/x\\\"y\" | tail -n 1 | awk '{print $4}'"
    );
    assert!(LinuxCommandProvider
        .get_command(CommandType::GetAcPlayers("a'b".to_string()))
        .starts_with("PORT=$(grep -i '^HTTP_PORT' $HOME/ac-manager/instances/'a'\\''b'/ac_files"));
}

#[test]
fn compose_file_with_ports() {
    let text = get_ac_server_docker_compose(9600, 9601, 8081);
    assert!(text.contains("- \"9600:9600/tcp\""));
    assert!(text.contains("- \"9601:9601/udp\""));
    assert!(text.contains("- \"8081:8081/tcp\""));
    assert!(text.ends_with("    command: ./acServer\n"));
}
