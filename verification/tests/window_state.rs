use ac_cloud_server_manager::gui::{HostOperation, ServerManager};
use ac_cloud_server_manager::manager::error::ServerManagerError;
use ac_cloud_server_manager::manager::profiles::ConnectionProfile;

fn profile(id: &str) -> ConnectionProfile {
    ConnectionProfile {
        id: id.to_string(),
        name: format!("name {}", id),
        host: "10.0.0.1".to_string(),
        username: "ac".to_string(),
        key_path: "/k".to_string(),
    }
}

const SERVER_CFG: &str = "[SERVER]\nMAX_CLIENTS=2\nUDP_PORT=9600\nTCP_PORT=9600\nHTTP_PORT=8081\nTRACK=monza\nCARS=ks_ferrari\n";

#[test]
fn new_window_is_ready_and_empty() {
    let m = ServerManager::new();
    assert_eq!(m.status, "Ready.");
    assert_eq!(m.profiles_json, "[]");
    assert_eq!(m.tracks_json, "[]");
    assert_eq!(m.latest_stats_json, "{}");
    assert_eq!(m.track_upload_status, "idle");
    assert!(!m.is_connected);
    assert!(m.profiles.is_empty());
}

#[test]
fn poll_2fa_request_shows_prompt_once() {
    let mut m = ServerManager::new();
    m.poll_2fa_request();
    assert!(!m.needs_steam_2fa);
    m.pending_2fa_request = true;
    m.poll_2fa_request();
    assert!(m.needs_steam_2fa);
    assert!(!m.pending_2fa_request);
    m.submit_steam_2fa();
    assert!(!m.needs_steam_2fa);
}

#[test]
fn saved_profile_is_found_and_removed() {
    let mut m = ServerManager::new();
    m.save_profile(profile("a"));
    m.save_profile(profile("b"));
    let mut renamed = profile("a");
    renamed.name = "renamed".to_string();
    m.save_profile(renamed);
    assert_eq!(m.profiles.len(), 2);
    assert_eq!(m.profile("a").unwrap().name, "renamed");
    m.remove_profile("a");
    assert!(m.profile("a").is_none());
    assert_eq!(m.profile("b").unwrap().name, "name b");
}

#[test]
fn profile_store_outcomes() {
    let mut m = ServerManager::new();
    m.profiles_written(false, Ok(()), "[{}]".to_string());
    assert_eq!(m.status, "Profile saved successfully.");
    assert_eq!(m.profiles_json, "[{}]");
    m.profiles_written(true, Err(ServerManagerError::IoError("read-only".to_string())), "[]".to_string());
    assert_eq!(m.status, "Error saving profiles: IO Error: read-only");
    assert_eq!(m.profiles_json, "[{}]");
    m.profiles_written(true, Ok(()), "[]".to_string());
    assert_eq!(m.status, "Profile removed.");
}

#[test]
fn connection_outcomes() {
    let p = profile("x");
    assert_eq!(ServerManager::connecting_message(&p), "Connecting to 10.0.0.1 as ac... Check console for logs.");
    let mut m = ServerManager::new();
    m.connection_result(Err(ServerManagerError::SetupError("timeout".to_string())), Ok(0), String::new());
    assert_eq!(m.status, "Connection failed: Server Setup Error: timeout");
    assert!(!m.is_connected);
    m.connection_result(Ok(()), Err(ServerManagerError::SshError("eof".to_string())), String::new());
    assert_eq!(m.status, "Dependency check failed: SSH Error: eof");
    m.connection_result(Ok(()), Ok(1), "[{\"name\":\"curl\"}]".to_string());
    assert!(m.is_connected);
    assert_eq!(m.missing_dependencies_json, "[{\"name\":\"curl\"}]");
    m.approve_bootstrap(Some(&p));
    assert_eq!(m.missing_dependencies_json, "[]");
    assert_eq!(m.status, "Installing dependencies and bootstrapping 10.0.0.1...");
    m.missing_dependencies_json = "[1]".to_string();
    m.set_status("x".to_string());
    m.approve_bootstrap(None);
    assert_eq!(m.missing_dependencies_json, "[]");
    assert_eq!(m.status, "x");
}

#[test]
fn logs_are_handed_out_once() {
    let mut m = ServerManager::new();
    m.append_bootstrap_log("a");
    m.append_bootstrap_log("b");
    assert_eq!(m.poll_bootstrap_log(), "ab");
    assert_eq!(m.poll_bootstrap_log(), "");
    m.append_process_log("srv", "line1\n");
    m.append_process_log("other", "x");
    m.append_process_log("srv", "line2\n");
    assert_eq!(m.poll_process_logs("srv"), "line1\nline2\n");
    assert_eq!(m.poll_process_logs("srv"), "");
    assert_eq!(m.poll_process_logs("missing"), "");
    assert_eq!(m.poll_process_logs("other"), "x");
}

#[test]
fn fetched_values_are_shown_on_poll() {
    let mut m = ServerManager::new();
    m.poll_fetched_configs();
    assert_eq!(m.server_cfg_content, "");
    m.configs_fetched("s".to_string(), "e".to_string());
    m.poll_fetched_configs();
    assert_eq!(m.server_cfg_content, "s");
    assert_eq!(m.entry_list_content, "e");
    assert!(m.fetched_server_cfg.is_none());
    m.tracks_fetched("[1]".to_string());
    m.poll_fetched_tracks();
    assert_eq!(m.tracks_json, "[1]");
    m.cars_fetched("[2]".to_string());
    m.poll_fetched_cars();
    assert_eq!(m.cars_json, "[2]");
}

#[test]
fn config_save_status_is_shown_once() {
    let mut m = ServerManager::new();
    assert_eq!(m.poll_config_save_status(), "");
    m.configs_saved(true);
    assert_eq!(m.poll_config_save_status(), "Configs saved and server restarted.");
    assert_eq!(m.status, "Configs saved and server restarted.");
    assert_eq!(m.poll_config_save_status(), "");
    m.configs_saved(false);
    assert_eq!(m.poll_config_save_status(), "Failed to save configs or restart server.");
}

#[test]
fn config_check_messages() {
    let m = ServerManager::new();
    assert_eq!(m.validate_server_configs(SERVER_CFG, "[CAR_0]\nMODEL=ks_ferrari\n"), "Valid");
    assert_eq!(
        m.validate_server_configs(SERVER_CFG, "[CAR_0]\n[CAR_1]\n[CAR_2]\n"),
        "Validation Error: More cars in entry_list (3) than MAX_CLIENTS (2)"
    );
    assert_eq!(
        m.validate_server_configs("[OTHER]\n", ""),
        "Validation Error: Missing [SERVER] section in server_cfg.ini"
    );
    assert!(m.validate_server_configs("[SERVER\n", "").starts_with("INI Parsing Error: "));
}

#[test]
fn uploads_report_progress() {
    let mut m = ServerManager::new();
    m.begin_upload(false);
    assert_eq!(m.poll_track_upload_status(), "uploading");
    m.upload_progress(false, Some("unpacking".to_string()), Some("log".to_string()));
    assert_eq!(m.poll_track_upload_status(), "unpacking");
    assert_eq!(m.poll_track_upload_log(), "log");
    assert_eq!(m.poll_track_upload_log(), "");
    m.begin_upload(true);
    m.upload_progress(true, None, Some("x".to_string()));
    assert_eq!(m.poll_car_upload_status(), "uploading");
    assert_eq!(m.poll_car_upload_log(), "x");
    assert_eq!(m.poll_track_upload_status(), "unpacking");
}

#[test]
fn host_operation_statuses() {
    let mut m = ServerManager::new();
    m.begin_operation(&HostOperation::Uninstall);
    assert_eq!(m.status, "Uninstalling AC Server...");
    m.begin_operation(&HostOperation::StartServer);
    assert_eq!(m.status, "Starting AC Server via Docker...");
    m.begin_operation(&HostOperation::StopServer);
    assert_eq!(m.status, "Stopping AC Server via Docker...");
    assert_eq!(ServerManager::installing_message(&profile("p")), "Installing AC Server on 10.0.0.1...");
    assert_eq!(
        ServerManager::uninstall_command("p1"),
        "cd ~/ac-manager/instances/p1 && docker compose down; rm -rf ~/ac-manager/instances/p1"
    );
    m.set_latest_stats("{\"a\":1}".to_string());
    assert_eq!(m.get_latest_stats(), "{\"a\":1}");
}
