use ac_cloud_server_manager::gui::ServerManager;
use ac_cloud_server_manager::manager::deps::{install_dependencies, InstallStep, MissingDependency};
use ac_cloud_server_manager::gui::setup::{
    ac_files_dir, compose_upload_command, config_upload_command, default_instance_config,
    install_failure_log, install_note, instance_dir, InstallFailure, InstallNote,
};
use ac_cloud_server_manager::gui::upload::{
    begin_upload, local_zip_path, upload_step, UploadAction, UploadEvent, UploadStage,
};
use ac_cloud_server_manager::manager::error::ServerManagerError;
use ac_cloud_server_manager::net::docker::{
    build_steamcmd_config, container_exit_result, container_name, create_or_start_step,
    docker_address, docker_failure, home_dir, server_container_spec, steamcmd_step,
    validate_profile_id, DockerOp, StartAction, StartEvent, StartStage, SteamcmdAction,
    SteamcmdEvent, SteamcmdStage,
};
use ac_cloud_server_manager::net::sftp::{
    config_path, mod_check_command, mod_target_dir, remote_zip_path, validate_mod_contents, ModType,
};
use ac_cloud_server_manager::net::ssh::{ssh_address, ssh_key_file, stream_command};
use ac_cloud_server_manager::utils::sftp_helpers::{
    delete_directory_command, delete_directory_result, move_upload_command, move_upload_result,
    upload_tmp_path,
};

fn setup_message(e: ServerManagerError) -> String {
    match e {
        ServerManagerError::SetupError(m) => m,
        _ => panic!("expected a setup error"),
    }
}

// ---------------------------------------------------------------- uploads

#[test]
fn chosen_path_loses_file_scheme() {
    assert_eq!(local_zip_path("file:///home/u/track.zip"), "/home/u/track.zip");
    assert_eq!(local_zip_path("/tmp/a.zip"), "/tmp/a.zip");
}

#[test]
fn upload_runs_through_its_stages() {
    let (stage, status) = begin_upload();
    assert!(matches!(stage, UploadStage::Connecting));
    assert_eq!(status, "uploading");
    assert_eq!(ac_cloud_server_manager::gui::upload::upload_percent_status(42), "uploading|42");
    let s = upload_step(&ModType::Track, "inst", "/tmp/u.zip", &stage, UploadEvent::Connected);
    assert!(matches!(s.stage, UploadStage::Reading));
    assert!(matches!(s.action, UploadAction::ReadFile));
    let s = upload_step(&ModType::Track, "inst", "/tmp/u.zip", &s.stage, UploadEvent::FileRead { zip_size: 1000 });
    match &s.action {
        UploadAction::QueryFreeSpace(cmd) => assert_eq!(cmd, "df -B1 \"$HOME\" | tail -n 1 | awk '{print $4}'"),
        _ => panic!("expected the free-space query"),
    }
    let s = upload_step(
        &ModType::Track,
        "inst",
        "/tmp/u.zip",
        &s.stage,
        UploadEvent::FreeSpaceReported { output: " 4000\n".to_string(), status: 0 },
    );
    assert!(matches!(s.stage, UploadStage::Uploading));
    assert!(matches!(s.action, UploadAction::Upload));
    let s = upload_step(&ModType::Track, "inst", "/tmp/u.zip", &s.stage, UploadEvent::Uploaded);
    assert_eq!(s.status.as_deref(), Some("unpacking"));
    match &s.action {
        UploadAction::RunUnzip(cmd) => assert_eq!(
            cmd,
            "unzip -o '/tmp/u.zip' -d \"$HOME/ac-manager/instances/inst/ac_files/content/tracks\" 2>&1 && rm '/tmp/u.zip'"
        ),
        _ => panic!("expected the unzip command"),
    }
    let s = upload_step(&ModType::Track, "inst", "/tmp/u.zip", &s.stage, UploadEvent::UnzipExited(0));
    assert!(matches!(s.stage, UploadStage::Finished));
    assert_eq!(s.status.as_deref(), Some("success"));
    assert_eq!(s.log.as_deref(), Some("\n\n[SUCCESS] Unzip completed."));
}

#[test]
fn upload_without_space_reports_sizes_in_mib() {
    let stage = UploadStage::CheckingSpace { zip_size: 3 * 1_048_576 };
    let s = upload_step(
        &ModType::Car,
        "i",
        "/tmp/z.zip",
        &stage,
        UploadEvent::FreeSpaceReported { output: "5242880".to_string(), status: 0 },
    );
    assert!(matches!(s.stage, UploadStage::Finished));
    assert_eq!(
        s.status.as_deref(),
        Some("failed|Not enough space on host. Zip size: 3 MB, Free space: 5 MB (Requires ~12 MB)")
    );
}

#[test]
fn unreadable_free_space_counts_as_none() {
    let stage = UploadStage::CheckingSpace { zip_size: 10 };
    let s = upload_step(&ModType::Car, "i", "/z", &stage, UploadEvent::FreeSpaceReported { output: "lots".to_string(), status: 0 });
    assert_eq!(
        s.status.as_deref(),
        Some("failed|Not enough space on host. Zip size: 0 MB, Free space: 0 MB (Requires ~0 MB)")
    );
    let s = upload_step(&ModType::Car, "i", "/z", &stage, UploadEvent::FreeSpaceReported { output: "999999".to_string(), status: 1 });
    assert!(matches!(s.stage, UploadStage::Finished));
    let s = upload_step(&ModType::Car, "i", "/z", &stage, UploadEvent::FreeSpaceUnknown);
    assert!(matches!(s.stage, UploadStage::Finished));
}

#[test]
fn a_whole_upload_shows_unpacking_then_one_final_status() {
    let events = vec![
        UploadEvent::Connected,
        UploadEvent::FileRead { zip_size: 10 },
        UploadEvent::FreeSpaceReported { output: "100".to_string(), status: 0 },
        UploadEvent::Uploaded,
        UploadEvent::UnzipExited(0),
        UploadEvent::Connected,
        UploadEvent::UnzipExited(1),
    ];
    let mut stage = UploadStage::Connecting;
    let mut shown: Vec<String> = Vec::new();
    for e in events {
        let s = upload_step(&ModType::Car, "i", "/z", &stage, e);
        if let Some(st) = s.status {
            shown.push(st);
        }
        stage = s.stage;
    }
    assert_eq!(shown, vec!["unpacking".to_string(), "success".to_string()]);
    assert!(matches!(stage, UploadStage::Finished));
}

#[test]
fn exact_space_is_enough() {
    let stage = UploadStage::CheckingSpace { zip_size: 10 };
    let s = upload_step(&ModType::Car, "i", "/z", &stage, UploadEvent::FreeSpaceReported { output: "+40".to_string(), status: 0 });
    assert!(matches!(s.stage, UploadStage::Uploading));
}

#[test]
fn failed_unzip_reports_exit_code() {
    let s = upload_step(&ModType::Car, "i", "/z", &UploadStage::Unpacking, UploadEvent::UnzipExited(-2));
    assert_eq!(s.status.as_deref(), Some("failed|Unzip failed with exit code: -2"));
    assert_eq!(s.log.as_deref(), Some("\n\n[ERROR] Unzip failed with exit code: -2"));
    let s = upload_step(
        &ModType::Car,
        "i",
        "/z",
        &UploadStage::Unpacking,
        UploadEvent::UnzipFailed(ServerManagerError::SshError("closed".to_string())),
    );
    assert_eq!(s.status.as_deref(), Some("failed|Unzip command failed: SSH Error: closed"));
    assert_eq!(s.log.as_deref(), Some("\n\n[ERROR] Unzip command failed: SSH Error: closed"));
    let s = upload_step(&ModType::Car, "i", "/z", &UploadStage::Unpacking, UploadEvent::UnzipAborted("boom".to_string()));
    assert_eq!(s.status.as_deref(), Some("failed|Unzip task panicked: boom"));
    assert!(s.log.is_none());
}

#[test]
fn connection_and_read_failures_end_the_upload() {
    let s = upload_step(
        &ModType::Car,
        "i",
        "/z",
        &UploadStage::Connecting,
        UploadEvent::ConnectFailed(ServerManagerError::SetupError("refused".to_string())),
    );
    assert_eq!(s.status.as_deref(), Some("failed|SSH connection failed: Server Setup Error: refused"));
    let s = upload_step(&ModType::Car, "i", "/z", &UploadStage::Reading, UploadEvent::ReadFailed("No such file".to_string()));
    assert_eq!(s.status.as_deref(), Some("failed|Could not read local file: No such file"));
    let s = upload_step(
        &ModType::Car,
        "i",
        "/z",
        &UploadStage::Uploading,
        UploadEvent::UploadFailed(ServerManagerError::IoError("disk full".to_string())),
    );
    assert_eq!(s.status.as_deref(), Some("failed|Upload failed: IO Error: disk full"));
}

#[test]
fn finished_upload_ignores_events() {
    let s = upload_step(&ModType::Car, "i", "/z", &UploadStage::Finished, UploadEvent::Connected);
    assert!(matches!(s.stage, UploadStage::Finished));
    assert!(matches!(s.action, UploadAction::Nothing));
    assert!(s.status.is_none());
}

// ---------------------------------------------------------------- transfer

#[test]
fn archive_paths_and_commands() {
    assert_eq!(remote_zip_path("abc"), "/tmp/abc.zip");
    assert_eq!(mod_target_dir("i", &ModType::Car), "$HOME/ac-manager/instances/i/ac_files/content/cars");
    assert_eq!(
        mod_check_command(&ModType::Car, "/tmp/a.zip"),
        "unzip -Z1 '/tmp/a.zip' 2>/dev/null | grep -c -E '(^|/)ui_car\\.json$|\\.acd$'"
    );
    assert_eq!(
        mod_check_command(&ModType::Track, "/tmp/it's.zip"),
        "unzip -Z1 '/tmp/it'\\''s.zip' 2>/dev/null | grep -c -E '(^|/)ui_track\\.json$'"
    );
}

#[test]
fn unpacked_archive_needs_content_files() {
    assert!(validate_mod_contents(" 3\n").is_ok());
    match validate_mod_contents("0") {
        Err(ServerManagerError::ValidationError(m)) => assert_eq!(
            m,
            "Uploaded mod does not contain valid ui_car.json/ui_track.json or .acd files. Directory structure might be incorrect."
        ),
        _ => panic!("expected a validation error"),
    }
    assert!(validate_mod_contents("wc: error").is_err());
    assert!(validate_mod_contents("").is_err());
}

#[test]
fn config_path_uses_trimmed_home() {
    assert_eq!(
        config_path("/home/u\n", "i", "server_cfg.ini"),
        "/home/u/ac-manager/instances/i/ac_files/cfg/server_cfg.ini"
    );
}

#[test]
fn move_and_delete_commands_quote_paths() {
    assert_eq!(upload_tmp_path("x"), "/tmp/x.tmp");
    assert_eq!(move_upload_command("/tmp/x.tmp", "/a \"b\""), "sudo mv /tmp/x.tmp \"/a \\\"b\\\"\"");
    assert_eq!(delete_directory_command("/d\"x"), "sudo rm -rf \"/d\\\"x\"");
    assert!(move_upload_result("", 0).is_ok());
    assert_eq!(setup_message(move_upload_result("denied", 1).err().unwrap()), "Failed to move uploaded file: denied");
    assert!(delete_directory_result("", 0).is_ok());
    assert_eq!(setup_message(delete_directory_result("busy", 2).err().unwrap()), "Failed to delete directory: busy");
}

#[test]
fn streamed_command_escapes_quotes() {
    assert_eq!(
        stream_command("echo 'hi'"),
        "stdbuf -oL -eL bash -c 'echo '\\''hi'\\'' 2>&1' || bash -c 'echo '\\''hi'\\'' 2>&1'"
    );
    assert_eq!(ssh_address("host", 22), "host:22");
    assert_eq!(ssh_key_file("/keys/id"), "/keys/id");
    assert_eq!(ssh_key_file("~other/id"), "~other/id");
}

#[test]
fn key_file_in_home_is_expanded() {
    let k = ssh_key_file("~/.ssh/id_ed25519");
    assert!(!k.starts_with('~'));
    assert!(k.ends_with("/.ssh/id_ed25519"));
}

// ---------------------------------------------------------------- docker

#[test]
fn profile_ids_must_be_plain() {
    assert!(validate_profile_id("abc-1_X").is_ok());
    for bad in ["", "a b", "../x", "é"] {
        match validate_profile_id(bad) {
            Err(ServerManagerError::ValidationError(m)) => {
                assert_eq!(m, "Invalid profile ID: must be alphanumeric, hyphen, or underscore")
            }
            _ => panic!("expected a validation error"),
        }
    }
}

#[test]
fn docker_names_and_homes() {
    assert_eq!(docker_address("u", "h"), "ssh://u@h");
    assert_eq!(container_name("p"), "ac-server-p");
    assert_eq!(home_dir("root"), "/root");
    assert_eq!(home_dir("bob"), "/home/bob");
    let spec = server_container_spec("p", "bob");
    assert_eq!(spec.image, "ubuntu:20.04");
    assert_eq!(spec.cmd, vec!["./acServer".to_string()]);
    assert_eq!(spec.working_dir.as_deref(), Some("/data"));
    assert_eq!(spec.binds, vec!["/home/bob/ac-manager/instances/p/ac_files:/data".to_string()]);
    assert_eq!(spec.network_mode.as_deref(), Some("host"));
}

#[test]
fn steamcmd_container_logs_in_through_environment() {
    let spec = build_steamcmd_config("/srv/ac", "user", "pw");
    assert_eq!(spec.image, "steamcmd/steamcmd:latest");
    assert_eq!(spec.env, Some(vec!["STEAM_USERNAME=user".to_string(), "STEAM_PASSWORD=pw".to_string()]));
    assert_eq!(spec.entrypoint, Some(vec!["/bin/sh".to_string(), "-c".to_string()]));
    assert_eq!(spec.binds, vec!["/srv/ac:/data".to_string()]);
    assert_eq!(
        spec.cmd,
        vec!["steamcmd +force_install_dir /data +login \"$STEAM_USERNAME\" \"$STEAM_PASSWORD\" +app_update 302550 validate +quit".to_string()]
    );
}

#[test]
fn exit_codes_and_failures() {
    assert!(container_exit_result(0).is_ok());
    assert_eq!(setup_message(container_exit_result(3).err().unwrap()), "Container failed with exit code: 3");
    assert_eq!(
        setup_message(container_exit_result(i64::MIN).err().unwrap()),
        "Container failed with exit code: -9223372036854775808"
    );
    assert_eq!(setup_message(docker_failure(&DockerOp::Stop, "gone")), "Failed to stop container: gone");
    assert_eq!(setup_message(docker_failure(&DockerOp::Connect, "x")), "Bollard connection failed: x");
}

#[test]
fn missing_container_is_pulled_created_and_started() {
    let (stage, action) = create_or_start_step("p", "root", StartStage::Inspecting, StartEvent::Inspected(false));
    assert!(matches!(stage, StartStage::Pulling));
    match action {
        StartAction::Pull(image) => assert_eq!(image, "ubuntu:20.04"),
        _ => panic!("expected a pull"),
    }
    let (stage, action) = create_or_start_step("p", "root", stage, StartEvent::Pulled);
    match action {
        StartAction::Create(name, spec) => {
            assert_eq!(name, "ac-server-p");
            assert_eq!(spec.binds, vec!["/root/ac-manager/instances/p/ac_files:/data".to_string()]);
        }
        _ => panic!("expected a create"),
    }
    let (stage, action) = create_or_start_step("p", "root", stage, StartEvent::Created);
    assert!(matches!(action, StartAction::Start(ref n) if n == "ac-server-p"));
    let (stage, action) = create_or_start_step("p", "root", stage, StartEvent::Started);
    assert!(matches!(stage, StartStage::Done));
    assert!(matches!(action, StartAction::Finish(Ok(()))));
}

#[test]
fn existing_container_is_only_started() {
    let (_, action) = create_or_start_step("p", "u", StartStage::Inspecting, StartEvent::Inspected(true));
    assert!(matches!(action, StartAction::Start(ref n) if n == "ac-server-p"));
    let (_, action) = create_or_start_step("p", "u", StartStage::Pulling, StartEvent::PullFailed("no net".to_string()));
    match action {
        StartAction::Finish(Err(e)) => assert_eq!(setup_message(e), "Failed to pull ubuntu:20.04 image: no net"),
        _ => panic!("expected a failure"),
    }
}

#[test]
fn steamcmd_installation_sequence() {
    let (stage, action, log) = steamcmd_step("p", "/d", "u", "pw", SteamcmdStage::Begin, SteamcmdEvent::Go);
    assert_eq!(log.as_deref(), Some("Connecting to docker daemon via ssh...\nCleaning up old container...\n"));
    assert!(matches!(action, SteamcmdAction::Remove(ref n) if n == "steamcmd-p"));
    let (stage, action, log) = steamcmd_step("p", "/d", "u", "pw", stage, SteamcmdEvent::Removed);
    assert_eq!(log.as_deref(), Some("Creating SteamCMD container...\n"));
    assert!(matches!(action, SteamcmdAction::Create(ref n, _) if n == "steamcmd-p"));
    let (stage, _, _) = steamcmd_step("p", "/d", "u", "pw", stage, SteamcmdEvent::Created);
    let (stage, action, log) = steamcmd_step("p", "/d", "u", "pw", stage, SteamcmdEvent::AttachFailed("eof".to_string()));
    assert_eq!(log.as_deref(), Some("Starting container...\n"));
    assert!(matches!(action, SteamcmdAction::Start(_)));
    let (stage, action, log) = steamcmd_step("p", "/d", "u", "pw", stage, SteamcmdEvent::Started);
    assert_eq!(log.as_deref(), Some("WARNING: Failed to attach to container for logs: eof\n"));
    assert!(matches!(action, SteamcmdAction::Wait(_)));
    let (stage, action, _) = steamcmd_step("p", "/d", "u", "pw", stage, SteamcmdEvent::Exited(0));
    assert!(matches!(action, SteamcmdAction::Nothing));
    let (stage, action, log) = steamcmd_step("p", "/d", "u", "pw", stage, SteamcmdEvent::WaitEnded);
    assert_eq!(log.as_deref(), Some("SteamCMD installation finished. Cleaning up...\nCleaning up old container...\n"));
    assert!(matches!(action, SteamcmdAction::Remove(_)));
    let (stage, action, _) = steamcmd_step("p", "/d", "u", "pw", stage, SteamcmdEvent::Removed);
    assert!(matches!(stage, SteamcmdStage::Done));
    assert!(matches!(action, SteamcmdAction::Finish(Ok(()))));
}

#[test]
fn steamcmd_failing_container_ends_installation() {
    let (stage, action, _) = steamcmd_step("p", "/d", "u", "pw", SteamcmdStage::Waiting, SteamcmdEvent::Exited(8));
    assert!(matches!(stage, SteamcmdStage::Done));
    match action {
        SteamcmdAction::Finish(Err(e)) => assert_eq!(setup_message(e), "Container failed with exit code: 8"),
        _ => panic!("expected a failure"),
    }
}

// ---------------------------------------------------------------- setup

#[test]
fn instance_folders_and_first_config() {
    assert_eq!(instance_dir("bob", "i1"), "/home/bob/ac-manager/instances/i1");
    assert_eq!(ac_files_dir("bob", "i1"), "/home/bob/ac-manager/instances/i1/ac_files");
    let c = default_instance_config("i1", "My server");
    assert_eq!((c.server_port_tcp, c.server_port_udp, c.http_port), (9600, 9600, 8081));
    assert_eq!(c.instance_name, "My server");
    assert!(c.ac_branch.is_none());
}

#[test]
fn heredoc_commands_write_files() {
    assert_eq!(
        compose_upload_command("/i", "a: 1"),
        "mkdir -p /i && cat > /i/docker-compose.yml << 'EOF'\na: 1\nEOF"
    );
    assert_eq!(config_upload_command("/i", "{}"), "cat > /i/.manager_config.json << 'EOF'\n{}\nEOF");
}

#[test]
fn installation_log_lines() {
    assert_eq!(install_note(&InstallNote::Done), "__DONE__");
    assert_eq!(install_note(&InstallNote::SteamcmdStarting), "Starting SteamCMD installation via Docker...\n");
    assert_eq!(
        install_failure_log(&InstallFailure::DockerConnection, &ServerManagerError::SetupError("x".to_string())),
        "Docker connection failed: Server Setup Error: x\n__FAILED__"
    );
}

#[test]
fn installing_stops_at_the_first_failed_command() {
    let dep = |n: &str| MissingDependency { name: n.to_string(), cmd: format!("install {}", n) };
    let cmds = vec![dep("docker"), dep("curl")];
    assert!(matches!(install_dependencies(&vec![], &vec![]), InstallStep::Done(Ok(()))));
    assert!(matches!(install_dependencies(&cmds, &vec![]), InstallStep::Run(0)));
    assert!(matches!(install_dependencies(&cmds, &vec![Some(0)]), InstallStep::Run(1)));
    assert!(matches!(install_dependencies(&cmds, &vec![Some(0), Some(0)]), InstallStep::Done(Ok(()))));
    for failed in [vec![Some(1)], vec![None], vec![Some(0), Some(127)]] {
        match install_dependencies(&cmds, &failed) {
            InstallStep::Done(Err(ServerManagerError::SetupError(m))) => assert_eq!(m, "Dependency installation failed"),
            _ => panic!("expected a setup error"),
        }
    }
}

#[test]
fn server_restarts_only_after_both_configs_are_saved() {
    let err = || Err(ServerManagerError::SshError("x".to_string()));
    assert!(ServerManager::restart_after_save(&Ok(()), &Ok(())));
    assert!(!ServerManager::restart_after_save(&err(), &Ok(())));
    assert!(!ServerManager::restart_after_save(&Ok(()), &err()));
    assert!(!ServerManager::restart_after_save(&err(), &err()));
}
