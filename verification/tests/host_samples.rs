use ac_cloud_server_manager::net::stats::{compute_host_stats, parse_raw_stats, parse_raw_stats_at, try_parse_raw_stats_at, RawStats};
use ac_cloud_server_manager::net::stats_polling::{stats_poll_step, stats_script, PollAction, PollEvent, PollStage};
use ac_cloud_server_manager::utils::stats_helpers::{
    compute_cpu_usage, compute_network_and_disk, parse_ac_players, parse_cpu_temperatures,
    parse_disk_space, parse_gpu_stats, parse_memory_stats, AcPlayer, AcServerCar, AcServerResponse,
    DiskSpaceStat, MemoryStats,
};

const CPU: &str = "cpu  100 0 50 800 50 0 0 0\ncpu0 60 0 20 400 20 0 0 0\ncpu1 40 0 30 400 30 0 0 0\nintr 1 2 3\n";
const NET: &str = "Inter-|   Receive\n face |bytes\n    lo: 999 0 0 0 0 0 0 0 999 0 0 0 0 0 0 0\n  eth0: 1000 1 0 0 0 0 0 0 2000 1 0 0 0 0 0 0\n  eth1: 10 1 0 0 0 0 0 0 20 1 0 0 0 0 0 0\n";
const DISK: &str = "   8       0 sda 10 0 300 0 5 0 400 0 0 0 0\n   7       0 loop0 1 0 999 0 1 0 999 0 0 0 0\n   1       0 ram0 1 0 999 0 1 0 999 0 0 0 0\n";

fn sample(cpu: &str, net: &str, disk: &str) -> String {
    format!("{}---\nMemTotal: 2048000 kB\nMemAvailable: 1024000 kB\n---\n{}---\n{}---\n 35, 60 \n---\n/ 100 1000\ntmpfs 1 2\n---\n 10.0.0.2 \n---\n::2\n---\nCore 0: 41000\nacpitz: 30000\nPackage id 0: 45000\n---\n  \n---\nSTATUS:ON\nTCP_PORT: 9600\nHTTP_PORT:8081\n", cpu, net, disk)
}

#[test]
fn raw_sample_counts_cpus_network_and_disks() {
    let out = sample(CPU, NET, DISK);
    let raw = parse_raw_stats_at(&out, 5);
    assert_eq!(raw.timestamp_ms, 5);
    assert_eq!(raw.cpu.len(), 3);
    assert_eq!(raw.cpu[0].name, "cpu");
    assert_eq!((raw.cpu[0].idle, raw.cpu[0].total), (850, 1000));
    assert_eq!((raw.cpu[1].idle, raw.cpu[1].total), (420, 500));
    assert_eq!(raw.rx_bytes, 1010);
    assert_eq!(raw.tx_bytes, 2020);
    assert_eq!(raw.interface_name, "eth0");
    assert_eq!(raw.disk_read_sectors, 300);
    assert_eq!(raw.disk_write_sectors, 400);
}

#[test]
fn short_sample_gives_empty_counters() {
    let raw = parse_raw_stats_at("cpu 1 2 3 4\n---\n---\n", 9);
    assert!(raw.cpu.is_empty());
    assert_eq!(raw.rx_bytes, 0);
    assert_eq!(raw.timestamp_ms, 9);
    let now = parse_raw_stats("nothing").expect("the clock stands after the epoch");
    assert!(now.cpu.is_empty());
    assert!(now.timestamp_ms > 1_600_000_000_000);
}

#[test]
fn overflowing_sample_is_refused() {
    let net = "eth0: 18446744073709551615 0 0 0 0 0 0 0 1 0\neth1: 1 0 0 0 0 0 0 0 1 0\n";
    assert!(try_parse_raw_stats_at(&sample(CPU, net, DISK), 0).is_none());
    assert!(try_parse_raw_stats_at(&sample(CPU, NET, DISK), 0).is_some());
}

#[test]
fn memory_lines_set_the_figures() {
    let mut m = MemoryStats { ram_used_mb: 0, ram_total_mb: 0, ram_usage: None, swap_used_mb: 0, swap_total_mb: 0, swap_usage: None };
    parse_memory_stats(&mut m, "MemTotal: 2048000 kB\nMemFree: 512000 kB\nMemAvailable: 1024000 kB\nSwapTotal: 0 kB\nSwapFree: 0 kB\n");
    assert_eq!(m.ram_total_mb, 2000);
    assert_eq!(m.ram_used_mb, 1000);
    assert_eq!(m.ram_usage, Some((1000, 2000)));
    assert_eq!(m.swap_total_mb, 0);
    assert_eq!(m.swap_usage, None);
}

#[test]
fn temperature_lines_of_cores_and_packages() {
    let r = parse_cpu_temperatures("Core 0: 41000\nacpitz: 30000\nPACKAGE id 0: 45000\ncore: a: b\n");
    let got: Vec<(String, String)> = r.into_iter().map(|t| (t.name, t.value)).collect();
    assert_eq!(got, vec![("Core 0".to_string(), "41000".to_string()), ("PACKAGE id 0".to_string(), "45000".to_string())]);
}

#[test]
fn gpu_section() {
    assert_eq!(parse_gpu_stats(" 35, 60 \n"), Some(("35".to_string(), "60".to_string())));
    assert_eq!(parse_gpu_stats("NO_GPU\n"), None);
    assert_eq!(parse_gpu_stats("  "), None);
    assert_eq!(parse_gpu_stats("42"), None);
}

#[test]
fn disk_space_keeps_mounted_file_systems() {
    let mut disks: Vec<DiskSpaceStat> = Vec::new();
    parse_disk_space(&mut disks, "/ 100 1000\ntmpfs 1 2\n/boot 5 0\n/data x 50\n");
    assert_eq!(disks.len(), 2);
    assert_eq!((disks[0].mount_point.as_str(), disks[0].used_bytes, disks[0].total_bytes), ("/", 100, 1000));
    assert_eq!((disks[1].mount_point.as_str(), disks[1].used_bytes, disks[1].total_bytes), ("/data", 0, 50));
}

fn car(name: &str, model: &str, connected: bool) -> AcServerCar {
    AcServerCar {
        model: model.to_string(),
        skin: "red".to_string(),
        driver_name: name.to_string(),
        driver_team: String::new(),
        driver_nation: "ITA".to_string(),
        is_connected: connected,
        is_requested_guid: false,
        is_entry_list: true,
        driver_guid: Some("g".to_string()),
    }
}

#[test]
fn players_are_the_connected_slots() {
    let mut players: Vec<AcPlayer> = Vec::new();
    parse_ac_players(&mut players, AcServerResponse { cars: vec![car("Ann", "f40", true), car("Bob", "x", false), car("", "", true)] });
    assert_eq!(players.len(), 2);
    assert_eq!(players[0].name, "Ann");
    assert_eq!(players[0].car, "f40");
    assert_eq!(players[1].name, "Unknown");
    assert_eq!(players[1].car, "Unknown");
    assert_eq!(players[1].nation, "ITA");
}

#[test]
fn cpu_usage_between_samples() {
    let prev = parse_raw_stats_at(&sample(CPU, NET, DISK), 0);
    let cpu2 = "cpu  200 0 100 900 100 0 0 0\ncpu1 50 0 40 450 30 0 0 0\ncpu0 70 0 20 500 20 0 0 0\ncpu9 1 1 1 1\n";
    let cur = parse_raw_stats_at(&sample(cpu2, NET, DISK), 1000);
    let usage = compute_cpu_usage(&prev, &cur);
    assert_eq!(usage.total, Some((300, 150)));
    let cores: Vec<(String, u64, u64)> = usage.cores.into_iter().map(|c| (c.core_id, c.total_delta, c.idle_delta)).collect();
    assert_eq!(cores, vec![("cpu0".to_string(), 110, 100), ("cpu1".to_string(), 70, 50)]);
}

#[test]
fn transfer_counts_saturate() {
    let mut prev = RawStats::default();
    prev.rx_bytes = 100;
    prev.tx_bytes = 5;
    let mut cur = RawStats::default();
    cur.rx_bytes = 50;
    cur.tx_bytes = 25;
    cur.interface_name = "eth0".to_string();
    let t = compute_network_and_disk(&prev, &cur);
    assert_eq!(t.rx_bytes, 0);
    assert_eq!(t.tx_bytes, 20);
    assert_eq!(t.interface_name, "eth0");
}

#[test]
fn host_readings_of_a_full_sample() {
    let out = sample(CPU, NET, DISK);
    let prev = RawStats::default();
    let cur = parse_raw_stats_at(&out, 2000);
    let r = compute_host_stats(&prev, &cur, &out);
    assert_eq!(r.memory.ram_total_mb, 2000);
    assert_eq!(r.elapsed_ms, 2000);
    assert_eq!(r.gpu, Some(("35".to_string(), "60".to_string())));
    assert_eq!(r.disks.len(), 1);
    assert_eq!(r.ipv4, "10.0.0.2");
    assert_eq!(r.ipv6, "::2");
    assert_eq!(r.temperatures.len(), 2);
    assert!(r.players_json.is_none());
    assert_eq!(r.ac_server_status, "ON");
    assert_eq!(r.ac_tcp_port, "9600");
    assert_eq!(r.ac_http_port, "8081");
    assert_eq!(r.transfer.rx_bytes, 1010);
    assert_eq!(r.cpu.total, None);
}

#[test]
fn sampler_script_separates_sections() {
    let s = stats_script("inst");
    assert!(s.starts_with("cat /proc/stat\necho \"---\"\ncat /proc/meminfo\n"));
    assert_eq!(s.matches("echo \"---\"").count(), 10);
    assert!(s.ends_with("echo \"HTTP_PORT:$HTTP_PORT\";"));
}

fn sampled(output: String, now_ms: Option<u128>) -> PollEvent {
    PollEvent::Sample { output, now_ms }
}

#[test]
fn sampler_connects_samples_publishes_and_pauses() {
    let (stage, action) = stats_poll_step(PollStage::Connecting, PollEvent::Connected);
    assert!(matches!(action, PollAction::RunScript));
    match &stage {
        PollStage::Sampling { prev } => {
            assert!(prev.cpu.is_empty());
            assert_eq!(prev.timestamp_ms, 0);
        }
        _ => panic!("expected sampling"),
    }
    let (stage, action) = stats_poll_step(stage, sampled(sample(CPU, NET, DISK), Some(1500)));
    match &action {
        PollAction::PublishAndSleep(readings, ms) => {
            assert_eq!(*ms, 1000);
            assert_eq!(readings.elapsed_ms, 1500);
            assert_eq!(readings.transfer.rx_bytes, 1010);
            assert_eq!(readings.ac_tcp_port, "9600");
        }
        _ => panic!("expected a publication"),
    }
    match &stage {
        PollStage::Pausing { prev } => {
            assert_eq!(prev.timestamp_ms, 1500);
            assert_eq!(prev.rx_bytes, 1010);
        }
        _ => panic!("expected a pause"),
    }
    let (stage, action) = stats_poll_step(stage, PollEvent::Slept);
    assert!(matches!(action, PollAction::RunScript));
    let cpu2 = "cpu  200 0 50 900 50 0 0 0\ncpu0 110 0 20 450 20 0 0 0\ncpu1 90 0 30 450 30 0 0 0\n";
    let (_, action) = stats_poll_step(stage, sampled(sample(cpu2, NET, DISK), Some(2500)));
    match action {
        PollAction::PublishAndSleep(readings, _) => {
            assert_eq!(readings.elapsed_ms, 1000);
            assert_eq!(readings.transfer.rx_bytes, 0);
            assert_eq!(readings.cpu.total, Some((200, 100)));
        }
        _ => panic!("expected a publication"),
    }
}

#[test]
fn sampler_failures_end_the_session_for_five_seconds() {
    let (stage, action) = stats_poll_step(PollStage::Connecting, PollEvent::ConnectFailed);
    assert!(matches!(stage, PollStage::Resting));
    assert!(matches!(action, PollAction::Sleep(5000)));
    let (stage, action) = stats_poll_step(stage, PollEvent::Slept);
    assert!(matches!(stage, PollStage::Connecting));
    assert!(matches!(action, PollAction::Connect));
    let fresh = || PollStage::Sampling { prev: RawStats::default() };
    let (stage, action) = stats_poll_step(fresh(), PollEvent::SampleFailed);
    assert!(matches!(stage, PollStage::Resting) && matches!(action, PollAction::Sleep(5000)));
    let (stage, action) = stats_poll_step(fresh(), sampled(sample(CPU, NET, DISK), None));
    assert!(matches!(stage, PollStage::Resting) && matches!(action, PollAction::Sleep(5000)));
    let net = "eth0: 18446744073709551615 0 0 0 0 0 0 0 1 0\neth1: 1 0 0 0 0 0 0 0 1 0\n";
    let (stage, action) = stats_poll_step(fresh(), sampled(sample(CPU, net, DISK), Some(1)));
    assert!(matches!(stage, PollStage::Resting) && matches!(action, PollAction::Sleep(5000)));
    let (stage, action) = stats_poll_step(PollStage::Resting, PollEvent::Connected);
    assert!(matches!(stage, PollStage::Resting) && matches!(action, PollAction::Idle));
}

#[test]
fn sections_after_the_fourth_do_not_change_the_counters() {
    let base = format!("{}---\nMemTotal: 1 kB\n---\n{}---\n{}", CPU, NET, DISK);
    let a = parse_raw_stats_at(&base, 7);
    let b = parse_raw_stats_at(&format!("{}---eth9: 5 0 0 0 0 0 0 0 5 0\n---x", base), 7);
    assert_eq!(a.cpu.len(), b.cpu.len());
    for (x, y) in a.cpu.iter().zip(b.cpu.iter()) {
        assert_eq!((&x.name, x.idle, x.total), (&y.name, y.idle, y.total));
    }
    assert_eq!((a.rx_bytes, a.tx_bytes), (b.rx_bytes, b.tx_bytes));
    assert_eq!((a.disk_read_sectors, a.disk_write_sectors), (b.disk_read_sectors, b.disk_write_sectors));
    assert_eq!(a.interface_name, b.interface_name);
    assert_eq!(a.rx_bytes, 1010);
}
