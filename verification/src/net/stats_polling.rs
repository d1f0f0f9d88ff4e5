//! The statistics sampler: the script that it runs on a host each second,
//! and the decisions of its loop.
use vstd::prelude::*;
use crate::text::{join, join_chars, lines, str_chars, trim, views, lemma_views_push};
use crate::utils::stats_helpers::{
    disk_space_rows, disk_views, gpu_fields, mem_fold, reading_views, temperature_rows,
};
use crate::utils::commands::linux::{ac_players_command, ac_server_info_command, linux_command, LinuxCommandProvider};
use crate::utils::commands::{CommandProvider, CommandType};
use crate::net::stats::{
    cpu_table, info_fold, lemma_sections_of_join, net_iface, net_rows, disk_rows, plain_section,
    section_sep, sum_first, sum_second, zero_memory, RawStatsView,
    compute_host_stats, empty_raw_stats, host_readings_are, raw_stats_fit,
    raw_stats_of, try_parse_raw_stats_at, unique_names, HostReadings, RawStats,
};

verus! {

/// The sampler's commands, in the order of the sample's sections: CPU,
/// memory, network, disk activity, GPU, disk space, IPv4, IPv6,
/// temperatures, players and server state of instance `profile_id`.
pub open spec fn stats_commands(profile_id: Seq<char>) -> Seq<Seq<char>> {
    seq![
        linux_command(CommandType::GetCpuStats),
        linux_command(CommandType::GetMemStats),
        linux_command(CommandType::GetNetStats),
        linux_command(CommandType::GetDiskStats),
        linux_command(CommandType::GetGpuStats),
        linux_command(CommandType::GetDiskUsage),
        linux_command(CommandType::GetIpv4),
        linux_command(CommandType::GetIpv6),
        linux_command(CommandType::GetThermalStats),
        ac_players_command(profile_id),
        ac_server_info_command(profile_id),
    ]
}

/// The line that separates the sections of a sample.
pub open spec fn section_echo() -> Seq<char> {
    "\necho \"---\"\n"@
}

fn push_command(cmds: &mut Vec<Vec<char>>, t: CommandType)
    ensures
        views(final(cmds)@) == views(old(cmds)@).push(linux_command(t)),
{
    let s = LinuxCommandProvider.get_command(t);
    let v = str_chars(s.as_str());
    proof {
        lemma_views_push(cmds@, v);
    }
    cmds.push(v);
}

/// The sampler's script for instance `profile_id`: its commands with an
/// `echo "---"` between each two.
pub fn stats_script(profile_id: &str) -> (r: String)
    ensures
        r@ == join(stats_commands(profile_id@), section_echo()),
{
    let mut cmds: Vec<Vec<char>> = Vec::new();
    push_command(&mut cmds, CommandType::GetCpuStats);
    push_command(&mut cmds, CommandType::GetMemStats);
    push_command(&mut cmds, CommandType::GetNetStats);
    push_command(&mut cmds, CommandType::GetDiskStats);
    push_command(&mut cmds, CommandType::GetGpuStats);
    push_command(&mut cmds, CommandType::GetDiskUsage);
    push_command(&mut cmds, CommandType::GetIpv4);
    push_command(&mut cmds, CommandType::GetIpv6);
    push_command(&mut cmds, CommandType::GetThermalStats);
    let mut id = String::new();
    crate::text::append_str(&mut id, profile_id);
    push_command(&mut cmds, CommandType::GetAcPlayers(id));
    let mut id2 = String::new();
    crate::text::append_str(&mut id2, profile_id);
    push_command(&mut cmds, CommandType::GetAcServerInfo(id2));
    assert(views(cmds@) =~= stats_commands(profile_id@));
    let sep = str_chars("\necho \"---\"\n");
    let joined = join_chars(&cmds, sep.as_slice());
    crate::text::chars_to_string(joined.as_slice())
}

/// Where the sampler's loop stands.
pub enum PollStage {
    /// About to open an SSH session to the host.
    Connecting,
    /// Connected, about to run the script; `prev` is the last sample.
    Sampling { prev: RawStats },
    /// Published a reading, pausing before the next sample.
    Pausing { prev: RawStats },
    /// The session is over, waiting before connecting again.
    Resting,
}

/// What the last action came to.
pub enum PollEvent {
    /// The SSH session was opened.
    Connected,
    /// The SSH session could not be opened.
    ConnectFailed,
    /// The script ran and printed `output`; `now_ms` is the time of the
    /// reading in milliseconds since the Unix epoch, `None` where the
    /// clock stands before the epoch.
    Sample { output: String, now_ms: Option<u128> },
    /// No channel could be opened, or the script could not be started or
    /// its output read.
    SampleFailed,
    /// The pause asked for is over.
    Slept,
}

/// What the sampler does next.
pub enum PollAction {
    /// Open an SSH session to the host.
    Connect,
    /// Run the sampler's script on the open session.
    RunScript,
    /// Publish the readings, then pause for the given milliseconds.
    PublishAndSleep(HostReadings, u64),
    /// Pause for the given milliseconds.
    Sleep(u64),
    /// Nothing: the event does not belong to the stage.
    Idle,
}

/// Milliseconds between two samples of a connected host.
pub open spec fn sample_pause_ms() -> u64 {
    1000
}

/// Milliseconds before connecting again once a session is over.
pub open spec fn reconnect_pause_ms() -> u64 {
    5000
}

/// The last sample that the stage holds is one that readings can be
/// computed from: its CPU names are distinct.
pub open spec fn poll_stage_wf(stage: PollStage) -> bool {
    match stage {
        PollStage::Sampling { prev } => unique_names(prev@.cpu),
        PollStage::Pausing { prev } => unique_names(prev@.cpu),
        _ => true,
    }
}

/// The session ends and the sampler waits before connecting again.
pub open spec fn ends_session(next: PollStage, action: PollAction) -> bool {
    &&& next is Resting
    &&& action == PollAction::Sleep(reconnect_pause_ms())
}

/// The sampler's step from `stage` on `event` is to `next`, doing
/// `action`: on connecting, the previous sample starts empty and the
/// script runs; a sample whose counters fit is read at its time, its
/// readings against the previous sample are published and the sampler
/// pauses for a second; a failed connection, a failed run, a sample that
/// overflows or a clock before the epoch ends the session, and five
/// seconds later the sampler connects again; an event that does not
/// belong to the stage changes nothing.
pub open spec fn poll_step_is(stage: PollStage, event: PollEvent, next: PollStage, action: PollAction) -> bool {
    match stage {
        PollStage::Connecting => match event {
            PollEvent::Connected => {
                &&& (match next {
                    PollStage::Sampling { prev } => prev@ == empty_raw_stats(0),
                    _ => false,
                })
                &&& action is RunScript
            },
            PollEvent::ConnectFailed => ends_session(next, action),
            _ => next == stage && action is Idle,
        },
        PollStage::Sampling { prev } => match event {
            PollEvent::Sample { output, now_ms } => match now_ms {
                Some(ts) => if raw_stats_fit(output@) {
                    match next {
                        PollStage::Pausing { prev: current } => {
                            &&& current@ == raw_stats_of(output@, ts)
                            &&& match action {
                                PollAction::PublishAndSleep(readings, ms) => {
                                    &&& host_readings_are(readings, prev@, current@, output@)
                                    &&& ms == sample_pause_ms()
                                },
                                _ => false,
                            }
                        },
                        _ => false,
                    }
                } else {
                    ends_session(next, action)
                },
                None => ends_session(next, action),
            },
            PollEvent::SampleFailed => ends_session(next, action),
            _ => next == stage && action is Idle,
        },
        PollStage::Pausing { prev } => match event {
            PollEvent::Slept => next == PollStage::Sampling { prev } && action is RunScript,
            _ => next == stage && action is Idle,
        },
        PollStage::Resting => match event {
            PollEvent::Slept => next is Connecting && action is Connect,
            _ => next == stage && action is Idle,
        },
    }
}

/// One step of the sampler's loop: from `stage`, on `event`, the next
/// stage and what to do.
pub fn stats_poll_step(stage: PollStage, event: PollEvent) -> (r: (PollStage, PollAction))
    requires
        poll_stage_wf(stage),
    ensures
        poll_step_is(stage, event, r.0, r.1),
        poll_stage_wf(r.0),
{
    match stage {
        PollStage::Connecting => match event {
            PollEvent::Connected => {
                let prev = RawStats::default();
                (PollStage::Sampling { prev }, PollAction::RunScript)
            },
            PollEvent::ConnectFailed => (PollStage::Resting, PollAction::Sleep(5000)),
            _ => (PollStage::Connecting, PollAction::Idle),
        },
        PollStage::Sampling { prev } => match event {
            PollEvent::Sample { output, now_ms } => match now_ms {
                Some(ts) => match try_parse_raw_stats_at(output.as_str(), ts) {
                    Some(current) => {
                        let readings = compute_host_stats(&prev, &current, output.as_str());
                        (PollStage::Pausing { prev: current }, PollAction::PublishAndSleep(readings, 1000))
                    },
                    None => (PollStage::Resting, PollAction::Sleep(5000)),
                },
                None => (PollStage::Resting, PollAction::Sleep(5000)),
            },
            PollEvent::SampleFailed => (PollStage::Resting, PollAction::Sleep(5000)),
            _ => (PollStage::Sampling { prev }, PollAction::Idle),
        },
        PollStage::Pausing { prev } => match event {
            PollEvent::Slept => (PollStage::Sampling { prev }, PollAction::RunScript),
            _ => (PollStage::Pausing { prev }, PollAction::Idle),
        },
        PollStage::Resting => match event {
            PollEvent::Slept => (PollStage::Connecting, PollAction::Connect),
            _ => (PollStage::Resting, PollAction::Idle),
        },
    }
}

/// A sample made of what the sampler's commands printed, in the order of
/// its script and separated by `---`, is read section by section, each
/// figure from the output of the command that measures it: CPU times from
/// `/proc/stat`, memory from `/proc/meminfo`, network bytes and the
/// interface from `/proc/net/dev`, disk sectors from `/proc/diskstats`,
/// then the GPU, the disks, the two addresses, the temperatures, the
/// players and the server's state. This holds where no command's output
/// is empty, holds `---` or ends with `-`.
pub proof fn lemma_readings_follow_script(
    profile_id: Seq<char>,
    outs: Seq<Seq<char>>,
    r: HostReadings,
    prev: RawStatsView,
    ts: u128,
)
    requires
        outs.len() == stats_commands(profile_id).len(),
        forall|i: int| 0 <= i < outs.len() ==> plain_section(#[trigger] outs[i]),
        host_readings_are(r, prev, raw_stats_of(join(outs, section_sep()), ts), join(outs, section_sep())),
    ensures
        stats_commands(profile_id)[0] == linux_command(CommandType::GetCpuStats),
        stats_commands(profile_id)[1] == linux_command(CommandType::GetMemStats),
        stats_commands(profile_id)[2] == linux_command(CommandType::GetNetStats),
        stats_commands(profile_id)[3] == linux_command(CommandType::GetDiskStats),
        stats_commands(profile_id)[4] == linux_command(CommandType::GetGpuStats),
        stats_commands(profile_id)[5] == linux_command(CommandType::GetDiskUsage),
        stats_commands(profile_id)[6] == linux_command(CommandType::GetIpv4),
        stats_commands(profile_id)[7] == linux_command(CommandType::GetIpv6),
        stats_commands(profile_id)[8] == linux_command(CommandType::GetThermalStats),
        stats_commands(profile_id)[9] == ac_players_command(profile_id),
        stats_commands(profile_id)[10] == ac_server_info_command(profile_id),
        raw_stats_of(join(outs, section_sep()), ts).cpu == cpu_table(lines(outs[0])),
        r.memory == mem_fold(zero_memory(), lines(outs[1])),
        raw_stats_of(join(outs, section_sep()), ts).rx_bytes == sum_first(net_rows(lines(outs[2]))),
        raw_stats_of(join(outs, section_sep()), ts).tx_bytes == sum_second(net_rows(lines(outs[2]))),
        raw_stats_of(join(outs, section_sep()), ts).interface_name == net_iface(lines(outs[2])),
        r.transfer.interface_name@ == net_iface(lines(outs[2])),
        raw_stats_of(join(outs, section_sep()), ts).disk_read_sectors == sum_first(disk_rows(lines(outs[3]))),
        raw_stats_of(join(outs, section_sep()), ts).disk_write_sectors == sum_second(disk_rows(lines(outs[3]))),
        match r.gpu {
            Some((u, t)) => gpu_fields(outs[4]) == Some((u@, t@)),
            None => gpu_fields(outs[4]) is None,
        },
        disk_views(r.disks@) == disk_space_rows(lines(outs[5])),
        r.ipv4@ == trim(outs[6]),
        r.ipv6@ == trim(outs[7]),
        reading_views(r.temperatures@) == temperature_rows(lines(outs[8])),
        match r.players_json {
            Some(j) => j@ == trim(outs[9]) && j@.len() > 0,
            None => trim(outs[9]).len() == 0,
        },
        r.ac_server_status@ == info_fold(lines(outs[10])).status,
        r.ac_tcp_port@ == info_fold(lines(outs[10])).tcp_port,
        r.ac_http_port@ == info_fold(lines(outs[10])).http_port,
{
    lemma_sections_of_join(outs);
}

} // verus!
