//! The shell commands that the manager runs on a remote host.
use vstd::prelude::*;

pub mod linux;

verus! {

/// A command that the manager runs on a remote host.
pub enum CommandType {
    GetCpuStats,
    GetMemStats,
    GetNetStats,
    GetDiskStats,
    GetGpuStats,
    GetDiskUsage,
    GetIpv4,
    GetIpv6,
    GetThermalStats,
    GetAcPlayers(String),
    GetAcServerInfo(String),
    Reboot,
    Shutdown,
    TailLog { file_path: String, lines: u32 },
    UnzipTrack { remote_zip: String, target_dir: String },
    GetFreeSpace { target_dir: String },
}

/// The command lines of a family of hosts.
pub trait CommandProvider {
    /// The command line that performs `cmd_type`.
    spec fn command_line(&self, cmd_type: CommandType) -> Seq<char>;

    /// The command line that performs `cmd_type`.
    fn get_command(&self, cmd_type: CommandType) -> (r: String)
        ensures
            r@ == self.command_line(cmd_type),
    ;
}

/// The command provider for a host of family `os`; every family is
/// served by the Linux commands.
pub fn get_controller(os: &str) -> (r: linux::LinuxCommandProvider)
    ensures
        r == (linux::LinuxCommandProvider {}),
{
    linux::LinuxCommandProvider {}
}

} // verus!
