//! The command lines of a Linux host.
use vstd::prelude::*;
use crate::decimal::{decimal, fmt_decimal};
use crate::text::{append_chars, append_str, lemma_replace_char, replace, replace_chars, str_chars};
use crate::utils::commands::{CommandProvider, CommandType};

verus! {

/// The commands of a Linux host.
pub struct LinuxCommandProvider;

/// `s` made safe inside single quotes: each `'` becomes `'\''`.
pub open spec fn quote_escaped(s: Seq<char>) -> Seq<char> {
    replace(s, "'"@, "'\\''"@)
}

/// `s` made safe inside double quotes: each `"` becomes `\"`.
pub open spec fn dquote_escaped(s: Seq<char>) -> Seq<char> {
    replace(s, "\""@, "\\\""@)
}

/// `s` made safe inside single quotes.
pub fn escape_single_quotes(s: &str) -> (r: Vec<char>)
    ensures
        r@ == quote_escaped(s@),
{
    let v = str_chars(s);
    let from = str_chars("'");
    let to = str_chars("'\\''");
    proof {
        reveal_strlit("'");
    }
    replace_chars(v.as_slice(), from.as_slice(), to.as_slice())
}

/// `s` made safe inside double quotes.
pub fn escape_double_quotes(s: &str) -> (r: Vec<char>)
    ensures
        r@ == dquote_escaped(s@),
{
    let v = str_chars(s);
    let from = str_chars("\"");
    let to = str_chars("\\\"");
    proof {
        reveal_strlit("\"");
    }
    replace_chars(v.as_slice(), from.as_slice(), to.as_slice())
}

/// The command that asks the AC server of instance `profile_id` for its
/// players' report (`[]` where it has no HTTP port or does not answer).
pub open spec fn ac_players_command(profile_id: Seq<char>) -> Seq<char> {
    "PORT=$(grep -i '^HTTP_PORT' $HOME/ac-manager/instances/'"@ + quote_escaped(profile_id)
        + "'/ac_files/cfg/server_cfg.ini 2>/dev/null | cut -d'=' -f2 | tr -d ' \r\n'); if [ -n \"$PORT\" ]; then curl -s --max-time 1 \"http://127.0.0.1:$PORT/JSON|\" || echo \"[]\"; else echo \"[]\"; fi"@
}

/// The command that reports the state of instance `profile_id`: whether
/// it is installed and running, and its TCP and HTTP ports.
pub open spec fn ac_server_info_command(profile_id: Seq<char>) -> Seq<char> {
    let id = quote_escaped(profile_id);
    "if [ ! -d \"$HOME/ac-manager/instances/"@ + id
        + "/ac_files\" ]; then STATUS=\"UNINSTALLED\"; else if [ -n \"$(docker ps -q -f name=ac-server-"@
        + id
        + " 2>/dev/null)\" ]; then STATUS=\"ON\"; else STATUS=\"OFF\"; fi; fi; TCP_PORT=$(grep -i '^TCP_PORT' $HOME/ac-manager/instances/"@
        + id
        + "/ac_files/cfg/server_cfg.ini 2>/dev/null | cut -d'=' -f2 | tr -d ' \r\n'); HTTP_PORT=$(grep -i '^HTTP_PORT' $HOME/ac-manager/instances/"@
        + id
        + "/ac_files/cfg/server_cfg.ini 2>/dev/null | cut -d'=' -f2 | tr -d ' \r\n'); echo \"STATUS:$STATUS\"; echo \"TCP_PORT:$TCP_PORT\"; echo \"HTTP_PORT:$HTTP_PORT\";"@
}

/// Quoting for single quotes keeps a text without `'` as it is, and
/// turns each `'` into `'\''` (close the quotes, an escaped quote, open
/// them again) while keeping the text around it.
pub proof fn lemma_quote_escaped(a: Seq<char>, b: Seq<char>)
    requires
        forall|i: int| 0 <= i < a.len() ==> a[i] != '\'',
    ensures
        quote_escaped(a) == a,
        quote_escaped(a + seq!['\''] + b) == a + seq!['\'', '\\', '\'', '\''] + quote_escaped(b),
{
    reveal_strlit("'");
    reveal_strlit("'\\''");
    assert("'"@ =~= seq!['\'']);
    assert("'\\''"@ =~= seq!['\'', '\\', '\'', '\'']);
    lemma_replace_char(a, '\'', b, "'\\''"@);
}

/// Quoting for double quotes keeps a text without `"` as it is, and
/// turns each `"` into `\"` while keeping the text around it.
pub proof fn lemma_dquote_escaped(a: Seq<char>, b: Seq<char>)
    requires
        forall|i: int| 0 <= i < a.len() ==> a[i] != '"',
    ensures
        dquote_escaped(a) == a,
        dquote_escaped(a + seq!['"'] + b) == a + seq!['\\', '"'] + dquote_escaped(b),
{
    reveal_strlit("\"");
    reveal_strlit("\\\"");
    assert("\""@ =~= seq!['"']);
    assert("\\\""@ =~= seq!['\\', '"']);
    lemma_replace_char(a, '"', b, "\\\""@);
}

/// The server-state command of instance `profile_id` sets `STATUS` to
/// `UNINSTALLED` where the instance has no `ac_files` folder, and
/// otherwise tests whether `docker ps` lists the container
/// `ac-server-<id>`: `ON` where it does, `OFF` where it does not; it
/// ends by printing the `STATUS:`, `TCP_PORT:` and `HTTP_PORT:` lines.
pub proof fn lemma_server_info_status(profile_id: String)
    ensures
        exists|post: Seq<char>|
            linux_command(CommandType::GetAcServerInfo(profile_id)) == "if [ ! -d \"$HOME/ac-manager/instances/"@
                + quote_escaped(profile_id@)
                + "/ac_files\" ]; then STATUS=\"UNINSTALLED\"; else if [ -n \"$(docker ps -q -f name=ac-server-"@
                + quote_escaped(profile_id@)
                + " 2>/dev/null)\" ]; then STATUS=\"ON\"; else STATUS=\"OFF\"; fi"@ + post,
        exists|pre: Seq<char>|
            linux_command(CommandType::GetAcServerInfo(profile_id)) == pre
                + "echo \"STATUS:$STATUS\"; echo \"TCP_PORT:$TCP_PORT\"; echo \"HTTP_PORT:$HTTP_PORT\";"@,
{
    let tail = " 2>/dev/null)\" ]; then STATUS=\"ON\"; else STATUS=\"OFF\"; fi; fi; TCP_PORT=$(grep -i '^TCP_PORT' $HOME/ac-manager/instances/"@;
    let status = " 2>/dev/null)\" ]; then STATUS=\"ON\"; else STATUS=\"OFF\"; fi"@;
    reveal_strlit(" 2>/dev/null)\" ]; then STATUS=\"ON\"; else STATUS=\"OFF\"; fi; fi; TCP_PORT=$(grep -i '^TCP_PORT' $HOME/ac-manager/instances/");
    reveal_strlit(" 2>/dev/null)\" ]; then STATUS=\"ON\"; else STATUS=\"OFF\"; fi");
    assert(tail.take(status.len() as int) =~= status);
    let id = quote_escaped(profile_id@);
    let head = "if [ ! -d \"$HOME/ac-manager/instances/"@ + id
        + "/ac_files\" ]; then STATUS=\"UNINSTALLED\"; else if [ -n \"$(docker ps -q -f name=ac-server-"@ + id;
    let full = linux_command(CommandType::GetAcServerInfo(profile_id));
    let post = full.skip((head + status).len() as int);
    assert(full =~= head + status + post);
    let last = "/ac_files/cfg/server_cfg.ini 2>/dev/null | cut -d'=' -f2 | tr -d ' \r\n'); echo \"STATUS:$STATUS\"; echo \"TCP_PORT:$TCP_PORT\"; echo \"HTTP_PORT:$HTTP_PORT\";"@;
    let echoes = "echo \"STATUS:$STATUS\"; echo \"TCP_PORT:$TCP_PORT\"; echo \"HTTP_PORT:$HTTP_PORT\";"@;
    reveal_strlit("/ac_files/cfg/server_cfg.ini 2>/dev/null | cut -d'=' -f2 | tr -d ' \r\n'); echo \"STATUS:$STATUS\"; echo \"TCP_PORT:$TCP_PORT\"; echo \"HTTP_PORT:$HTTP_PORT\";");
    reveal_strlit("echo \"STATUS:$STATUS\"; echo \"TCP_PORT:$TCP_PORT\"; echo \"HTTP_PORT:$HTTP_PORT\";");
    assert(last.skip(last.len() - echoes.len()) =~= echoes);
    let pre = full.take(full.len() - echoes.len());
    assert(full =~= pre + echoes);
}

/// The command line of `cmd` on a Linux host.
pub open spec fn linux_command(cmd: CommandType) -> Seq<char> {
    match cmd {
        CommandType::GetCpuStats => "cat /proc/stat"@,
        CommandType::GetMemStats => "cat /proc/meminfo"@,
        CommandType::GetNetStats => "cat /proc/net/dev"@,
        CommandType::GetDiskStats => "cat /proc/diskstats"@,
        CommandType::GetGpuStats => "if command -v nvidia-smi &> /dev/null; then nvidia-smi --query-gpu=utilization.gpu,temperature.gpu --format=csv,noheader,nounits 2>/dev/null || echo \"NO_GPU\"; else echo \"NO_GPU\"; fi"@,
        CommandType::GetDiskUsage => "df -B1 --output=target,used,size | tail -n +2"@,
        CommandType::GetIpv4 => "ip -4 addr show | grep inet | grep -v 127.0.0.1 | awk '{print $2}' | cut -d/ -f1 | head -n1"@,
        CommandType::GetIpv6 => "ip -6 addr show | grep inet6 | grep -v ::1 | awk '{print $2}' | cut -d/ -f1 | head -n1"@,
        CommandType::GetThermalStats => "if [ -d /sys/class/thermal ]; then for d in /sys/class/thermal/thermal_zone*; do type=$(cat $d/type); temp=$(cat $d/temp); echo \"$type: $temp\"; done; fi"@,
        CommandType::GetAcPlayers(profile_id) => ac_players_command(profile_id@),
        CommandType::GetAcServerInfo(profile_id) => ac_server_info_command(profile_id@),
        CommandType::Reboot => "sudo reboot"@,
        CommandType::Shutdown => "sudo shutdown -h now"@,
        CommandType::TailLog { file_path, lines } => "tail -n "@ + decimal(lines as nat) + " -f "@
            + quote_escaped(file_path@),
        CommandType::UnzipTrack { remote_zip, target_dir } => {
            let zip = quote_escaped(remote_zip@);
            "unzip -o '"@ + zip + "' -d \""@ + dquote_escaped(target_dir@) + "\" 2>&1 && rm '"@
                + zip + "'"@
        },
        CommandType::GetFreeSpace { target_dir } => "df -B1 \""@ + dquote_escaped(target_dir@)
            + "\" | tail -n 1 | awk '{print $4}'"@,
    }
}

fn text(s: &str) -> (r: String)
    ensures
        r@ == s@,
{
    let mut r = String::new();
    append_str(&mut r, s);
    r
}

impl CommandProvider for LinuxCommandProvider {
    open spec fn command_line(&self, cmd_type: CommandType) -> Seq<char> {
        linux_command(cmd_type)
    }

    fn get_command(&self, cmd_type: CommandType) -> (r: String) {
        match cmd_type {
            CommandType::GetCpuStats => text("cat /proc/stat"),
            CommandType::GetMemStats => text("cat /proc/meminfo"),
            CommandType::GetNetStats => text("cat /proc/net/dev"),
            CommandType::GetDiskStats => text("cat /proc/diskstats"),
            CommandType::GetGpuStats => text(
                "if command -v nvidia-smi &> /dev/null; then nvidia-smi --query-gpu=utilization.gpu,temperature.gpu --format=csv,noheader,nounits 2>/dev/null || echo \"NO_GPU\"; else echo \"NO_GPU\"; fi",
            ),
            CommandType::GetDiskUsage => text("df -B1 --output=target,used,size | tail -n +2"),
            CommandType::GetIpv4 => text(
                "ip -4 addr show | grep inet | grep -v 127.0.0.1 | awk '{print $2}' | cut -d/ -f1 | head -n1",
            ),
            CommandType::GetIpv6 => text(
                "ip -6 addr show | grep inet6 | grep -v ::1 | awk '{print $2}' | cut -d/ -f1 | head -n1",
            ),
            CommandType::GetThermalStats => text(
                "if [ -d /sys/class/thermal ]; then for d in /sys/class/thermal/thermal_zone*; do type=$(cat $d/type); temp=$(cat $d/temp); echo \"$type: $temp\"; done; fi",
            ),
            CommandType::GetAcPlayers(profile_id) => {
                let id = escape_single_quotes(profile_id.as_str());
                let mut r = text("PORT=$(grep -i '^HTTP_PORT' $HOME/ac-manager/instances/'");
                append_chars(&mut r, id.as_slice());
                append_str(
                    &mut r,
                    "'/ac_files/cfg/server_cfg.ini 2>/dev/null | cut -d'=' -f2 | tr -d ' \r\n'); if [ -n \"$PORT\" ]; then curl -s --max-time 1 \"http://127.0.0.1:$PORT/JSON|\" || echo \"[]\"; else echo \"[]\"; fi",
                );
                r
            },
            CommandType::GetAcServerInfo(profile_id) => {
                let id = escape_single_quotes(profile_id.as_str());
                let mut r = text("if [ ! -d \"$HOME/ac-manager/instances/");
                append_chars(&mut r, id.as_slice());
                append_str(
                    &mut r,
                    "/ac_files\" ]; then STATUS=\"UNINSTALLED\"; else if [ -n \"$(docker ps -q -f name=ac-server-",
                );
                append_chars(&mut r, id.as_slice());
                append_str(
                    &mut r,
                    " 2>/dev/null)\" ]; then STATUS=\"ON\"; else STATUS=\"OFF\"; fi; fi; TCP_PORT=$(grep -i '^TCP_PORT' $HOME/ac-manager/instances/",
                );
                append_chars(&mut r, id.as_slice());
                append_str(
                    &mut r,
                    "/ac_files/cfg/server_cfg.ini 2>/dev/null | cut -d'=' -f2 | tr -d ' \r\n'); HTTP_PORT=$(grep -i '^HTTP_PORT' $HOME/ac-manager/instances/",
                );
                append_chars(&mut r, id.as_slice());
                append_str(
                    &mut r,
                    "/ac_files/cfg/server_cfg.ini 2>/dev/null | cut -d'=' -f2 | tr -d ' \r\n'); echo \"STATUS:$STATUS\"; echo \"TCP_PORT:$TCP_PORT\"; echo \"HTTP_PORT:$HTTP_PORT\";",
                );
                r
            },
            CommandType::Reboot => text("sudo reboot"),
            CommandType::Shutdown => text("sudo shutdown -h now"),
            CommandType::TailLog { file_path, lines } => {
                let path = escape_single_quotes(file_path.as_str());
                let mut r = text("tail -n ");
                append_chars(&mut r, fmt_decimal(lines as u64).as_slice());
                append_str(&mut r, " -f ");
                append_chars(&mut r, path.as_slice());
                r
            },
            CommandType::UnzipTrack { remote_zip, target_dir } => {
                let zip = escape_single_quotes(remote_zip.as_str());
                let target = escape_double_quotes(target_dir.as_str());
                let mut r = text("unzip -o '");
                append_chars(&mut r, zip.as_slice());
                append_str(&mut r, "' -d \"");
                append_chars(&mut r, target.as_slice());
                append_str(&mut r, "\" 2>&1 && rm '");
                append_chars(&mut r, zip.as_slice());
                append_str(&mut r, "'");
                r
            },
            CommandType::GetFreeSpace { target_dir } => {
                let target = escape_double_quotes(target_dir.as_str());
                let mut r = text("df -B1 \"");
                append_chars(&mut r, target.as_slice());
                append_str(&mut r, "\" | tail -n 1 | awk '{print $4}'");
                r
            },
        }
    }
}

} // verus!
