//! Installing the server on a host: the folders of an instance, its
//! first configuration, the commands that write its files, and the lines
//! that the installation log shows.
use vstd::prelude::*;
use crate::manager::config::ServerInstanceConfig;
use crate::manager::error::{error_message, ServerManagerError};
use crate::text::append_str;

verus! {

/// The folder of instance `id` of the user `username`.
pub open spec fn instance_folder(username: Seq<char>, id: Seq<char>) -> Seq<char> {
    "/home/"@ + username + "/ac-manager/instances/"@ + id
}

/// The folder of instance `id` of the user `username`.
pub fn instance_dir(username: &str, id: &str) -> (r: String)
    ensures
        r@ == instance_folder(username@, id@),
{
    let mut s = String::new();
    append_str(&mut s, "/home/");
    append_str(&mut s, username);
    append_str(&mut s, "/ac-manager/instances/");
    append_str(&mut s, id);
    s
}

/// The folder of the server files of instance `id`.
pub fn ac_files_dir(username: &str, id: &str) -> (r: String)
    ensures
        r@ == instance_folder(username@, id@) + "/ac_files"@,
{
    let mut s = instance_dir(username, id);
    append_str(&mut s, "/ac_files");
    s
}

/// The configuration of a new instance `instance_id` named
/// `instance_name`: game port 9600 (TCP and UDP), HTTP port 8081, no
/// Steam account and no branch.
pub fn default_instance_config(instance_id: &str, instance_name: &str) -> (r: ServerInstanceConfig)
    ensures
        r.instance_id@ == instance_id@,
        r.instance_name@ == instance_name@,
        r.steam_username@ == Seq::<char>::empty(),
        r.steam_password@ == Seq::<char>::empty(),
        r.server_port_tcp == 9600,
        r.server_port_udp == 9600,
        r.http_port == 8081,
        r.ac_branch is None,
{
    let mut id = String::new();
    append_str(&mut id, instance_id);
    let mut name = String::new();
    append_str(&mut name, instance_name);
    ServerInstanceConfig {
        instance_id: id,
        instance_name: name,
        steam_username: String::new(),
        steam_password: String::new(),
        server_port_tcp: 9600,
        server_port_udp: 9600,
        http_port: 8081,
        ac_branch: None,
    }
}

/// The command that creates `dir` and writes `content` to the file
/// `name` in it, through a here-document.
pub open spec fn heredoc_write(dir: Seq<char>, name: Seq<char>, content: Seq<char>) -> Seq<char> {
    "cat > "@ + dir + "/"@ + name + " << 'EOF'\n"@ + content + "\nEOF"@
}

/// The command that creates the instance folder `instance_dir` and
/// writes the Docker Compose file `compose` into it.
pub fn compose_upload_command(instance_dir: &str, compose: &str) -> (r: String)
    ensures
        r@ == "mkdir -p "@ + instance_dir@ + " && "@ + heredoc_write(
            instance_dir@,
            "docker-compose.yml"@,
            compose@,
        ),
{
    let mut s = String::new();
    append_str(&mut s, "mkdir -p ");
    append_str(&mut s, instance_dir);
    append_str(&mut s, " && cat > ");
    append_str(&mut s, instance_dir);
    append_str(&mut s, "/docker-compose.yml << 'EOF'\n");
    append_str(&mut s, compose);
    append_str(&mut s, "\nEOF");
    proof {
        reveal_strlit(" && cat > ");
        reveal_strlit(" && ");
        reveal_strlit("cat > ");
        reveal_strlit("/docker-compose.yml << 'EOF'\n");
        reveal_strlit("/");
        reveal_strlit("docker-compose.yml");
        reveal_strlit(" << 'EOF'\n");
    }
    assert(s@ =~= "mkdir -p "@ + instance_dir@ + " && "@ + heredoc_write(
        instance_dir@,
        "docker-compose.yml"@,
        compose@,
    ));
    s
}

/// The command that writes the instance's configuration JSON `json`
/// into the instance folder `instance_dir`.
pub fn config_upload_command(instance_dir: &str, json: &str) -> (r: String)
    ensures
        r@ == heredoc_write(instance_dir@, ".manager_config.json"@, json@),
{
    let mut s = String::new();
    append_str(&mut s, "cat > ");
    append_str(&mut s, instance_dir);
    append_str(&mut s, "/.manager_config.json << 'EOF'\n");
    append_str(&mut s, json);
    append_str(&mut s, "\nEOF");
    proof {
        reveal_strlit("/.manager_config.json << 'EOF'\n");
        reveal_strlit("/");
        reveal_strlit(".manager_config.json");
        reveal_strlit(" << 'EOF'\n");
    }
    assert(s@ =~= heredoc_write(instance_dir@, ".manager_config.json"@, json@));
    s
}

/// The marker that ends a successful installation log.
pub open spec fn done_marker() -> Seq<char> {
    "__DONE__"@
}

/// A step of the installation that failed, and so ended it.
pub enum InstallFailure {
    DockerConnection,
    SteamCmd,
    SshConnection,
}

pub open spec fn failure_heading(f: InstallFailure) -> Seq<char> {
    match f {
        InstallFailure::DockerConnection => "Docker connection failed: "@,
        InstallFailure::SteamCmd => "SteamCMD installation failed: "@,
        InstallFailure::SshConnection => "SSH connection failed: "@,
    }
}

/// The last line of an installation log that failed at `f` with `e`: the
/// failure, then the `__FAILED__` marker.
pub fn install_failure_log(f: &InstallFailure, e: &ServerManagerError) -> (r: String)
    ensures
        r@ == failure_heading(*f) + error_message(*e) + "\n__FAILED__"@,
{
    let mut s = String::new();
    match f {
        InstallFailure::DockerConnection => append_str(&mut s, "Docker connection failed: "),
        InstallFailure::SteamCmd => append_str(&mut s, "SteamCMD installation failed: "),
        InstallFailure::SshConnection => append_str(&mut s, "SSH connection failed: "),
    }
    append_str(&mut s, e.message().as_str());
    append_str(&mut s, "\n__FAILED__");
    s
}

/// A line of the installation log.
pub enum InstallNote {
    SteamcmdStarting,
    ComposeUploading,
    Done,
}

/// The text of `n`.
pub open spec fn note_text(n: InstallNote) -> Seq<char> {
    match n {
        InstallNote::SteamcmdStarting => "Starting SteamCMD installation via Docker...\n"@,
        InstallNote::ComposeUploading => "SSH Connected successfully. Uploading docker-compose.yml...\n"@,
        InstallNote::Done => done_marker(),
    }
}

/// The text of the log line `n`.
pub fn install_note(n: &InstallNote) -> (r: String)
    ensures
        r@ == note_text(*n),
{
    let mut s = String::new();
    match n {
        InstallNote::SteamcmdStarting => append_str(&mut s, "Starting SteamCMD installation via Docker...\n"),
        InstallNote::ComposeUploading => append_str(
            &mut s,
            "SSH Connected successfully. Uploading docker-compose.yml...\n",
        ),
        InstallNote::Done => append_str(&mut s, "__DONE__"),
    }
    s
}

} // verus!
