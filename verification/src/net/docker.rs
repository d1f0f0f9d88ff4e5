//! The containers of an instance: which profile ids may name one, the
//! container names and specifications, the steps that create or start
//! the server's container, and the messages of their failures.
use vstd::prelude::*;
use crate::decimal::{decimal, fmt_decimal};
use crate::manager::error::ServerManagerError;
use crate::text::{append_chars, append_str, str_chars, string_views};

verus! {

// ------------------------------------------------------------------
// Profile ids, addresses and names
// ------------------------------------------------------------------

/// `c` may stand in a profile id: an ASCII letter or digit, `-` or `_`.
pub open spec fn id_char(c: char) -> bool {
    ('a' <= c && c <= 'z') || ('A' <= c && c <= 'Z') || ('0' <= c && c <= '9') || c == '-' || c
        == '_'
}

/// `id` may name containers and folders: it is not empty and has only
/// ASCII letters and digits, `-` and `_`.
pub open spec fn valid_profile_id(id: Seq<char>) -> bool {
    id.len() > 0 && forall|i: int| 0 <= i < id.len() ==> id_char(id[i])
}

/// The message of a profile id that cannot name a container.
pub open spec fn invalid_id_message() -> Seq<char> {
    "Invalid profile ID: must be alphanumeric, hyphen, or underscore"@
}

/// Whether `id` may name containers and folders; a validation error
/// where it may not.
pub fn validate_profile_id(id: &str) -> (r: Result<(), ServerManagerError>)
    ensures
        valid_profile_id(id@) ==> r is Ok,
        !valid_profile_id(id@) ==> (r matches Err(ServerManagerError::ValidationError(m)) && m@
            == invalid_id_message()),
{
    let v = str_chars(id);
    let mut ok = v.len() > 0;
    let mut i: usize = 0;
    while i < v.len()
        invariant
            i <= v@.len(),
            v@ == id@,
            ok == (v@.len() > 0 && forall|j: int| 0 <= j < i ==> id_char(v@[j])),
        decreases v@.len() - i,
    {
        let c = v[i];
        let good = ('a' <= c && c <= 'z') || ('A' <= c && c <= 'Z') || ('0' <= c && c <= '9') || c
            == '-' || c == '_';
        ok = ok && good;
        i = i + 1;
    }
    if !ok {
        let mut m = String::new();
        append_str(&mut m, "Invalid profile ID: must be alphanumeric, hyphen, or underscore");
        return Err(ServerManagerError::ValidationError(m));
    }
    Ok(())
}

/// The address of the Docker daemon of a host, reached over SSH as
/// `username`.
pub fn docker_address(username: &str, host: &str) -> (r: String)
    ensures
        r@ == "ssh://"@ + username@ + "@"@ + host@,
{
    let mut s = String::new();
    append_str(&mut s, "ssh://");
    append_str(&mut s, username);
    append_str(&mut s, "@");
    append_str(&mut s, host);
    s
}

/// The name of the server container of instance `profile_id`.
pub fn container_name(profile_id: &str) -> (r: String)
    ensures
        r@ == "ac-server-"@ + profile_id@,
{
    let mut s = String::new();
    append_str(&mut s, "ac-server-");
    append_str(&mut s, profile_id);
    s
}

/// The name of the container that installs the server files of instance
/// `profile_id`.
pub fn steamcmd_container_name(profile_id: &str) -> (r: String)
    ensures
        r@ == "steamcmd-"@ + profile_id@,
{
    let mut s = String::new();
    append_str(&mut s, "steamcmd-");
    append_str(&mut s, profile_id);
    s
}

/// The home folder of `username` on a host: `/root` for root, else
/// under `/home`.
pub open spec fn home_of(username: Seq<char>) -> Seq<char> {
    if username == "root"@ {
        "/root"@
    } else {
        "/home/"@ + username
    }
}

/// The home folder of `username` on a host.
pub fn home_dir(username: &str) -> (r: String)
    ensures
        r@ == home_of(username@),
{
    let v = str_chars(username);
    let root = str_chars("root");
    let mut s = String::new();
    if crate::text::chars_eq(v.as_slice(), root.as_slice()) {
        append_str(&mut s, "/root");
    } else {
        append_str(&mut s, "/home/");
        append_str(&mut s, username);
    }
    s
}

// ------------------------------------------------------------------
// Container specifications
// ------------------------------------------------------------------

/// What a container is created with: its image, command, entry point,
/// environment, working folder, bind mounts and network mode.
pub struct ContainerSpec {
    pub image: String,
    pub cmd: Vec<String>,
    pub entrypoint: Option<Vec<String>>,
    pub env: Option<Vec<String>>,
    pub working_dir: Option<String>,
    pub binds: Vec<String>,
    pub network_mode: Option<String>,
}

pub struct ContainerSpecView {
    pub image: Seq<char>,
    pub cmd: Seq<Seq<char>>,
    pub entrypoint: Option<Seq<Seq<char>>>,
    pub env: Option<Seq<Seq<char>>>,
    pub working_dir: Option<Seq<char>>,
    pub binds: Seq<Seq<char>>,
    pub network_mode: Option<Seq<char>>,
}

pub open spec fn opt_strings(o: Option<Vec<String>>) -> Option<Seq<Seq<char>>> {
    match o {
        Some(v) => Some(string_views(v@)),
        None => None,
    }
}

impl View for ContainerSpec {
    type V = ContainerSpecView;

    open spec fn view(&self) -> ContainerSpecView {
        ContainerSpecView {
            image: self.image@,
            cmd: string_views(self.cmd@),
            entrypoint: opt_strings(self.entrypoint),
            env: opt_strings(self.env),
            working_dir: crate::net::catalog::opt_string_view(self.working_dir),
            binds: string_views(self.binds@),
            network_mode: crate::net::catalog::opt_string_view(self.network_mode),
        }
    }
}

fn text(s: &str) -> (r: String)
    ensures
        r@ == s@,
{
    let mut r = String::new();
    append_str(&mut r, s);
    r
}

fn one(s: String) -> (r: Vec<String>)
    ensures
        string_views(r@) == seq![s@],
{
    let mut v: Vec<String> = Vec::new();
    v.push(s);
    assert(string_views(v@) =~= seq![s@]);
    v
}

/// The image that the server container runs.
pub open spec fn server_image() -> Seq<char> {
    "ubuntu:20.04"@
}

/// The server container of instance `profile_id` of a host reached as
/// `username`: Ubuntu running `./acServer` in the instance's files,
/// mounted at `/data`, on the host's network.
pub open spec fn server_container(profile_id: Seq<char>, username: Seq<char>) -> ContainerSpecView {
    ContainerSpecView {
        image: server_image(),
        cmd: seq!["./acServer"@],
        entrypoint: None,
        env: None,
        working_dir: Some("/data"@),
        binds: seq![home_of(username) + "/ac-manager/instances/"@ + profile_id + "/ac_files:/data"@],
        network_mode: Some("host"@),
    }
}

/// The specification of the server container of instance `profile_id`.
pub fn server_container_spec(profile_id: &str, username: &str) -> (r: ContainerSpec)
    ensures
        r@ == server_container(profile_id@, username@),
{
    let mut bind = home_dir(username);
    append_str(&mut bind, "/ac-manager/instances/");
    append_str(&mut bind, profile_id);
    append_str(&mut bind, "/ac_files:/data");
    ContainerSpec {
        image: text("ubuntu:20.04"),
        cmd: one(text("./acServer")),
        entrypoint: None,
        env: None,
        working_dir: Some(text("/data")),
        binds: one(bind),
        network_mode: Some(text("host")),
    }
}

/// The command that installs the server files with SteamCMD, logging in
/// with the account in the container's environment.
pub open spec fn steamcmd_command() -> Seq<char> {
    "steamcmd +force_install_dir /data +login \"$STEAM_USERNAME\" \"$STEAM_PASSWORD\" +app_update 302550 validate +quit"@
}

/// The SteamCMD container that installs the server files into
/// `ac_files_dir` with the Steam account `steam_username`.
pub open spec fn steamcmd_container(
    ac_files_dir: Seq<char>,
    steam_username: Seq<char>,
    steam_password: Seq<char>,
) -> ContainerSpecView {
    ContainerSpecView {
        image: "steamcmd/steamcmd:latest"@,
        cmd: seq![steamcmd_command()],
        entrypoint: Some(seq!["/bin/sh"@, "-c"@]),
        env: Some(seq!["STEAM_USERNAME="@ + steam_username, "STEAM_PASSWORD="@ + steam_password]),
        working_dir: None,
        binds: seq![ac_files_dir + ":/data"@],
        network_mode: None,
    }
}

/// The specification of the SteamCMD container that installs the server
/// files into `ac_files_dir`.
pub fn build_steamcmd_config(ac_files_dir: &str, steam_username: &str, steam_password: &str) -> (r:
    ContainerSpec)
    ensures
        r@ == steamcmd_container(ac_files_dir@, steam_username@, steam_password@),
{
    let mut bind = text(ac_files_dir);
    append_str(&mut bind, ":/data");
    let mut user = text("STEAM_USERNAME=");
    append_str(&mut user, steam_username);
    let mut pass = text("STEAM_PASSWORD=");
    append_str(&mut pass, steam_password);
    let mut env: Vec<String> = Vec::new();
    env.push(user);
    env.push(pass);
    let mut entry: Vec<String> = Vec::new();
    entry.push(text("/bin/sh"));
    entry.push(text("-c"));
    proof {
        assert(string_views(env@) =~= seq!["STEAM_USERNAME="@ + steam_username@, "STEAM_PASSWORD="@
            + steam_password@]);
        assert(string_views(entry@) =~= seq!["/bin/sh"@, "-c"@]);
    }
    ContainerSpec {
        image: text("steamcmd/steamcmd:latest"),
        cmd: one(
            text(
                "steamcmd +force_install_dir /data +login \"$STEAM_USERNAME\" \"$STEAM_PASSWORD\" +app_update 302550 validate +quit",
            ),
        ),
        entrypoint: Some(entry),
        env: Some(env),
        working_dir: None,
        binds: one(bind),
        network_mode: None,
    }
}

// ------------------------------------------------------------------
// Failures
// ------------------------------------------------------------------

/// A Docker operation that can fail.
pub enum DockerOp {
    Connect,
    PullImage,
    Create,
    CreateSteamcmd,
    Start,
    Restart,
    Stop,
}

/// The heading of the message of a failed operation.
pub open spec fn op_heading(op: DockerOp) -> Seq<char> {
    match op {
        DockerOp::Connect => "Bollard connection failed: "@,
        DockerOp::PullImage => "Failed to pull ubuntu:20.04 image: "@,
        DockerOp::Create => "Failed to create container: "@,
        DockerOp::CreateSteamcmd => "Failed to create steamcmd container: "@,
        DockerOp::Start => "Failed to start container: "@,
        DockerOp::Restart => "Failed to restart container: "@,
        DockerOp::Stop => "Failed to stop container: "@,
    }
}

/// The error of an operation that failed, with the Docker client's text
/// of the failure.
pub fn docker_failure(op: &DockerOp, detail: &str) -> (r: ServerManagerError)
    ensures
        r matches ServerManagerError::SetupError(m) && m@ == op_heading(*op) + detail@,
{
    let mut m = String::new();
    match op {
        DockerOp::Connect => append_str(&mut m, "Bollard connection failed: "),
        DockerOp::PullImage => append_str(&mut m, "Failed to pull ubuntu:20.04 image: "),
        DockerOp::Create => append_str(&mut m, "Failed to create container: "),
        DockerOp::CreateSteamcmd => append_str(&mut m, "Failed to create steamcmd container: "),
        DockerOp::Start => append_str(&mut m, "Failed to start container: "),
        DockerOp::Restart => append_str(&mut m, "Failed to restart container: "),
        DockerOp::Stop => append_str(&mut m, "Failed to stop container: "),
    }
    append_str(&mut m, detail);
    ServerManagerError::SetupError(m)
}

/// The signed decimal of a container's exit code.
pub open spec fn exit_code_text(code: int) -> Seq<char> {
    crate::decimal::signed_decimal(code)
}

/// What a container's exit code means: 0 is success, any other code a
/// setup error that names it.
pub fn container_exit_result(code: i64) -> (r: Result<(), ServerManagerError>)
    ensures
        code == 0 ==> r is Ok,
        code != 0 ==> (r matches Err(ServerManagerError::SetupError(m)) && m@
            == "Container failed with exit code: "@ + exit_code_text(code as int)),
{
    if code == 0 {
        return Ok(());
    }
    let mut m = String::new();
    append_str(&mut m, "Container failed with exit code: ");
    if code < 0 {
        append_str(&mut m, "-");
        let mag: u64 = if code == i64::MIN {
            9223372036854775808u64
        } else {
            (-code) as u64
        };
        assert(mag as int == -(code as int));
        let d = fmt_decimal(mag);
        append_chars(&mut m, d.as_slice());
        proof {
            reveal_strlit("-");
            assert("-"@ =~= seq!['-']);
        }
        assert(m@ =~= "Container failed with exit code: "@ + exit_code_text(code as int));
    } else {
        let d = fmt_decimal(code as u64);
        append_chars(&mut m, d.as_slice());
    }
    Err(ServerManagerError::SetupError(m))
}

// ------------------------------------------------------------------
// Creating or starting the server's container
// ------------------------------------------------------------------

/// Where starting the server's container is.
pub enum StartStage {
    Inspecting,
    Pulling,
    Creating,
    Starting,
    Done,
}

/// What the last Docker call gave.
pub enum StartEvent {
    /// Whether the container exists.
    Inspected(bool),
    /// The image stream ended without error.
    Pulled,
    /// The image stream reported an error, with this text.
    PullFailed(String),
    Created,
    CreateFailed(String),
    Started,
    StartFailed(String),
}

/// What to do next.
pub enum StartAction {
    /// Pull this image.
    Pull(String),
    /// Create the container with this name and specification.
    Create(String, ContainerSpec),
    /// Start the container with this name.
    Start(String),
    /// Stop with this outcome.
    Finish(Result<(), ServerManagerError>),
    /// Nothing: the event does not belong to the stage.
    Wait,
}

/// The outcome of a step's action, as the test of its kind and the values
/// it carries.
pub open spec fn start_action_is(
    a: StartAction,
    profile_id: Seq<char>,
    username: Seq<char>,
    stage: StartStage,
    event: StartEvent,
) -> bool {
    let name = "ac-server-"@ + profile_id;
    match stage {
        StartStage::Inspecting => match event {
            StartEvent::Inspected(true) => a matches StartAction::Start(n) && n@ == name,
            StartEvent::Inspected(false) => a matches StartAction::Pull(i) && i@ == server_image(),
            _ => a is Wait,
        },
        StartStage::Pulling => match event {
            StartEvent::Pulled => a matches StartAction::Create(n, s) && n@ == name && s@
                == server_container(profile_id, username),
            StartEvent::PullFailed(d) => a matches StartAction::Finish(Err(
                ServerManagerError::SetupError(m),
            )) && m@ == op_heading(DockerOp::PullImage) + d@,
            _ => a is Wait,
        },
        StartStage::Creating => match event {
            StartEvent::Created => a matches StartAction::Start(n) && n@ == name,
            StartEvent::CreateFailed(d) => a matches StartAction::Finish(Err(
                ServerManagerError::SetupError(m),
            )) && m@ == op_heading(DockerOp::Create) + d@,
            _ => a is Wait,
        },
        StartStage::Starting => match event {
            StartEvent::Started => a matches StartAction::Finish(Ok(())),
            StartEvent::StartFailed(d) => a matches StartAction::Finish(Err(
                ServerManagerError::SetupError(m),
            )) && m@ == op_heading(DockerOp::Start) + d@,
            _ => a is Wait,
        },
        StartStage::Done => a is Wait,
    }
}

/// The stage after `stage` on `event`.
pub open spec fn start_next_stage(stage: StartStage, event: StartEvent) -> StartStage {
    match (stage, event) {
        (StartStage::Inspecting, StartEvent::Inspected(true)) => StartStage::Starting,
        (StartStage::Inspecting, StartEvent::Inspected(false)) => StartStage::Pulling,
        (StartStage::Pulling, StartEvent::Pulled) => StartStage::Creating,
        (StartStage::Pulling, StartEvent::PullFailed(_)) => StartStage::Done,
        (StartStage::Creating, StartEvent::Created) => StartStage::Starting,
        (StartStage::Creating, StartEvent::CreateFailed(_)) => StartStage::Done,
        (StartStage::Starting, StartEvent::Started) => StartStage::Done,
        (StartStage::Starting, StartEvent::StartFailed(_)) => StartStage::Done,
        _ => stage,
    }
}

/// The server's container is started only once Docker reported that it
/// exists or created it, and it is created only after its image was
/// pulled.
pub proof fn lemma_start_only_existing(a: StartAction, profile_id: Seq<char>, username: Seq<char>, stage: StartStage, event: StartEvent)
    requires
        start_action_is(a, profile_id, username, stage, event),
    ensures
        a is Start ==> (stage is Inspecting && event == StartEvent::Inspected(true)) || (stage is Creating
            && event is Created),
        a is Create ==> stage is Pulling && event is Pulled,
{
}

/// One step of creating (where it does not exist) and starting the server
/// container of instance `profile_id` on a host reached as `username`.
pub fn create_or_start_step(profile_id: &str, username: &str, stage: StartStage, event: StartEvent) -> (r: (
    StartStage,
    StartAction,
))
    ensures
        r.0 == start_next_stage(stage, event),
        start_action_is(r.1, profile_id@, username@, stage, event),
{
    match stage {
        StartStage::Inspecting => match event {
            StartEvent::Inspected(true) => (StartStage::Starting, StartAction::Start(container_name(profile_id))),
            StartEvent::Inspected(false) => (StartStage::Pulling, StartAction::Pull(text("ubuntu:20.04"))),
            _ => (stage, StartAction::Wait),
        },
        StartStage::Pulling => match event {
            StartEvent::Pulled => (
                StartStage::Creating,
                StartAction::Create(container_name(profile_id), server_container_spec(profile_id, username)),
            ),
            StartEvent::PullFailed(d) => (
                StartStage::Done,
                StartAction::Finish(Err(docker_failure(&DockerOp::PullImage, d.as_str()))),
            ),
            _ => (stage, StartAction::Wait),
        },
        StartStage::Creating => match event {
            StartEvent::Created => (StartStage::Starting, StartAction::Start(container_name(profile_id))),
            StartEvent::CreateFailed(d) => (
                StartStage::Done,
                StartAction::Finish(Err(docker_failure(&DockerOp::Create, d.as_str()))),
            ),
            _ => (stage, StartAction::Wait),
        },
        StartStage::Starting => match event {
            StartEvent::Started => (StartStage::Done, StartAction::Finish(Ok(()))),
            StartEvent::StartFailed(d) => (
                StartStage::Done,
                StartAction::Finish(Err(docker_failure(&DockerOp::Start, d.as_str()))),
            ),
            _ => (stage, StartAction::Wait),
        },
        StartStage::Done => (stage, StartAction::Wait),
    }
}

// ------------------------------------------------------------------
// Messages of the installation log
// ------------------------------------------------------------------

/// The log line of a container whose logs could not be attached.
pub fn attach_warning(detail: &str) -> (r: String)
    ensures
        r@ == "WARNING: Failed to attach to container for logs: "@ + detail@ + "\n"@,
{
    let mut s = text("WARNING: Failed to attach to container for logs: ");
    append_str(&mut s, detail);
    append_str(&mut s, "\n");
    s
}

// ------------------------------------------------------------------
// Installing the server files with a SteamCMD container
// ------------------------------------------------------------------

/// Where the SteamCMD installation is. `Starting` remembers why the logs
/// could not be attached, where they could not.
pub enum SteamcmdStage {
    Begin,
    RemovingOld,
    Creating,
    Attaching,
    Starting { attach_error: Option<String> },
    Streaming,
    Waiting,
    RemovingNew,
    Done,
}

/// What the last Docker call gave.
pub enum SteamcmdEvent {
    /// The installation may begin.
    Go,
    /// The container was removed, or there was none to remove.
    Removed,
    Created,
    CreateFailed(String),
    /// The container's output is attached.
    Attached,
    AttachFailed(String),
    Started,
    StartFailed(String),
    /// The container's output ended.
    LogsEnded,
    /// The wait reported this exit status.
    Exited(i64),
    /// The wait ended.
    WaitEnded,
}

/// What to do next.
pub enum SteamcmdAction {
    /// Remove the container with this name, whatever comes of it.
    Remove(String),
    Create(String, ContainerSpec),
    Attach(String),
    Start(String),
    /// Forward the attached output to the log until it ends.
    StreamLogs,
    /// Wait for the container with this name to exit.
    Wait(String),
    Finish(Result<(), ServerManagerError>),
    Nothing,
}

/// The log text that a step adds.
pub open spec fn cleanup_note() -> Seq<char> {
    "Cleaning up old container...\n"@
}

/// The stage after `stage` on `event` (see `steamcmd_step`).
pub open spec fn steamcmd_next(stage: SteamcmdStage, event: SteamcmdEvent) -> SteamcmdStage {
    match (stage, event) {
        (SteamcmdStage::Begin, SteamcmdEvent::Go) => SteamcmdStage::RemovingOld,
        (SteamcmdStage::RemovingOld, SteamcmdEvent::Removed) => SteamcmdStage::Creating,
        (SteamcmdStage::Creating, SteamcmdEvent::Created) => SteamcmdStage::Attaching,
        (SteamcmdStage::Creating, SteamcmdEvent::CreateFailed(_)) => SteamcmdStage::Done,
        (SteamcmdStage::Attaching, SteamcmdEvent::Attached) => SteamcmdStage::Starting {
            attach_error: None,
        },
        (SteamcmdStage::Attaching, SteamcmdEvent::AttachFailed(d)) => SteamcmdStage::Starting {
            attach_error: Some(d),
        },
        (SteamcmdStage::Starting { attach_error }, SteamcmdEvent::Started) => match attach_error {
            None => SteamcmdStage::Streaming,
            Some(_) => SteamcmdStage::Waiting,
        },
        (SteamcmdStage::Starting { .. }, SteamcmdEvent::StartFailed(_)) => SteamcmdStage::Done,
        (SteamcmdStage::Streaming, SteamcmdEvent::LogsEnded) => SteamcmdStage::Waiting,
        (SteamcmdStage::Waiting, SteamcmdEvent::Exited(code)) => if code == 0 {
            SteamcmdStage::Waiting
        } else {
            SteamcmdStage::Done
        },
        (SteamcmdStage::Waiting, SteamcmdEvent::WaitEnded) => SteamcmdStage::RemovingNew,
        (SteamcmdStage::RemovingNew, SteamcmdEvent::Removed) => SteamcmdStage::Done,
        (s, _) => s,
    }
}

/// The action and the log text of the step from `stage` on `event` of the
/// installation of instance `profile_id` into `ac_files_dir`.
pub open spec fn steamcmd_step_is(
    a: SteamcmdAction,
    log: Option<Seq<char>>,
    profile_id: Seq<char>,
    ac_files_dir: Seq<char>,
    user: Seq<char>,
    pass: Seq<char>,
    stage: SteamcmdStage,
    event: SteamcmdEvent,
) -> bool {
    let name = "steamcmd-"@ + profile_id;
    match (stage, event) {
        (SteamcmdStage::Begin, SteamcmdEvent::Go) => (a matches SteamcmdAction::Remove(n) && n@
            == name) && log == Some("Connecting to docker daemon via ssh...\n"@ + cleanup_note()),
        (SteamcmdStage::RemovingOld, SteamcmdEvent::Removed) => (a matches SteamcmdAction::Create(
            n,
            c,
        ) && n@ == name && c@ == steamcmd_container(ac_files_dir, user, pass)) && log == Some(
            "Creating SteamCMD container...\n"@,
        ),
        (SteamcmdStage::Creating, SteamcmdEvent::Created) => (a matches SteamcmdAction::Attach(n)
            && n@ == name) && log is None,
        (SteamcmdStage::Creating, SteamcmdEvent::CreateFailed(d)) => (a matches SteamcmdAction::Finish(
            Err(ServerManagerError::SetupError(m)),
        ) && m@ == op_heading(DockerOp::CreateSteamcmd) + d@) && log is None,
        (SteamcmdStage::Attaching, SteamcmdEvent::Attached) => (a matches SteamcmdAction::Start(n)
            && n@ == name) && log == Some("Starting container...\n"@),
        (SteamcmdStage::Attaching, SteamcmdEvent::AttachFailed(_)) => (a matches SteamcmdAction::Start(
            n,
        ) && n@ == name) && log == Some("Starting container...\n"@),
        (SteamcmdStage::Starting { attach_error }, SteamcmdEvent::Started) => match attach_error {
            None => a is StreamLogs && log is None,
            Some(d) => (a matches SteamcmdAction::Wait(n) && n@ == name) && log == Some(
                "WARNING: Failed to attach to container for logs: "@ + d@ + "\n"@,
            ),
        },
        (SteamcmdStage::Starting { .. }, SteamcmdEvent::StartFailed(d)) => (a matches SteamcmdAction::Finish(
            Err(ServerManagerError::SetupError(m)),
        ) && m@ == op_heading(DockerOp::Start) + d@) && log is None,
        (SteamcmdStage::Streaming, SteamcmdEvent::LogsEnded) => (a matches SteamcmdAction::Wait(n)
            && n@ == name) && log is None,
        (SteamcmdStage::Waiting, SteamcmdEvent::Exited(code)) => if code == 0 {
            a is Nothing && log is None
        } else {
            (a matches SteamcmdAction::Finish(Err(ServerManagerError::SetupError(m))) && m@
                == "Container failed with exit code: "@ + exit_code_text(code as int)) && log is None
        },
        (SteamcmdStage::Waiting, SteamcmdEvent::WaitEnded) => (a matches SteamcmdAction::Remove(n)
            && n@ == name) && log == Some(
            "SteamCMD installation finished. Cleaning up...\n"@ + cleanup_note(),
        ),
        (SteamcmdStage::RemovingNew, SteamcmdEvent::Removed) => (a matches SteamcmdAction::Finish(
            Ok(()),
        )) && log is None,
        _ => a is Nothing && log is None,
    }
}

fn two_lines(a: &str, b: &str) -> (r: String)
    ensures
        r@ == a@ + b@,
{
    let mut s = text(a);
    append_str(&mut s, b);
    s
}

/// One step of installing the server files of instance `profile_id` into
/// `ac_files_dir` with a SteamCMD container logged in as `user`: the next
/// stage, the next action, and the text to add to the installation log.
pub fn steamcmd_step(
    profile_id: &str,
    ac_files_dir: &str,
    user: &str,
    pass: &str,
    stage: SteamcmdStage,
    event: SteamcmdEvent,
) -> (r: (SteamcmdStage, SteamcmdAction, Option<String>))
    ensures
        r.0 == steamcmd_next(stage, event),
        steamcmd_step_is(
            r.1,
            crate::net::catalog::opt_string_view(r.2),
            profile_id@,
            ac_files_dir@,
            user@,
            pass@,
            stage,
            event,
        ),
{
    match (stage, event) {
        (SteamcmdStage::Begin, SteamcmdEvent::Go) => (
            SteamcmdStage::RemovingOld,
            SteamcmdAction::Remove(steamcmd_container_name(profile_id)),
            Some(two_lines("Connecting to docker daemon via ssh...\n", "Cleaning up old container...\n")),
        ),
        (SteamcmdStage::RemovingOld, SteamcmdEvent::Removed) => (
            SteamcmdStage::Creating,
            SteamcmdAction::Create(
                steamcmd_container_name(profile_id),
                build_steamcmd_config(ac_files_dir, user, pass),
            ),
            Some(text("Creating SteamCMD container...\n")),
        ),
        (SteamcmdStage::Creating, SteamcmdEvent::Created) => (
            SteamcmdStage::Attaching,
            SteamcmdAction::Attach(steamcmd_container_name(profile_id)),
            None,
        ),
        (SteamcmdStage::Creating, SteamcmdEvent::CreateFailed(d)) => (
            SteamcmdStage::Done,
            SteamcmdAction::Finish(Err(docker_failure(&DockerOp::CreateSteamcmd, d.as_str()))),
            None,
        ),
        (SteamcmdStage::Attaching, SteamcmdEvent::Attached) => (
            SteamcmdStage::Starting { attach_error: None },
            SteamcmdAction::Start(steamcmd_container_name(profile_id)),
            Some(text("Starting container...\n")),
        ),
        (SteamcmdStage::Attaching, SteamcmdEvent::AttachFailed(d)) => (
            SteamcmdStage::Starting { attach_error: Some(d) },
            SteamcmdAction::Start(steamcmd_container_name(profile_id)),
            Some(text("Starting container...\n")),
        ),
        (SteamcmdStage::Starting { attach_error }, SteamcmdEvent::Started) => match attach_error {
            None => (SteamcmdStage::Streaming, SteamcmdAction::StreamLogs, None),
            Some(d) => (
                SteamcmdStage::Waiting,
                SteamcmdAction::Wait(steamcmd_container_name(profile_id)),
                Some(attach_warning(d.as_str())),
            ),
        },
        (SteamcmdStage::Starting { .. }, SteamcmdEvent::StartFailed(d)) => (
            SteamcmdStage::Done,
            SteamcmdAction::Finish(Err(docker_failure(&DockerOp::Start, d.as_str()))),
            None,
        ),
        (SteamcmdStage::Streaming, SteamcmdEvent::LogsEnded) => (
            SteamcmdStage::Waiting,
            SteamcmdAction::Wait(steamcmd_container_name(profile_id)),
            None,
        ),
        (SteamcmdStage::Waiting, SteamcmdEvent::Exited(code)) => {
            if code == 0 {
                (SteamcmdStage::Waiting, SteamcmdAction::Nothing, None)
            } else {
                (SteamcmdStage::Done, SteamcmdAction::Finish(container_exit_result(code)), None)
            }
        },
        (SteamcmdStage::Waiting, SteamcmdEvent::WaitEnded) => (
            SteamcmdStage::RemovingNew,
            SteamcmdAction::Remove(steamcmd_container_name(profile_id)),
            Some(
                two_lines(
                    "SteamCMD installation finished. Cleaning up...\n",
                    "Cleaning up old container...\n",
                ),
            ),
        ),
        (SteamcmdStage::RemovingNew, SteamcmdEvent::Removed) => (
            SteamcmdStage::Done,
            SteamcmdAction::Finish(Ok(())),
            None,
        ),
        (s, _) => (s, SteamcmdAction::Nothing, None),
    }
}

} // verus!
