//! Installing a car or track archive from the local disk on a host, as
//! a state machine: each step takes what the last action gave and says
//! what to do next and what to show. The caller performs the actions (the
//! connection, the file read, the remote commands, the upload) and feeds
//! their outcomes back.
use vstd::prelude::*;
use crate::decimal::{decimal, fmt_decimal, fmt_signed, parse_unsigned, signed_decimal};
use crate::manager::error::{error_message, ServerManagerError};
use crate::net::sftp::{mod_dir, mod_target_dir, ModType};
use crate::text::{
    append_chars, append_str, starts_with, str_chars, strip_prefixes, strip_prefixes_chars, trim, trim_chars,
};
use crate::utils::commands::linux::{dquote_escaped, quote_escaped, LinuxCommandProvider};
use crate::utils::commands::{CommandProvider, CommandType};

verus! {

/// The local path of the archive that the interface chose: without its
/// leading `file://` prefixes.
pub open spec fn local_archive_path(chosen: Seq<char>) -> Seq<char> {
    strip_prefixes(chosen, "file://"@)
}

/// The local path of the archive that the interface chose.
pub fn local_zip_path(chosen: &str) -> (r: String)
    ensures
        r@ == local_archive_path(chosen@),
{
    let v = str_chars(chosen);
    let p = str_chars("file://");
    let r = strip_prefixes_chars(v.as_slice(), p.as_slice());
    crate::text::chars_to_string(r.as_slice())
}

/// Where an upload is.
#[derive(Clone, Copy)]
pub enum UploadStage {
    Connecting,
    Reading,
    CheckingSpace { zip_size: u64 },
    Uploading,
    Unpacking,
    Finished,
}

/// What the last action gave.
pub enum UploadEvent {
    /// The SSH session is open.
    Connected,
    ConnectFailed(ServerManagerError),
    /// The archive was read; it has `zip_size` bytes.
    FileRead { zip_size: u64 },
    /// The archive could not be read, for the reason given.
    ReadFailed(String),
    /// The free-space command printed `output` and exited with `status`.
    FreeSpaceReported { output: String, status: i32 },
    /// The free-space command could not be run.
    FreeSpaceUnknown,
    Uploaded,
    UploadFailed(ServerManagerError),
    /// The unpacking command exited with this status.
    UnzipExited(i32),
    UnzipFailed(ServerManagerError),
    /// The task that ran the unpacking command ended abnormally, for the
    /// reason given.
    UnzipAborted(String),
}

/// What to do next.
pub enum UploadAction {
    ReadFile,
    /// Run this command and report what it printed.
    QueryFreeSpace(String),
    /// Upload the archive to the temporary path.
    Upload,
    /// Run this command, streaming its output into the log.
    RunUnzip(String),
    Nothing,
}

pub enum UploadActionView {
    ReadFile,
    QueryFreeSpace(Seq<char>),
    Upload,
    RunUnzip(Seq<char>),
    Nothing,
}

/// One step: the next stage, the next action, the status to show where
/// it changes, and the text to add to the log.
pub struct UploadStep {
    pub stage: UploadStage,
    pub action: UploadAction,
    pub status: Option<String>,
    pub log: Option<String>,
}

pub struct UploadStepView {
    pub stage: UploadStage,
    pub action: UploadActionView,
    pub status: Option<Seq<char>>,
    pub log: Option<Seq<char>>,
}

impl View for UploadStep {
    type V = UploadStepView;

    open spec fn view(&self) -> UploadStepView {
        UploadStepView {
            stage: self.stage,
            action: match self.action {
                UploadAction::ReadFile => UploadActionView::ReadFile,
                UploadAction::QueryFreeSpace(c) => UploadActionView::QueryFreeSpace(c@),
                UploadAction::Upload => UploadActionView::Upload,
                UploadAction::RunUnzip(c) => UploadActionView::RunUnzip(c@),
                UploadAction::Nothing => UploadActionView::Nothing,
            },
            status: match self.status {
                Some(s) => Some(s@),
                None => None,
            },
            log: match self.log {
                Some(s) => Some(s@),
                None => None,
            },
        }
    }
}

/// The command that prints the free bytes of the home folder's file
/// system.
pub open spec fn free_space_command() -> Seq<char> {
    "df -B1 \""@ + dquote_escaped("$HOME"@) + "\" | tail -n 1 | awk '{print $4}'"@
}

/// The command that unpacks the archive `zip` into `target` and then
/// deletes it.
pub open spec fn unzip_command(zip: Seq<char>, target: Seq<char>) -> Seq<char> {
    "unzip -o '"@ + quote_escaped(zip) + "' -d \""@ + dquote_escaped(target) + "\" 2>&1 && rm '"@
        + quote_escaped(zip) + "'"@
}

/// The free bytes that the free-space command reported: its trimmed
/// output as a number, where it exited with status 0.
pub open spec fn free_space_of(output: Seq<char>, status: i32) -> Option<nat> {
    if status == 0 {
        parse_unsigned(trim(output), u64::MAX as nat)
    } else {
        None
    }
}

/// The bytes an archive of `zip_size` bytes needs on the host: room for
/// the archive, its unpacked content and some more.
pub open spec fn required_space(zip_size: nat) -> nat {
    zip_size * 4
}

/// The message of a host without room for the archive, sizes in whole
/// MiB.
pub open spec fn no_space_message(zip_size: nat, free: nat) -> Seq<char> {
    "Not enough space on host. Zip size: "@ + decimal(zip_size / 1048576) + " MB, Free space: "@
        + decimal(free / 1048576) + " MB (Requires ~"@ + decimal(required_space(zip_size) / 1048576)
        + " MB)"@
}

/// The status shown for an upload that failed with `msg`.
pub open spec fn failed_status(msg: Seq<char>) -> Seq<char> {
    "failed|"@ + msg
}

pub open spec fn finish(msg: Seq<char>, log: Option<Seq<char>>) -> UploadStepView {
    UploadStepView {
        stage: UploadStage::Finished,
        action: UploadActionView::Nothing,
        status: Some(failed_status(msg)),
        log,
    }
}

/// The step from `stage` on `event`, for an archive of kind `kind` of
/// instance `id` uploaded to `remote_zip`. An event that does not belong
/// to the stage changes nothing.
pub open spec fn upload_transition(
    kind: ModType,
    id: Seq<char>,
    remote_zip: Seq<char>,
    stage: UploadStage,
    event: UploadEvent,
) -> UploadStepView {
    let stay = UploadStepView { stage, action: UploadActionView::Nothing, status: None, log: None };
    match stage {
        UploadStage::Connecting => match event {
            UploadEvent::Connected => UploadStepView {
                stage: UploadStage::Reading,
                action: UploadActionView::ReadFile,
                status: None,
                log: None,
            },
            UploadEvent::ConnectFailed(e) => finish("SSH connection failed: "@ + error_message(e), None),
            _ => stay,
        },
        UploadStage::Reading => match event {
            UploadEvent::FileRead { zip_size } => UploadStepView {
                stage: UploadStage::CheckingSpace { zip_size },
                action: UploadActionView::QueryFreeSpace(free_space_command()),
                status: None,
                log: None,
            },
            UploadEvent::ReadFailed(t) => finish("Could not read local file: "@ + t@, None),
            _ => stay,
        },
        UploadStage::CheckingSpace { zip_size } => {
            let free = match event {
                UploadEvent::FreeSpaceReported { output, status } => free_space_of(output@, status),
                _ => None,
            };
            match event {
                UploadEvent::FreeSpaceReported { .. } | UploadEvent::FreeSpaceUnknown => match free {
                    Some(f) if f >= required_space(zip_size as nat) => UploadStepView {
                        stage: UploadStage::Uploading,
                        action: UploadActionView::Upload,
                        status: None,
                        log: None,
                    },
                    Some(f) => finish(no_space_message(zip_size as nat, f), None),
                    None => finish(no_space_message(zip_size as nat, 0), None),
                },
                _ => stay,
            }
        },
        UploadStage::Uploading => match event {
            UploadEvent::Uploaded => UploadStepView {
                stage: UploadStage::Unpacking,
                action: UploadActionView::RunUnzip(unzip_command(remote_zip, mod_dir(id, kind))),
                status: Some("unpacking"@),
                log: None,
            },
            UploadEvent::UploadFailed(e) => finish("Upload failed: "@ + error_message(e), None),
            _ => stay,
        },
        UploadStage::Unpacking => match event {
            UploadEvent::UnzipExited(code) => if code == 0 {
                UploadStepView {
                    stage: UploadStage::Finished,
                    action: UploadActionView::Nothing,
                    status: Some("success"@),
                    log: Some("\n\n[SUCCESS] Unzip completed."@),
                }
            } else {
                let msg = "Unzip failed with exit code: "@ + signed_decimal(code as int);
                finish(msg, Some("\n\n[ERROR] "@ + msg))
            },
            UploadEvent::UnzipFailed(e) => {
                let msg = "Unzip command failed: "@ + error_message(e);
                finish(msg, Some("\n\n[ERROR] "@ + msg))
            },
            UploadEvent::UnzipAborted(t) => finish("Unzip task panicked: "@ + t@, None),
            _ => stay,
        },
        UploadStage::Finished => stay,
    }
}

/// The archive's size can be checked against the host: four times its
/// size fits in 64 bits.
pub open spec fn step_fits(stage: UploadStage, event: UploadEvent) -> bool {
    &&& (event matches UploadEvent::FileRead { zip_size } ==> zip_size <= u64::MAX / 4)
    &&& (stage matches UploadStage::CheckingSpace { zip_size } ==> zip_size <= u64::MAX / 4)
}

/// The status shown while an upload has written `percent` per cent of
/// the archive.
pub fn upload_percent_status(percent: u32) -> (r: String)
    ensures
        r@ == "uploading|"@ + decimal(percent as nat),
{
    let mut s = text("uploading|");
    append_chars(&mut s, fmt_decimal(percent as u64).as_slice());
    s
}

/// The first stage of an upload, and the status shown as it starts.
pub fn begin_upload() -> (r: (UploadStage, String))
    ensures
        r.0 == UploadStage::Connecting,
        r.1@ == "uploading"@,
{
    (UploadStage::Connecting, text("uploading"))
}

fn text(s: &str) -> (r: String)
    ensures
        r@ == s@,
{
    let mut r = String::new();
    append_str(&mut r, s);
    r
}

fn failed(msg: String, log: bool) -> (r: UploadStep)
    ensures
        r@ == finish(
            msg@,
            if log {
                Some("\n\n[ERROR] "@ + msg@)
            } else {
                None
            },
        ),
{
    let mut status = text("failed|");
    append_str(&mut status, msg.as_str());
    let l = if log {
        let mut t = text("\n\n[ERROR] ");
        append_str(&mut t, msg.as_str());
        Some(t)
    } else {
        None
    };
    UploadStep { stage: UploadStage::Finished, action: UploadAction::Nothing, status: Some(status), log: l }
}

fn with_error(prefix: &str, e: &ServerManagerError) -> (r: String)
    ensures
        r@ == prefix@ + error_message(*e),
{
    let mut m = text(prefix);
    let em = e.message();
    append_str(&mut m, em.as_str());
    m
}

fn no_space(zip_size: u64, free: u64) -> (r: String)
    requires
        zip_size <= u64::MAX / 4,
    ensures
        r@ == no_space_message(zip_size as nat, free as nat),
{
    let mut m = text("Not enough space on host. Zip size: ");
    append_chars(&mut m, fmt_decimal(zip_size / 1048576).as_slice());
    append_str(&mut m, " MB, Free space: ");
    append_chars(&mut m, fmt_decimal(free / 1048576).as_slice());
    append_str(&mut m, " MB (Requires ~");
    append_chars(&mut m, fmt_decimal((zip_size * 4) / 1048576).as_slice());
    append_str(&mut m, " MB)");
    m
}

/// The step of an upload of an archive of kind `kind` of instance `id`,
/// uploaded to `remote_zip`, from `stage` on `event`.
pub fn upload_step(
    kind: &ModType,
    id: &str,
    remote_zip: &str,
    stage: &UploadStage,
    event: UploadEvent,
) -> (r: UploadStep)
    requires
        step_fits(*stage, event),
    ensures
        r@ == upload_transition(*kind, id@, remote_zip@, *stage, event),
{
    let stay = UploadStep { stage: *stage, action: UploadAction::Nothing, status: None, log: None };
    match stage {
        UploadStage::Connecting => match event {
            UploadEvent::Connected => UploadStep {
                stage: UploadStage::Reading,
                action: UploadAction::ReadFile,
                status: None,
                log: None,
            },
            UploadEvent::ConnectFailed(e) => failed(with_error("SSH connection failed: ", &e), false),
            _ => stay,
        },
        UploadStage::Reading => match event {
            UploadEvent::FileRead { zip_size } => {
                let cmd = LinuxCommandProvider.get_command(
                    CommandType::GetFreeSpace { target_dir: text("$HOME") },
                );
                UploadStep {
                    stage: UploadStage::CheckingSpace { zip_size },
                    action: UploadAction::QueryFreeSpace(cmd),
                    status: None,
                    log: None,
                }
            },
            UploadEvent::ReadFailed(t) => {
                let mut m = text("Could not read local file: ");
                append_str(&mut m, t.as_str());
                failed(m, false)
            },
            _ => stay,
        },
        UploadStage::CheckingSpace { zip_size } => {
            let zip_size = *zip_size;
            let free: Option<u64> = match &event {
                UploadEvent::FreeSpaceReported { output, status } => {
                    if *status == 0 {
                        let v = str_chars(output.as_str());
                        let t = trim_chars(v.as_slice());
                        crate::decimal::parse_decimal(t.as_slice(), u64::MAX)
                    } else {
                        None
                    }
                },
                _ => None,
            };
            match event {
                UploadEvent::FreeSpaceReported { .. } | UploadEvent::FreeSpaceUnknown => match free {
                    Some(f) => {
                        if f >= zip_size * 4 {
                            UploadStep {
                                stage: UploadStage::Uploading,
                                action: UploadAction::Upload,
                                status: None,
                                log: None,
                            }
                        } else {
                            failed(no_space(zip_size, f), false)
                        }
                    },
                    None => failed(no_space(zip_size, 0), false),
                },
                _ => stay,
            }
        },
        UploadStage::Uploading => match event {
            UploadEvent::Uploaded => {
                let target = mod_target_dir(id, kind);
                let cmd = LinuxCommandProvider.get_command(
                    CommandType::UnzipTrack { remote_zip: text(remote_zip), target_dir: target },
                );
                UploadStep {
                    stage: UploadStage::Unpacking,
                    action: UploadAction::RunUnzip(cmd),
                    status: Some(text("unpacking")),
                    log: None,
                }
            },
            UploadEvent::UploadFailed(e) => failed(with_error("Upload failed: ", &e), false),
            _ => stay,
        },
        UploadStage::Unpacking => match event {
            UploadEvent::UnzipExited(code) => {
                if code == 0 {
                    UploadStep {
                        stage: UploadStage::Finished,
                        action: UploadAction::Nothing,
                        status: Some(text("success")),
                        log: Some(text("\n\n[SUCCESS] Unzip completed.")),
                    }
                } else {
                    let mut m = text("Unzip failed with exit code: ");
                    append_chars(&mut m, fmt_signed(code).as_slice());
                    failed(m, true)
                }
            },
            UploadEvent::UnzipFailed(e) => failed(with_error("Unzip command failed: ", &e), true),
            UploadEvent::UnzipAborted(t) => {
                let mut m = text("Unzip task panicked: ");
                append_str(&mut m, t.as_str());
                failed(m, false)
            },
            _ => stay,
        },
        UploadStage::Finished => stay,
    }
}

/// An upload reports `success` only on the step where its unpacking
/// command exited with status 0, and a finished upload stays finished,
/// doing nothing more.
pub proof fn lemma_upload_outcome(kind: ModType, id: Seq<char>, remote_zip: Seq<char>, stage: UploadStage, event: UploadEvent)
    ensures
        upload_transition(kind, id, remote_zip, stage, event).status == Some("success"@) ==> (
        stage is Unpacking && event == UploadEvent::UnzipExited(0)),
        stage is Finished ==> upload_transition(kind, id, remote_zip, stage, event) == (UploadStepView {
            stage: UploadStage::Finished,
            action: UploadActionView::Nothing,
            status: None,
            log: None,
        }),
{
    reveal_strlit("success");
    reveal_strlit("failed|");
    reveal_strlit("unpacking");
    let t = upload_transition(kind, id, remote_zip, stage, event);
    if t.status == Some("success"@) {
        assert("success"@[0] == 's');
        assert("unpacking"@[0] == 'u');
        assert forall|m: Seq<char>| failed_status(m)[0] == 'f' by {
            assert(failed_status(m)[0] == "failed|"@[0]);
        }
        match event {
            UploadEvent::UnzipExited(code) => {
                if code != 0 {
                    let msg = "Unzip failed with exit code: "@ + signed_decimal(code as int);
                    assert(failed_status(msg)[0] == 'f');
                }
            },
            _ => {},
        }
    }
}

/// A status that ends an upload: `success`, or `failed|` and a reason.
pub open spec fn final_status(s: Seq<char>) -> bool {
    s == "success"@ || starts_with(s, "failed|"@)
}

/// The stage after the events `events`, one step each, from `stage`.
pub open spec fn run_stage(
    kind: ModType,
    id: Seq<char>,
    remote_zip: Seq<char>,
    stage: UploadStage,
    events: Seq<UploadEvent>,
) -> UploadStage
    decreases events.len(),
{
    if events.len() == 0 {
        stage
    } else {
        upload_transition(kind, id, remote_zip, run_stage(kind, id, remote_zip, stage, events.drop_last()), events.last()).stage
    }
}

/// The statuses that the steps on the events `events` show, in order,
/// from `stage`.
pub open spec fn run_statuses(
    kind: ModType,
    id: Seq<char>,
    remote_zip: Seq<char>,
    stage: UploadStage,
    events: Seq<UploadEvent>,
) -> Seq<Seq<char>>
    decreases events.len(),
{
    if events.len() == 0 {
        Seq::empty()
    } else {
        let before = run_statuses(kind, id, remote_zip, stage, events.drop_last());
        let t = upload_transition(kind, id, remote_zip, run_stage(kind, id, remote_zip, stage, events.drop_last()), events.last());
        match t.status {
            Some(st) => before.push(st),
            None => before,
        }
    }
}

/// Where a run from the start stands, by the statuses it showed: none
/// before unpacking, `unpacking` while unpacking, and once finished a
/// final status, after `unpacking` where it is `success`.
pub open spec fn run_consistent(stage: UploadStage, statuses: Seq<Seq<char>>) -> bool {
    match stage {
        UploadStage::Unpacking => statuses == seq!["unpacking"@],
        UploadStage::Finished => {
            ||| (statuses.len() == 1 && final_status(statuses[0]) && statuses[0] != "success"@)
            ||| (statuses.len() == 2 && statuses[0] == "unpacking"@ && final_status(statuses[1]))
        },
        _ => statuses.len() == 0,
    }
}

proof fn lemma_failed_is_final(msg: Seq<char>)
    ensures
        final_status(failed_status(msg)),
        failed_status(msg) != "success"@,
        failed_status(msg) != "unpacking"@,
{
    reveal_strlit("failed|");
    reveal_strlit("success");
    reveal_strlit("unpacking");
    assert(failed_status(msg).take(7) =~= "failed|"@);
    assert(failed_status(msg)[0] == 'f');
    assert("success"@[0] == 's');
    assert("unpacking"@[0] == 'u');
}

/// What one step shows: nothing while the stage stays or moves on before
/// unpacking, `unpacking` as the archive is unpacked, and a final status,
/// `success` only after unpacking, as the upload finishes.
proof fn lemma_step_status(kind: ModType, id: Seq<char>, remote_zip: Seq<char>, stage: UploadStage, event: UploadEvent)
    ensures
        ({
            let t = upload_transition(kind, id, remote_zip, stage, event);
            &&& t.status is None ==> (t.stage == stage || (!(stage is Uploading) && !(stage is Unpacking)
                && !(stage is Finished) && !(t.stage is Unpacking) && !(t.stage is Finished)))
            &&& t.status == Some("unpacking"@) ==> stage is Uploading && t.stage is Unpacking
            &&& match t.status {
                Some(st) => st != "unpacking"@ ==> (t.stage is Finished && !(stage is Finished) && final_status(st)
                    && (st == "success"@ ==> stage is Unpacking)),
                None => true,
            }
        }),
{
    reveal_strlit("success");
    reveal_strlit("unpacking");
    assert("success"@[0] == 's');
    assert("unpacking"@[0] == 'u');
    lemma_upload_outcome(kind, id, remote_zip, stage, event);
    match stage {
        UploadStage::Connecting => match event {
            UploadEvent::ConnectFailed(e) => lemma_failed_is_final("SSH connection failed: "@ + error_message(e)),
            _ => {},
        },
        UploadStage::Reading => match event {
            UploadEvent::ReadFailed(x) => lemma_failed_is_final("Could not read local file: "@ + x@),
            _ => {},
        },
        UploadStage::CheckingSpace { zip_size } => {
            let free = match event {
                UploadEvent::FreeSpaceReported { output, status } => free_space_of(output@, status),
                _ => None,
            };
            match free {
                Some(f) => lemma_failed_is_final(no_space_message(zip_size as nat, f)),
                None => lemma_failed_is_final(no_space_message(zip_size as nat, 0)),
            }
        },
        UploadStage::Uploading => match event {
            UploadEvent::UploadFailed(e) => lemma_failed_is_final("Upload failed: "@ + error_message(e)),
            _ => {},
        },
        UploadStage::Unpacking => match event {
            UploadEvent::UnzipExited(code) => lemma_failed_is_final(
                "Unzip failed with exit code: "@ + signed_decimal(code as int),
            ),
            UploadEvent::UnzipFailed(e) => lemma_failed_is_final("Unzip command failed: "@ + error_message(e)),
            UploadEvent::UnzipAborted(x) => lemma_failed_is_final("Unzip task panicked: "@ + x@),
            _ => {},
        },
        UploadStage::Finished => {},
    }
}

/// Over a whole upload, begun at `Connecting` (with the status
/// `uploading`), whatever the events: the steps show at most two
/// statuses, `unpacking` when the archive is on the host and then one
/// final status, `success` only after `unpacking`; the upload is finished
/// exactly when a final status was shown, and nothing is shown after it.
pub proof fn lemma_upload_run(kind: ModType, id: Seq<char>, remote_zip: Seq<char>, events: Seq<UploadEvent>)
    ensures
        run_consistent(
            run_stage(kind, id, remote_zip, UploadStage::Connecting, events),
            run_statuses(kind, id, remote_zip, UploadStage::Connecting, events),
        ),
    decreases events.len(),
{
    reveal_strlit("success");
    reveal_strlit("unpacking");
    assert("success"@[0] == 's');
    assert("unpacking"@[0] == 'u');
    if events.len() > 0 {
        let before = events.drop_last();
        lemma_upload_run(kind, id, remote_zip, before);
        let stage = run_stage(kind, id, remote_zip, UploadStage::Connecting, before);
        lemma_step_status(kind, id, remote_zip, stage, events.last());
        let prev = run_statuses(kind, id, remote_zip, UploadStage::Connecting, before);
        let t = upload_transition(kind, id, remote_zip, stage, events.last());
        match t.status {
            Some(st) => {
                let now = prev.push(st);
                assert(now.last() == st);
                if st == "unpacking"@ {
                    assert(now =~= seq!["unpacking"@]);
                } else if stage is Unpacking {
                    assert(now.len() == 2 && now[0] == "unpacking"@);
                } else {
                    assert(now.len() == 1);
                }
            },
            None => {},
        }
    }
}

} // verus!
