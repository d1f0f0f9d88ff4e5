//! What the SSH client computes before it talks to a host: the key file
//! it reads, and the shell line that runs a streamed command with its
//! errors merged into its output.
use vstd::prelude::*;
use crate::manager::error::ServerManagerError;
use crate::text::{append_chars, append_str};
use crate::utils::commands::linux::{escape_single_quotes, quote_escaped};

verus! {

/// `path` starts with `~`, the only paths that tilde expansion may
/// rewrite.
pub open spec fn starts_with_tilde(path: Seq<char>) -> bool {
    path.len() > 0 && path[0] == '~'
}

/// `shellexpand::tilde`: a path that does not start with `~` is returned
/// unchanged. One that does is returned unchanged or with its `~`
/// replaced by the user's home folder, as `dirs::home_dir` finds it:
/// which paths are rewritten (`~` alone, `~/...`, and on Windows also
/// `~\...`) depends on the platform, and the home folder on the
/// environment, so of such a result only its shape is stated.
#[verifier::external_body]
fn expand_tilde(path: &str) -> (r: String)
    ensures
        !starts_with_tilde(path@) ==> r@ == path@,
        starts_with_tilde(path@) ==> (r@ == path@ || exists|home: Seq<char>| r@ == home + path@.skip(1)),
{
    shellexpand::tilde(path).to_string()
}

/// The key file that the client authenticates with for the configured
/// `key_path`: the path with a leading `~` expanded to the home folder.
pub fn ssh_key_file(key_path: &str) -> (r: String)
    ensures
        !starts_with_tilde(key_path@) ==> r@ == key_path@,
        starts_with_tilde(key_path@) ==> (r@ == key_path@ || exists|home: Seq<char>| r@ == home
            + key_path@.skip(1)),
{
    expand_tilde(key_path)
}

/// The address `host:port` that the client connects to.
pub fn ssh_address(host: &str, port: u16) -> (r: String)
    ensures
        r@ == host@ + ":"@ + crate::decimal::decimal(port as nat),
{
    let mut s = String::new();
    append_str(&mut s, host);
    append_str(&mut s, ":");
    let p = crate::decimal::fmt_decimal(port as u64);
    append_chars(&mut s, p.as_slice());
    s
}

/// The shell line that runs `command` with its standard error merged into
/// its output, line-buffered through `stdbuf` where the host has it.
pub open spec fn streamed_command(command: Seq<char>) -> Seq<char> {
    "stdbuf -oL -eL bash -c '"@ + quote_escaped(command) + " 2>&1' || bash -c '"@ + quote_escaped(
        command,
    ) + " 2>&1'"@
}

/// The shell line that runs `command` for a streamed execution.
pub fn stream_command(command: &str) -> (r: String)
    ensures
        r@ == streamed_command(command@),
{
    let q = escape_single_quotes(command);
    let mut s = String::new();
    append_str(&mut s, "stdbuf -oL -eL bash -c '");
    append_chars(&mut s, q.as_slice());
    append_str(&mut s, " 2>&1' || bash -c '");
    append_chars(&mut s, q.as_slice());
    append_str(&mut s, " 2>&1'");
    s
}

/// A step of opening an SSH session that can fail.
pub enum SshFailure {
    /// The TCP connection, the session or the handshake failed.
    Transport,
    /// The host refused the key.
    KeyAuth,
    /// The session is not authenticated after the key was offered.
    NotAuthenticated,
}

/// The error of a session that could not be opened at `step`, with the
/// text of the failure that the network or SSH library reported.
pub fn ssh_failure(step: &SshFailure, detail: &str) -> (r: ServerManagerError)
    ensures
        r matches ServerManagerError::SetupError(m) && m@ == match step {
            SshFailure::Transport => detail@,
            SshFailure::KeyAuth => "Key auth failed: "@ + detail@,
            SshFailure::NotAuthenticated => "Authentication failed"@,
        },
{
    let mut s = String::new();
    match step {
        SshFailure::Transport => append_str(&mut s, detail),
        SshFailure::KeyAuth => {
            append_str(&mut s, "Key auth failed: ");
            append_str(&mut s, detail);
        },
        SshFailure::NotAuthenticated => append_str(&mut s, "Authentication failed"),
    }
    ServerManagerError::SetupError(s)
}

} // verus!
