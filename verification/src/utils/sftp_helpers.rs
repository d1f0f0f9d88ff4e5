//! Moving an uploaded file into place and deleting a remote folder: the
//! commands, and what their exit status means.
use vstd::prelude::*;
use crate::manager::error::ServerManagerError;
use crate::text::{append_chars, append_str};
use crate::utils::commands::linux::{dquote_escaped, escape_double_quotes};

verus! {

/// The temporary path of an upload named `uuid`.
pub fn upload_tmp_path(uuid: &str) -> (r: String)
    ensures
        r@ == "/tmp/"@ + uuid@ + ".tmp"@,
{
    let mut s = String::new();
    append_str(&mut s, "/tmp/");
    append_str(&mut s, uuid);
    append_str(&mut s, ".tmp");
    s
}

/// The command that moves the uploaded file `tmp_path` to `dest` with
/// `sudo`, `dest` in double quotes.
pub fn move_upload_command(tmp_path: &str, dest: &str) -> (r: String)
    ensures
        r@ == "sudo mv "@ + tmp_path@ + " \""@ + dquote_escaped(dest@) + "\""@,
{
    let mut s = String::new();
    append_str(&mut s, "sudo mv ");
    append_str(&mut s, tmp_path);
    append_str(&mut s, " \"");
    let d = escape_double_quotes(dest);
    append_chars(&mut s, d.as_slice());
    append_str(&mut s, "\"");
    s
}

/// What moving the upload into place gave: it succeeded with exit status
/// 0; otherwise a setup error with what the command printed.
pub fn move_upload_result(output: &str, status: i32) -> (r: Result<(), ServerManagerError>)
    ensures
        status == 0 ==> r is Ok,
        status != 0 ==> (r matches Err(ServerManagerError::SetupError(m)) && m@
            == "Failed to move uploaded file: "@ + output@),
{
    if status != 0 {
        let mut m = String::new();
        append_str(&mut m, "Failed to move uploaded file: ");
        append_str(&mut m, output);
        return Err(ServerManagerError::SetupError(m));
    }
    Ok(())
}

/// The command that deletes the folder `dir` with `sudo`, `dir` in
/// double quotes.
pub fn delete_directory_command(dir: &str) -> (r: String)
    ensures
        r@ == "sudo rm -rf \""@ + dquote_escaped(dir@) + "\""@,
{
    let mut s = String::new();
    append_str(&mut s, "sudo rm -rf \"");
    let d = escape_double_quotes(dir);
    append_chars(&mut s, d.as_slice());
    append_str(&mut s, "\"");
    s
}

/// What deleting a folder gave: it succeeded with exit status 0;
/// otherwise a setup error with what the command printed.
pub fn delete_directory_result(output: &str, status: i32) -> (r: Result<(), ServerManagerError>)
    ensures
        status == 0 ==> r is Ok,
        status != 0 ==> (r matches Err(ServerManagerError::SetupError(m)) && m@
            == "Failed to delete directory: "@ + output@),
{
    if status != 0 {
        let mut m = String::new();
        append_str(&mut m, "Failed to delete directory: ");
        append_str(&mut m, output);
        return Err(ServerManagerError::SetupError(m));
    }
    Ok(())
}

} // verus!
