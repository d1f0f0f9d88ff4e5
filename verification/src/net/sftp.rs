//! Installing a car or track archive on a host and reading and writing
//! an instance's configuration files: the paths, the commands, and the
//! check that an unpacked archive holds content.
use vstd::prelude::*;
use crate::decimal::parse_unsigned;
use crate::manager::error::ServerManagerError;
use crate::net::cars::cars_dir;
use crate::net::tracks::tracks_dir;
use crate::text::{append_chars, append_str, str_chars, trim, trim_chars};
use crate::utils::commands::linux::{escape_single_quotes, quote_escaped};

verus! {

/// The kind of content that an archive holds.
pub enum ModType {
    Car,
    Track,
}

/// The content folder of instance `id` for content of kind `kind`.
pub open spec fn mod_dir(id: Seq<char>, kind: ModType) -> Seq<char> {
    match kind {
        ModType::Car => cars_dir(id),
        ModType::Track => tracks_dir(id),
    }
}

/// The folder of instance `id` that an archive of kind `kind` is
/// unpacked into.
pub fn mod_target_dir(id: &str, kind: &ModType) -> (r: String)
    ensures
        r@ == mod_dir(id@, *kind),
{
    let mut s = String::new();
    append_str(&mut s, "$HOME/ac-manager/instances/");
    append_str(&mut s, id);
    match kind {
        ModType::Car => append_str(&mut s, "/ac_files/content/cars"),
        ModType::Track => append_str(&mut s, "/ac_files/content/tracks"),
    }
    s
}

/// The path on the host to which an archive named `uuid` is uploaded.
pub fn remote_zip_path(uuid: &str) -> (r: String)
    ensures
        r@ == "/tmp/"@ + uuid@ + ".zip"@,
{
    let mut s = String::new();
    append_str(&mut s, "/tmp/");
    append_str(&mut s, uuid);
    append_str(&mut s, ".zip");
    s
}

/// The pattern of the content files of an archive of kind `kind`: a
/// `ui_car.json` or an `.acd` file for cars, a `ui_track.json` file for
/// tracks, at any depth.
pub open spec fn content_pattern(kind: ModType) -> Seq<char> {
    match kind {
        ModType::Car => "(^|/)ui_car\\.json$|\\.acd$"@,
        ModType::Track => "(^|/)ui_track\\.json$"@,
    }
}

/// The command that counts the content files among the entries of the
/// archive `remote_zip` itself (`unzip -Z1` lists them one per line),
/// whatever the folder that it is unpacked into already holds.
pub open spec fn check_command(kind: ModType, remote_zip: Seq<char>) -> Seq<char> {
    "unzip -Z1 '"@ + quote_escaped(remote_zip) + "' 2>/dev/null | grep -c -E '"@ + content_pattern(kind)
        + "'"@
}

/// The command that counts the content files among the entries of the
/// archive `remote_zip`; it is run before the archive is unpacked, as
/// unpacking removes it.
pub fn mod_check_command(kind: &ModType, remote_zip: &str) -> (r: String)
    ensures
        r@ == check_command(*kind, remote_zip@),
{
    let zip = escape_single_quotes(remote_zip);
    let mut s = String::new();
    append_str(&mut s, "unzip -Z1 '");
    append_chars(&mut s, zip.as_slice());
    append_str(&mut s, "' 2>/dev/null | grep -c -E '");
    match kind {
        ModType::Car => append_str(&mut s, "(^|/)ui_car\\.json$|\\.acd$"),
        ModType::Track => append_str(&mut s, "(^|/)ui_track\\.json$"),
    }
    append_str(&mut s, "'");
    s
}

/// The number of content files that the check command printed: its
/// trimmed output read as a number, 0 where it is not one.
pub open spec fn content_file_count(output: Seq<char>) -> nat {
    match parse_unsigned(trim(output), usize::MAX as nat) {
        Some(n) => n,
        None => 0,
    }
}

/// The message of an archive without content files.
pub open spec fn no_content_message() -> Seq<char> {
    "Uploaded mod does not contain valid ui_car.json/ui_track.json or .acd files. Directory structure might be incorrect."@
}

/// The check of an uploaded archive, from what its check command
/// (`check_command`) printed: the archive holds content where the command
/// counted at least one content file among its entries.
pub fn validate_mod_contents(check_output: &str) -> (r: Result<(), ServerManagerError>)
    ensures
        content_file_count(check_output@) > 0 ==> r is Ok,
        content_file_count(check_output@) == 0 ==> (r matches Err(
            ServerManagerError::ValidationError(m),
        ) && m@ == no_content_message()),
{
    let v = str_chars(check_output);
    let t = trim_chars(v.as_slice());
    let count: usize = match crate::decimal::parse_decimal(t.as_slice(), usize::MAX as u64) {
        Some(n) => n as usize,
        None => 0,
    };
    if count == 0 {
        let mut m = String::new();
        append_str(
            &mut m,
            "Uploaded mod does not contain valid ui_car.json/ui_track.json or .acd files. Directory structure might be incorrect.",
        );
        return Err(ServerManagerError::ValidationError(m));
    }
    Ok(())
}

/// The command whose output is the home folder of the SSH user.
pub fn home_command() -> (r: &'static str)
    ensures
        r@ == "echo $HOME"@,
{
    "echo $HOME"
}

/// The path of the configuration file `file_name` of instance `id`, on a
/// host whose `echo $HOME` printed `home_output`.
pub open spec fn config_file_path(home_output: Seq<char>, id: Seq<char>, file_name: Seq<char>) -> Seq<char> {
    trim(home_output) + "/ac-manager/instances/"@ + id + "/ac_files/cfg/"@ + file_name
}

/// The path of the configuration file `file_name` of instance `id`.
pub fn config_path(home_output: &str, id: &str, file_name: &str) -> (r: String)
    ensures
        r@ == config_file_path(home_output@, id@, file_name@),
{
    let v = str_chars(home_output);
    let home = trim_chars(v.as_slice());
    let mut s = String::new();
    append_chars(&mut s, home.as_slice());
    append_str(&mut s, "/ac-manager/instances/");
    append_str(&mut s, id);
    append_str(&mut s, "/ac_files/cfg/");
    append_str(&mut s, file_name);
    s
}

} // verus!
