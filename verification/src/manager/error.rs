//! The errors of the manager and the messages that it shows for them.
use vstd::prelude::*;
use crate::decimal::{decimal, fmt_decimal};
use crate::text::{append_chars, append_str};

verus! {

/// Where and why an INI text could not be read: line, column, message.
pub struct IniParseError {
    pub line: usize,
    pub col: usize,
    pub msg: String,
}

/// An error of the manager. The first three carry the text of the
/// failure that the SSH session, the file system or the JSON reader
/// reported.
pub enum ServerManagerError {
    SshError(String),
    IoError(String),
    JsonError(String),
    IniError(IniParseError),
    SetupError(String),
    ValidationError(String),
    SteamCmdError(String),
    CryptoError(String),
}

/// The text of an INI parse error: `line:col message`.
pub open spec fn ini_error_text(line: usize, col: usize, msg: Seq<char>) -> Seq<char> {
    decimal(line as nat) + ":"@ + decimal(col as nat) + " "@ + msg
}

/// The message shown for an error: a heading for its kind, then its text.
pub open spec fn error_message(e: ServerManagerError) -> Seq<char> {
    match e {
        ServerManagerError::SshError(s) => "SSH Error: "@ + s@,
        ServerManagerError::IoError(s) => "IO Error: "@ + s@,
        ServerManagerError::JsonError(s) => "JSON Serialization Error: "@ + s@,
        ServerManagerError::IniError(p) => "INI Parsing Error: "@ + ini_error_text(
            p.line,
            p.col,
            p.msg@,
        ),
        ServerManagerError::SetupError(s) => "Server Setup Error: "@ + s@,
        ServerManagerError::ValidationError(s) => "Validation Error: "@ + s@,
        ServerManagerError::SteamCmdError(s) => "SteamCMD Error: "@ + s@,
        ServerManagerError::CryptoError(s) => "Crypto Error: "@ + s@,
    }
}

impl ServerManagerError {
    /// The message shown for this error.
    pub fn message(&self) -> (r: String)
        ensures
            r@ == error_message(*self),
    {
        let mut r = String::new();
        match self {
            ServerManagerError::SshError(s) => {
                append_str(&mut r, "SSH Error: ");
                append_str(&mut r, s.as_str());
            },
            ServerManagerError::IoError(s) => {
                append_str(&mut r, "IO Error: ");
                append_str(&mut r, s.as_str());
            },
            ServerManagerError::JsonError(s) => {
                append_str(&mut r, "JSON Serialization Error: ");
                append_str(&mut r, s.as_str());
            },
            ServerManagerError::IniError(p) => {
                append_str(&mut r, "INI Parsing Error: ");
                let line = fmt_decimal(p.line as u64);
                append_chars(&mut r, line.as_slice());
                append_str(&mut r, ":");
                let col = fmt_decimal(p.col as u64);
                append_chars(&mut r, col.as_slice());
                append_str(&mut r, " ");
                append_str(&mut r, p.msg.as_str());
            },
            ServerManagerError::SetupError(s) => {
                append_str(&mut r, "Server Setup Error: ");
                append_str(&mut r, s.as_str());
            },
            ServerManagerError::ValidationError(s) => {
                append_str(&mut r, "Validation Error: ");
                append_str(&mut r, s.as_str());
            },
            ServerManagerError::SteamCmdError(s) => {
                append_str(&mut r, "SteamCMD Error: ");
                append_str(&mut r, s.as_str());
            },
            ServerManagerError::CryptoError(s) => {
                append_str(&mut r, "Crypto Error: ");
                append_str(&mut r, s.as_str());
            },
        }
        r
    }
}

} // verus!
