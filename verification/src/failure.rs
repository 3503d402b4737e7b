//! What can end a run before its summary.

use vstd::prelude::*;
use crate::text::{decimal, decimal_string, signed_decimal, signed_decimal_string};

verus! {

/// Why a run stopped.
#[derive(Clone, Debug, PartialEq, Eq)]
pub enum Failure {
    /// A cache answered a probe with a status code other than 200 and 404.
    HTTPFailed(u16),
    /// A probe got no answer at all: the connection, the name lookup, the
    /// TLS handshake or the wait for the response failed. Holds the cause as
    /// the transport worded it.
    Transport(String),
    /// Nix exited unsuccessfully.
    Nix { code: i32, stderr: String },
    /// A path that does not have the shape of a store path.
    InvalidStorePath(String),
    /// No binary cache was given to check against.
    NoBinaryCaches,
    /// `nix build` reported no build at all.
    NoBuild,
    /// The build of an installable has no output named `out`.
    NoOutPath { installable: String },
    /// A command printed something that is not UTF-8.
    InvalidUtf8,
    /// A command printed something that is not the JSON expected of it.
    /// Holds the decoder's complaint.
    Json(String),
}

/// The text of an error, as `Failure::message` writes it.
pub open spec fn message_of(error: Failure) -> Seq<char> {
    match error {
        Failure::HTTPFailed(status) => "Unstable to complete HTTP request: "@ + decimal(
            status as nat,
        ),
        Failure::Transport(cause) => "Unable to reach binary cache: "@ + cause@,
        Failure::Nix { code, stderr } => "Nix exited with code "@ + signed_decimal(code as int)
            + ": "@ + stderr@,
        Failure::InvalidStorePath(path) => "Not a store path: "@ + path@,
        Failure::NoBinaryCaches => "No binary cache to check"@,
        Failure::NoBuild => "Unable to parse `nix build` output!"@,
        Failure::NoOutPath { installable } => "Unable to find output `out` for installable "@
            + installable@,
        Failure::InvalidUtf8 => "Command output is not valid UTF-8"@,
        Failure::Json(cause) => "Unable to parse JSON: "@ + cause@,
    }
}

impl Failure {
    /// The error in words, for the user.
    pub fn message(&self) -> (text: String)
        ensures
            text@ == message_of(*self),
    {
        match self {
            Failure::HTTPFailed(status) => {
                let mut text = String::from_str("Unstable to complete HTTP request: ");
                let digits = decimal_string(*status as u64);
                text.append(digits.as_str());
                text
            },
            Failure::Transport(cause) => {
                let mut text = String::from_str("Unable to reach binary cache: ");
                text.append(cause.as_str());
                text
            },
            Failure::Nix { code, stderr } => {
                let mut text = String::from_str("Nix exited with code ");
                let digits = signed_decimal_string(*code as i64);
                text.append(digits.as_str());
                text.append(": ");
                text.append(stderr.as_str());
                text
            },
            Failure::InvalidStorePath(path) => {
                let mut text = String::from_str("Not a store path: ");
                text.append(path.as_str());
                text
            },
            Failure::NoBinaryCaches => String::from_str("No binary cache to check"),
            Failure::NoBuild => String::from_str("Unable to parse `nix build` output!"),
            Failure::NoOutPath { installable } => {
                let mut text = String::from_str("Unable to find output `out` for installable ");
                text.append(installable.as_str());
                text
            },
            Failure::InvalidUtf8 => String::from_str("Command output is not valid UTF-8"),
            Failure::Json(cause) => {
                let mut text = String::from_str("Unable to parse JSON: ");
                text.append(cause.as_str());
                text
            },
        }
    }
}

} // verus!
