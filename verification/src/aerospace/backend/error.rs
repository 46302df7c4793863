//! What can go wrong when talking to AeroSpace.

use vstd::prelude::*;
use vstd::string::StringExecFns;

use crate::text::{decimal_spec, decimal_text, signed_decimal_spec, signed_decimal_text};

verus! {

/// A failure to talk to AeroSpace or to make sense of its answer.
#[derive(Debug)]
pub enum AerospaceBackendError {
    /// The `USER` environment variable, which names the socket, is not set.
    UnknownUser,
    /// Nothing listens on the socket at `path`.
    UnavailableAerospace { path: String, message: String },
    /// Reading from or writing to the socket failed.
    Io { message: String },
    /// The server speaks another protocol version.
    IncompatibleVersion { client_version: u32, server_version: u32 },
    /// The server's answer is not UTF-8 text.
    InvalidUtf8,
    /// The request could not be encoded.
    Serialize { message: String },
    /// The answer to `command` is not the JSON that was expected.
    Deserialize { command: String },
    /// The command line tool could not run `command`, or `command` failed;
    /// `message` says why.
    Execute { command: String, message: String },
    /// The server ran `command` and it failed.
    CommandFailed { command: String, exit_code: i32, stderr: String },
}

/// The contents of an [`AerospaceBackendError`].
pub enum AerospaceBackendErrorView {
    UnknownUser,
    UnavailableAerospace { path: Seq<char>, message: Seq<char> },
    Io { message: Seq<char> },
    IncompatibleVersion { client_version: u32, server_version: u32 },
    InvalidUtf8,
    Serialize { message: Seq<char> },
    Deserialize { command: Seq<char> },
    Execute { command: Seq<char>, message: Seq<char> },
    CommandFailed { command: Seq<char>, exit_code: i32, stderr: Seq<char> },
}

impl View for AerospaceBackendError {
    type V = AerospaceBackendErrorView;

    open spec fn view(&self) -> AerospaceBackendErrorView {
        match self {
            AerospaceBackendError::UnknownUser => AerospaceBackendErrorView::UnknownUser,
            AerospaceBackendError::UnavailableAerospace { path, message } =>
                AerospaceBackendErrorView::UnavailableAerospace { path: path@, message: message@ },
            AerospaceBackendError::Io { message } => AerospaceBackendErrorView::Io { message: message@ },
            AerospaceBackendError::IncompatibleVersion { client_version, server_version } =>
                AerospaceBackendErrorView::IncompatibleVersion { client_version: *client_version, server_version: *server_version },
            AerospaceBackendError::InvalidUtf8 => AerospaceBackendErrorView::InvalidUtf8,
            AerospaceBackendError::Serialize { message } => AerospaceBackendErrorView::Serialize { message: message@ },
            AerospaceBackendError::Deserialize { command } => AerospaceBackendErrorView::Deserialize { command: command@ },
            AerospaceBackendError::Execute { command, message } =>
                AerospaceBackendErrorView::Execute { command: command@, message: message@ },
            AerospaceBackendError::CommandFailed { command, exit_code, stderr } =>
                AerospaceBackendErrorView::CommandFailed { command: command@, exit_code: *exit_code, stderr: stderr@ },
        }
    }
}

impl DeepView for AerospaceBackendError {
    type V = AerospaceBackendErrorView;

    open spec fn deep_view(&self) -> AerospaceBackendErrorView {
        self@
    }
}

/// What a backend error says.
pub open spec fn backend_message(e: AerospaceBackendErrorView) -> Seq<char> {
    match e {
        AerospaceBackendErrorView::UnknownUser => "$USER environment variable is not set"@,
        AerospaceBackendErrorView::UnavailableAerospace { path, .. } => "unable to connect to AeroSpace at "@ + path,
        AerospaceBackendErrorView::Io { message } => "I/O error on AeroSpace socket: "@ + message,
        AerospaceBackendErrorView::IncompatibleVersion { client_version, server_version } =>
            "AeroSpace protocol version mismatch (client: "@ + decimal_spec(client_version as nat) + ", server: "@
                + decimal_spec(server_version as nat) + ")"@,
        AerospaceBackendErrorView::InvalidUtf8 => "AeroSpace response is not valid UTF-8"@,
        AerospaceBackendErrorView::Serialize { message } => "failed to serialize AeroSpace request: "@ + message,
        AerospaceBackendErrorView::Deserialize { command } => "failed to deserialize AeroSpace response to `"@ + command + "`"@,
        AerospaceBackendErrorView::Execute { command, message } => "AeroSpace command `"@ + command + "` could not run: "@ + message,
        AerospaceBackendErrorView::CommandFailed { command, exit_code, stderr } =>
            "AeroSpace command `"@ + command + "` failed (exit "@ + signed_decimal_spec(exit_code as int) + "): "@ + stderr,
    }
}

impl AerospaceBackendError {
    /// What went wrong, in words (see [`backend_message`]).
    pub fn message(&self) -> (r: String)
        ensures
            r@ == backend_message(self@),
    {
        match self {
            AerospaceBackendError::UnknownUser => String::from_str("$USER environment variable is not set"),
            AerospaceBackendError::UnavailableAerospace { path, .. } => {
                let mut out = String::from_str("unable to connect to AeroSpace at ");
                out.append(path.as_str());
                out
            },
            AerospaceBackendError::Io { message } => {
                let mut out = String::from_str("I/O error on AeroSpace socket: ");
                out.append(message.as_str());
                out
            },
            AerospaceBackendError::IncompatibleVersion { client_version, server_version } => {
                let mut out = String::from_str("AeroSpace protocol version mismatch (client: ");
                let client = decimal_text(*client_version as u64);
                out.append(client.as_str());
                out.append(", server: ");
                let server = decimal_text(*server_version as u64);
                out.append(server.as_str());
                out.append(")");
                out
            },
            AerospaceBackendError::InvalidUtf8 => String::from_str("AeroSpace response is not valid UTF-8"),
            AerospaceBackendError::Serialize { message } => {
                let mut out = String::from_str("failed to serialize AeroSpace request: ");
                out.append(message.as_str());
                out
            },
            AerospaceBackendError::Deserialize { command } => {
                let mut out = String::from_str("failed to deserialize AeroSpace response to `");
                out.append(command.as_str());
                out.append("`");
                out
            },
            AerospaceBackendError::Execute { command, message } => {
                let mut out = String::from_str("AeroSpace command `");
                out.append(command.as_str());
                out.append("` could not run: ");
                out.append(message.as_str());
                out
            },
            AerospaceBackendError::CommandFailed { command, exit_code, stderr } => {
                let mut out = String::from_str("AeroSpace command `");
                out.append(command.as_str());
                out.append("` failed (exit ");
                let code = signed_decimal_text(*exit_code);
                out.append(code.as_str());
                out.append("): ");
                out.append(stderr.as_str());
                out
            },
        }
    }
}

} // verus!
