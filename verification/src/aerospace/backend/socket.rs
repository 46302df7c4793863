//! What the socket backend decides: where the socket is, whether the
//! server speaks the same protocol, how messages are framed, and what an
//! answer means. The socket itself is opened, written and read elsewhere.

use vstd::prelude::*;
use vstd::string::StringExecFns;
use vstd::utf8::{decode_utf8, valid_utf8};

use crate::aerospace::backend::common::{command_name, AerospaceCommand};
use crate::aerospace::backend::error::{AerospaceBackendError, AerospaceBackendErrorView};
use crate::json::{
    member, member_spec, parse_json, required_i32, required_i32_spec, required_string,
    required_string_spec, spec_parse_json, FromJson, JsonValue,
};

verus! {

/// A socket backend that has not agreed on the protocol yet.
pub struct ConnectingSocketState;

/// A socket backend that has agreed on the protocol.
pub struct OpenSocketState;

/// The version of the socket protocol that the library speaks.
pub const SOCKET_PROTOCOL_VERSION: u32 = 1;

/// Where AeroSpace listens for `user`.
pub open spec fn socket_path_spec(user: Seq<char>) -> Seq<char> {
    "/tmp/bobko.aerospace-"@ + user + ".sock"@
}

/// Where AeroSpace listens for `user` (see [`socket_path_spec`]).
pub fn socket_path_for(user: &str) -> (r: String)
    ensures
        r@ == socket_path_spec(user@),
{
    let mut path = String::from_str("/tmp/bobko.aerospace-");
    path.append(user);
    path.append(".sock");
    path
}

/// Accepts the server's protocol version where it is the library's, and
/// refuses any other as [`AerospaceBackendError::IncompatibleVersion`].
pub fn check_protocol_version(server_version: u32) -> (r: Result<(), AerospaceBackendError>)
    ensures
        r is Ok <==> server_version == SOCKET_PROTOCOL_VERSION,
        r matches Err(e) ==> e@ == (AerospaceBackendErrorView::IncompatibleVersion {
            client_version: SOCKET_PROTOCOL_VERSION,
            server_version,
        }),
{
    if server_version != SOCKET_PROTOCOL_VERSION {
        return Err(AerospaceBackendError::IncompatibleVersion { client_version: SOCKET_PROTOCOL_VERSION, server_version });
    }
    Ok(())
}

/// The four bytes of `n`, least significant first.
pub open spec fn le_bytes(n: u32) -> Seq<u8> {
    seq![(n % 256) as u8, ((n / 256) % 256) as u8, ((n / 65536) % 256) as u8, ((n / 16777216) % 256) as u8]
}

/// The number that four bytes hold, least significant first.
pub open spec fn le_value(bytes: Seq<u8>) -> int {
    bytes[0] + 256 * bytes[1] + 65536 * bytes[2] + 16777216 * bytes[3]
}

/// A message as it goes over the socket: its length in four bytes, least
/// significant first, then the message.
pub fn frame_payload(payload: &[u8]) -> (r: Vec<u8>)
    requires
        payload@.len() <= u32::MAX,
    ensures
        r@ == le_bytes(payload@.len() as u32) + payload@,
{
    let len = payload.len() as u32;
    let mut out: Vec<u8> = Vec::new();
    out.push((len % 256) as u8);
    out.push(((len / 256) % 256) as u8);
    out.push(((len / 65536) % 256) as u8);
    out.push(((len / 16777216) % 256) as u8);
    let mut i: usize = 0;
    while i < payload.len()
        invariant
            i <= payload.len(),
            len == payload@.len(),
            out@ == le_bytes(len) + payload@.take(i as int),
        decreases payload.len() - i,
    {
        out.push(payload[i]);
        assert(out@ =~= le_bytes(len) + payload@.take(i + 1));
        i = i + 1;
    }
    assert(payload@.take(i as int) =~= payload@);
    out
}

/// The length that a four-byte header announces.
pub fn frame_length(header: &[u8]) -> (r: u32)
    requires
        header@.len() == 4,
    ensures
        r == le_value(header@),
{
    let b0 = header[0] as u32;
    let b1 = header[1] as u32;
    let b2 = header[2] as u32;
    let b3 = header[3] as u32;
    b0 + 256 * b1 + 65536 * b2 + 16777216 * b3
}

/// Reading a frame's length gives back the length that framing wrote.
pub proof fn law_frame_length_round_trip(len: u32)
    ensures
        le_value(le_bytes(len)) == len,
{
    let b = le_bytes(len);
    assert(b[0] == len % 256);
    assert(b[1] == (len / 256) % 256);
    assert(b[2] == (len / 65536) % 256);
    assert(b[3] == (len / 16777216) % 256);
    assert(len / 16777216 < 256);
    assert((len / 16777216) % 256 == len / 16777216);
    assert(len == len % 256 + 256 * ((len / 256) % 256) + 65536 * ((len / 65536) % 256) + 16777216 * (len / 16777216)) by (nonlinear_arith)
        requires
            0 <= len < 0x1_0000_0000,
    {
        assert(len / 256 == (len / 256) % 256 + 256 * (len / 65536)) by (nonlinear_arith)
            requires
                0 <= len,
        {
            assert(len / 65536 == (len / 256) / 256);
        }
        assert(len / 65536 == (len / 65536) % 256 + 256 * (len / 16777216)) by (nonlinear_arith)
            requires
                0 <= len,
        {
            assert(len / 16777216 == (len / 65536) / 256);
        }
    }
}

/// The arguments of a request: the command's name, then its arguments.
pub fn command_args(command: &AerospaceCommand, args: &[&str]) -> (r: Vec<String>)
    ensures
        r@.map_values(|a: String| a@) == seq![command_name(*command)] + args@.map_values(|a: &str| a@),
{
    let mut out: Vec<String> = Vec::new();
    out.push(String::from_str(command.as_str()));
    let mut i: usize = 0;
    while i < args.len()
        invariant
            i <= args.len(),
            out@.map_values(|a: String| a@) == seq![command_name(*command)] + args@.take(i as int).map_values(|a: &str| a@),
        decreases args.len() - i,
    {
        let arg = String::from_str(args[i]);
        let ghost before = out@;
        out.push(arg);
        assert(out@ == before.push(arg));
        assert(out@.map_values(|a: String| a@) =~= before.map_values(|a: String| a@).push(arg@));
        assert(args@.take(i + 1).map_values(|a: &str| a@) =~= args@.take(i as int).map_values(|a: &str| a@).push(args@[i as int]@));
        i = i + 1;
    }
    assert(args@.take(i as int) =~= args@);
    out
}

/// The arguments of a query request: the command's name, `--json`, then
/// its arguments.
pub fn query_args(command: &AerospaceCommand, args: &[&str]) -> (r: Vec<String>)
    ensures
        r@.map_values(|a: String| a@) == seq![command_name(*command), "--json"@] + args@.map_values(|a: &str| a@),
{
    let mut full: Vec<&str> = Vec::new();
    full.push("--json");
    let mut i: usize = 0;
    while i < args.len()
        invariant
            i <= args.len(),
            full@.map_values(|a: &str| a@) == seq!["--json"@] + args@.take(i as int).map_values(|a: &str| a@),
        decreases args.len() - i,
    {
        let ghost before = full@;
        full.push(args[i]);
        assert(full@.map_values(|a: &str| a@) =~= before.map_values(|a: &str| a@).push(args@[i as int]@));
        assert(args@.take(i + 1).map_values(|a: &str| a@) =~= args@.take(i as int).map_values(|a: &str| a@).push(args@[i as int]@));
        i = i + 1;
    }
    assert(args@.take(i as int) =~= args@);
    let r = command_args(command, full.as_slice());
    assert(seq![command_name(*command)] + full@.map_values(|a: &str| a@) =~= seq![command_name(*command), "--json"@] + args@.map_values(|a: &str| a@));
    r
}

/// The server's answer to a request.
#[derive(Debug)]
pub struct AerospaceServerResponse {
    pub exit_code: i32,
    pub stdout: String,
    pub stderr: String,
    pub server_version_and_hash: String,
}

/// The contents of an [`AerospaceServerResponse`].
pub struct AerospaceServerResponseView {
    pub exit_code: i32,
    pub stdout: Seq<char>,
    pub stderr: Seq<char>,
    pub server_version_and_hash: Seq<char>,
}

impl DeepView for AerospaceServerResponse {
    type V = AerospaceServerResponseView;

    open spec fn deep_view(&self) -> AerospaceServerResponseView {
        AerospaceServerResponseView {
            exit_code: self.exit_code,
            stdout: self.stdout@,
            stderr: self.stderr@,
            server_version_and_hash: self.server_version_and_hash@,
        }
    }
}

impl FromJson for AerospaceServerResponse {
    /// An object with an `exitCode` number that fits in `i32` and
    /// `stdout`, `stderr` and `serverVersionAndHash` strings.
    open spec fn from_json_spec(v: JsonValue) -> Option<AerospaceServerResponseView> {
        match v {
            JsonValue::Object(entries) => {
                let code = required_i32_spec(member_spec(entries@, "exitCode"@));
                let out = required_string_spec(member_spec(entries@, "stdout"@));
                let err = required_string_spec(member_spec(entries@, "stderr"@));
                let version = required_string_spec(member_spec(entries@, "serverVersionAndHash"@));
                if code is Some && out is Some && err is Some && version is Some {
                    Some(AerospaceServerResponseView {
                        exit_code: code->0 as i32,
                        stdout: out->0,
                        stderr: err->0,
                        server_version_and_hash: version->0,
                    })
                } else {
                    None
                }
            },
            _ => None,
        }
    }

    fn from_json(v: &JsonValue) -> (r: Option<AerospaceServerResponse>) {
        match v {
            JsonValue::Object(entries) => {
                let code = required_i32(member(entries, "exitCode"));
                let out = required_string(member(entries, "stdout"));
                let err = required_string(member(entries, "stderr"));
                let version = required_string(member(entries, "serverVersionAndHash"));
                match (code, out, err, version) {
                    (Some(code), Some(out), Some(err), Some(version)) => Some(AerospaceServerResponse {
                        exit_code: code,
                        stdout: out,
                        stderr: err,
                        server_version_and_hash: version,
                    }),
                    _ => None,
                }
            },
            _ => None,
        }
    }
}

/// Calls `String::from_utf8`, which gives back the text that `bytes` encode
/// where they are valid UTF-8, and an error otherwise.
#[verifier::external_body]
fn utf8_text(bytes: Vec<u8>) -> (r: Option<String>)
    ensures
        match r {
            Some(text) => valid_utf8(bytes@) && text@ == decode_utf8(bytes@),
            None => !valid_utf8(bytes@),
        },
{
    String::from_utf8(bytes).ok()
}

/// What a payload from the server means: the response it encodes, or why
/// it does not encode one.
pub open spec fn response_spec(command: AerospaceCommand, payload: Seq<u8>) -> Result<AerospaceServerResponseView, AerospaceBackendErrorView> {
    if !valid_utf8(payload) {
        Err(AerospaceBackendErrorView::InvalidUtf8)
    } else {
        match spec_parse_json(decode_utf8(payload)) {
            Some(v) => match AerospaceServerResponse::from_json_spec(v) {
                Some(response) => Ok(response),
                None => Err(AerospaceBackendErrorView::Deserialize { command: command_name(command) }),
            },
            None => Err(AerospaceBackendErrorView::Deserialize { command: command_name(command) }),
        }
    }
}

/// Reads the server's answer to `command` from a payload (see
/// [`response_spec`]).
pub fn decode_response(command: &AerospaceCommand, payload: Vec<u8>) -> (r: Result<AerospaceServerResponse, AerospaceBackendError>)
    ensures
        match r {
            Ok(response) => response_spec(*command, payload@) == Ok::<AerospaceServerResponseView, AerospaceBackendErrorView>(response.deep_view()),
            Err(e) => response_spec(*command, payload@) == Err::<AerospaceServerResponseView, AerospaceBackendErrorView>(e@),
        },
{
    let ghost bytes = payload@;
    let text = match utf8_text(payload) {
        Some(text) => text,
        None => {
            return Err(AerospaceBackendError::InvalidUtf8);
        },
    };
    let decoded = match parse_json(text.as_str()) {
        Some(v) => AerospaceServerResponse::from_json(&v),
        None => None,
    };
    match decoded {
        Some(response) => Ok(response),
        None => Err(AerospaceBackendError::Deserialize { command: String::from_str(command.as_str()) }),
    }
}

/// What the server printed for `command`, where it succeeded; a non-zero
/// exit code becomes [`AerospaceBackendError::CommandFailed`] with what it
/// printed on its error stream.
pub fn response_output(command: &AerospaceCommand, response: AerospaceServerResponse) -> (r: Result<String, AerospaceBackendError>)
    ensures
        match r {
            Ok(out) => response.exit_code == 0 && out@ == response.stdout@,
            Err(e) => response.exit_code != 0 && e@ == (AerospaceBackendErrorView::CommandFailed {
                command: command_name(*command),
                exit_code: response.exit_code,
                stderr: response.stderr@,
            }),
        },
{
    if response.exit_code != 0 {
        return Err(AerospaceBackendError::CommandFailed {
            command: String::from_str(command.as_str()),
            exit_code: response.exit_code,
            stderr: response.stderr,
        });
    }
    Ok(response.stdout)
}

} // verus!
