//! Error types for FreeSWITCH ESL operations.
//!
//! Errors are classified on two axes: connection errors (the session is dead,
//! reconnect) and recoverable errors (the command failed, the connection is
//! still usable).

use crate::commands::originate::OriginateError;
use crate::numeric::{decimal, u64_to_string, usize_to_string};
use crate::text::{
    concat2, trim_start_seq, eq_ignore_ascii_case, starts_with, str_eq_ignore_ascii_case, to_chars,
    from_char_range, push_str,
};
use vstd::prelude::*;

verus! {

broadcast use vstd::string::group_string_axioms;

/// Result type alias for ESL operations.
pub type EslResult<T> = Result<T, EslError>;

/// Error types for ESL operations.
#[derive(Debug)]
pub enum EslError {
    /// IO error from the underlying TCP operations (its message).
    Io(String),
    /// Connection is not established or lost.
    NotConnected,
    /// Authentication failed.
    AuthenticationFailed {
        /// Description from FreeSWITCH (e.g. "invalid" or "user not found").
        reason: String,
    },
    /// Protocol error: invalid message format.
    ProtocolError {
        /// What went wrong in the protocol exchange.
        message: String,
    },
    /// Command returned `-ERR` with an error message from FreeSWITCH.
    CommandFailed {
        /// The full `Reply-Text` value (e.g. `-ERR invalid command`).
        reply_text: String,
    },
    /// Reply-Text did not match the expected `+OK`/`-ERR` protocol format.
    UnexpectedReply {
        /// The full `Reply-Text` value that didn't match `+OK` or `-ERR`.
        reply_text: String,
    },
    /// Timeout waiting for a command reply; the connection remains usable.
    Timeout {
        /// Elapsed time in milliseconds before the operation was abandoned.
        timeout_ms: u64,
    },
    /// Invalid event format.
    InvalidEventFormat {
        /// The unrecognized format string.
        format: String,
    },
    /// JSON parsing error.
    JsonError(String),
    /// XML parsing error.
    XmlError(String),
    /// UTF-8 conversion error (its message).
    Utf8Error(String),
    /// UTF-8 decoding failed for a specific header value during parsing.
    InvalidUtf8InHeader {
        /// Where the bad byte appeared (e.g. `"header"`, `"event header"`).
        context: String,
        /// Header key whose value failed to decode.
        key: String,
    },
    /// Buffer overflow: message too large.
    BufferOverflow {
        /// Actual size in bytes.
        size: usize,
        /// Maximum allowed size in bytes.
        limit: usize,
    },
    /// Invalid header format.
    InvalidHeader {
        /// The malformed header line.
        header: String,
    },
    /// Missing required header.
    MissingHeader {
        /// Name of the header that was expected.
        header: String,
    },
    /// Connection rejected by FreeSWITCH ACL (text/rude-rejection).
    AccessDenied {
        /// Message from the rejection notice.
        reason: String,
    },
    /// Connection closed by remote.
    ConnectionClosed,
    /// Heartbeat/liveness timeout expired.
    HeartbeatExpired {
        /// Configured liveness interval in milliseconds.
        interval_ms: u64,
    },
    /// Invalid UUID format.
    InvalidUuid {
        /// The string that failed UUID validation.
        uuid: String,
    },
    /// Event queue full.
    QueueFull,
    /// Generic error with custom message.
    Generic {
        /// Free-form error description.
        message: String,
    },
    /// Originate command builder error.
    Originate(OriginateError),
    /// Re-exec teardown failed.
    ReexecFailed {
        /// What went wrong during teardown.
        reason: String,
    },
    /// A typed header accessor rejected a value that was present on the wire.
    HeaderParse(String),
}

/// The failure text of an [`EslError::CommandFailed`], split by the prefix
/// FreeSWITCH wrote in front of it.
#[derive(Debug, Clone, Copy, PartialEq, Eq)]
pub enum CommandFailure<'a> {
    /// `-ERR <text>`, with the text after an optional `:` and one space.
    Error(&'a str),
    /// `-USAGE: <text>`, with one space consumed after the colon.
    Usage(&'a str),
    /// Neither prefix was found: the whole reply text.
    Unprefixed(&'a str),
}

impl<'a> CommandFailure<'a> {
    /// The text behind the prefix, or `None` when there was no prefix to peel.
    pub fn payload(self) -> (r: Option<&'a str>)
        ensures
            match self {
                CommandFailure::Error(t) => r == Some(t),
                CommandFailure::Usage(t) => r == Some(t),
                CommandFailure::Unprefixed(_) => r is None,
            },
    {
        match self {
            CommandFailure::Error(text) => Some(text),
            CommandFailure::Usage(text) => Some(text),
            CommandFailure::Unprefixed(_) => None,
        }
    }
}

/// Name for `char::is_alphanumeric` (Unicode `Alphabetic` or `Numeric`).
pub uninterp spec fn unicode_alphanumeric(c: char) -> bool;

/// ASCII letters and digits.
pub open spec fn ascii_alphanumeric(c: char) -> bool {
    ('a' <= c && c <= 'z') || ('A' <= c && c <= 'Z') || ('0' <= c && c <= '9')
}

/// Calls `char::is_alphanumeric`. Its result is named; for an ASCII character
/// it is true exactly for letters and digits.
#[verifier::external_body]
fn is_alphanumeric(c: char) -> (r: bool)
    ensures
        r == unicode_alphanumeric(c),
        (c as u32) < 128 ==> (r == ascii_alphanumeric(c)),
{
    c.is_alphanumeric()
}

/// A word character: alphanumeric or `_`.
pub open spec fn word_char(c: char) -> bool {
    unicode_alphanumeric(c) || c == '_'
}

/// `rest` after dropping an optional `:` and then an optional space.
pub open spec fn peeled_separator(rest: Seq<char>) -> Seq<char> {
    let r1 = if rest.len() > 0 && rest[0] == ':' { rest.skip(1) } else { rest };
    if r1.len() > 0 && r1[0] == ' ' { r1.skip(1) } else { r1 }
}

/// `text` with `prefix` peeled off, unless it is absent or a word character
/// follows it.
pub open spec fn peeled_prefix(text: Seq<char>, prefix: Seq<char>) -> Option<Seq<char>> {
    if starts_with(text, prefix) {
        let rest = text.skip(prefix.len() as int);
        if rest.len() > 0 && word_char(rest[0]) {
            None
        } else {
            Some(peeled_separator(rest))
        }
    } else {
        None
    }
}

/// Calls `str::trim_start`, which drops the leading Unicode `White_Space`
/// characters (see [`trim_start_seq`]); the result is a suffix of the input.
#[verifier::external_body]
fn trim_start(s: &str) -> (r: &str)
    ensures
        r@ == trim_start_seq(s@),
        r@.len() <= s@.len(),
        r@ == s@.skip(s@.len() - r@.len()),
{
    s.trim_start()
}

/// Peel `prefix` off `text` (see [`peeled_prefix`]), returning a suffix of it.
fn peel_prefix<'a>(text: &'a str, prefix: &str) -> (r: Option<&'a str>)
    ensures
        match r {
            Some(p) => peeled_prefix(text@, prefix@) == Some(p@),
            None => peeled_prefix(text@, prefix@) is None,
        },
{
    let tv = to_chars(text);
    if !crate::text::chars_start_with(&tv, prefix) {
        return None;
    }
    let n = to_chars(prefix).len();
    let mut start = n;
    if start < tv.len() {
        let c = tv[start];
        if is_alphanumeric(c) || c == '_' {
            return None;
        }
    }
    if start < tv.len() && tv[start] == ':' {
        start = start + 1;
    }
    if start < tv.len() && tv[start] == ' ' {
        start = start + 1;
    }
    let r = text.substring_char(start, tv.len());
    proof {
        let rest = text@.skip(n as int);
        let r1 = if rest.len() > 0 && rest[0] == ':' { rest.skip(1) } else { rest };
        assert(r1 == text@.skip(if rest.len() > 0 && rest[0] == ':' { n + 1 } else { n as int }));
        assert(r@ =~= peeled_separator(rest));
    }
    Some(r)
}

/// The split of a failure text (already trimmed at the start) by its prefix.
pub open spec fn spec_command_failure(text: Seq<char>) -> (int, Seq<char>) {
    match peeled_prefix(text, "-ERR"@) {
        Some(p) => (0, p),
        None => match peeled_prefix(text, "-USAGE"@) {
            Some(p) => (1, p),
            None => (2, text),
        },
    }
}

/// Kind and text of a [`CommandFailure`].
pub open spec fn failure_view(f: CommandFailure) -> (int, Seq<char>) {
    match f {
        CommandFailure::Error(t) => (0, t@),
        CommandFailure::Usage(t) => (1, t@),
        CommandFailure::Unprefixed(t) => (2, t@),
    }
}

/// The payload that marks a permission denial.
pub open spec fn permission_denied_payload() -> Seq<char> {
    "permission denied"@
}

impl EslError {
    /// Construct a generic error with a custom message.
    pub fn generic(message: &str) -> (r: EslError)
        ensures
            r matches EslError::Generic { message: m } && m@ == message@,
    {
        EslError::Generic { message: message.to_owned() }
    }

    /// Construct a protocol error with a description.
    pub fn protocol_error(message: &str) -> (r: EslError)
        ensures
            r matches EslError::ProtocolError { message: m } && m@ == message@,
    {
        EslError::ProtocolError { message: message.to_owned() }
    }

    /// Construct an authentication failure with a reason.
    pub fn auth_failed(reason: &str) -> (r: EslError)
        ensures
            r matches EslError::AuthenticationFailed { reason: m } && m@ == reason@,
    {
        EslError::AuthenticationFailed { reason: reason.to_owned() }
    }

    /// Whether the connection is still usable after this error.
    pub open spec fn spec_is_recoverable(&self) -> bool {
        match self {
            EslError::Timeout { .. } => true,
            EslError::CommandFailed { .. } => true,
            EslError::UnexpectedReply { .. } => true,
            EslError::QueueFull => true,
            _ => false,
        }
    }

    /// Whether the TCP session is dead after this error.
    pub open spec fn spec_is_connection_error(&self) -> bool {
        match self {
            EslError::Io(_) => true,
            EslError::NotConnected => true,
            EslError::ConnectionClosed => true,
            EslError::HeartbeatExpired { .. } => true,
            EslError::ProtocolError { .. } => true,
            _ => false,
        }
    }

    /// `true` if the connection is still usable and the caller can retry:
    /// `Timeout`, `CommandFailed`, `UnexpectedReply`, `QueueFull`.
    pub fn is_recoverable(&self) -> (r: bool)
        ensures
            r == self.spec_is_recoverable(),
    {
        match self {
            EslError::Io(_) => false,
            EslError::NotConnected => false,
            EslError::ConnectionClosed => false,
            EslError::AuthenticationFailed { .. } => false,
            EslError::AccessDenied { .. } => false,
            EslError::HeartbeatExpired { .. } => false,
            EslError::Timeout { .. } => true,
            EslError::CommandFailed { .. } => true,
            EslError::UnexpectedReply { .. } => true,
            EslError::QueueFull => true,
            EslError::ProtocolError { .. } => false,
            EslError::InvalidEventFormat { .. } => false,
            EslError::JsonError(_) => false,
            EslError::XmlError(_) => false,
            EslError::Utf8Error(_) => false,
            EslError::InvalidUtf8InHeader { .. } => false,
            EslError::InvalidHeader { .. } => false,
            EslError::MissingHeader { .. } => false,
            EslError::InvalidUuid { .. } => false,
            EslError::HeaderParse(_) => false,
            EslError::BufferOverflow { .. } => false,
            EslError::Originate(_) => false,
            EslError::Generic { .. } => false,
            EslError::ReexecFailed { .. } => false,
        }
    }

    /// `true` if the TCP session is dead and the caller should reconnect:
    /// `Io`, `NotConnected`, `ConnectionClosed`, `HeartbeatExpired`,
    /// `ProtocolError`.
    pub fn is_connection_error(&self) -> (r: bool)
        ensures
            r == self.spec_is_connection_error(),
    {
        match self {
            EslError::Io(_) => true,
            EslError::NotConnected => true,
            EslError::ConnectionClosed => true,
            EslError::AccessDenied { .. } => false,
            EslError::HeartbeatExpired { .. } => true,
            EslError::ProtocolError { .. } => true,
            EslError::BufferOverflow { .. } => false,
            EslError::AuthenticationFailed { .. } => false,
            EslError::CommandFailed { .. } => false,
            EslError::UnexpectedReply { .. } => false,
            EslError::Timeout { .. } => false,
            EslError::QueueFull => false,
            EslError::InvalidEventFormat { .. } => false,
            EslError::JsonError(_) => false,
            EslError::XmlError(_) => false,
            EslError::Utf8Error(_) => false,
            EslError::InvalidUtf8InHeader { .. } => false,
            EslError::InvalidHeader { .. } => false,
            EslError::MissingHeader { .. } => false,
            EslError::InvalidUuid { .. } => false,
            EslError::HeaderParse(_) => false,
            EslError::Originate(_) => false,
            EslError::Generic { .. } => false,
            EslError::ReexecFailed { .. } => false,
        }
    }

    /// Split the failure text of a [`CommandFailed`](Self::CommandFailed) by
    /// its wire prefix. `None` for every other variant.
    pub fn command_failure(&self) -> (r: Option<CommandFailure<'_>>)
        ensures
            match self {
                EslError::CommandFailed { reply_text } => r matches Some(f) && failure_view(f)
                    == spec_command_failure(trim_start_seq(reply_text@)),
                _ => r is None,
            },
    {
        match self {
            EslError::CommandFailed { reply_text } => {
                let text = trim_start(reply_text.as_str());
                match peel_prefix(text, "-ERR") {
                    Some(p) => Some(CommandFailure::Error(p)),
                    None => match peel_prefix(text, "-USAGE") {
                        Some(p) => Some(CommandFailure::Usage(p)),
                        None => Some(CommandFailure::Unprefixed(text)),
                    },
                }
            },
            _ => None,
        }
    }

    /// `true` if a command was rejected for lack of permission: an `-ERR`
    /// failure whose payload starts with `permission denied` (ASCII case
    /// ignored).
    pub fn is_permission_denied(&self) -> (r: bool)
        ensures
            r == (match self {
                EslError::CommandFailed { reply_text } => {
                    let f = spec_command_failure(trim_start_seq(reply_text@));
                    f.0 == 0 && f.1.len() >= 17 && eq_ignore_ascii_case(
                        f.1.take(17),
                        permission_denied_payload(),
                    )
                },
                _ => false,
            }),
    {
        match self.command_failure() {
            Some(CommandFailure::Error(payload)) => {
                let pv = to_chars(payload);
                if pv.len() < 17 {
                    return false;
                }
                let head = from_char_range(&pv, 0, 17);
                assert(pv@.subrange(0, 17) =~= payload@.take(17));
                str_eq_ignore_ascii_case(head.as_str(), "permission denied")
            },
            _ => false,
        }
    }
}

impl From<OriginateError> for EslError {
    fn from(e: OriginateError) -> (r: EslError) {
        EslError::Originate(e)
    }
}

impl vstd::std_specs::convert::FromSpecImpl<OriginateError> for EslError {
    open spec fn obeys_from_spec() -> bool {
        true
    }

    open spec fn from_spec(e: OriginateError) -> EslError {
        EslError::Originate(e)
    }
}

impl EslError {
    /// The error's message.
    pub open spec fn text_view(self) -> Seq<char> {
        match self {
            EslError::Io(m) => "IO error: "@ + m@,
            EslError::NotConnected => "Not connected to FreeSWITCH"@,
            EslError::AuthenticationFailed { reason } => "Authentication failed: "@ + reason@,
            EslError::ProtocolError { message } => "Protocol error: "@ + message@,
            EslError::CommandFailed { reply_text } => "Command failed: "@ + reply_text@,
            EslError::UnexpectedReply { reply_text } => "Unexpected reply: "@ + reply_text@,
            EslError::Timeout { timeout_ms } => "Operation timed out after "@ + decimal(timeout_ms as nat) + "ms"@,
            EslError::InvalidEventFormat { format } => "Invalid event format: "@ + format@,
            EslError::JsonError(m) => "JSON parsing error: "@ + m@,
            EslError::XmlError(m) => "XML parsing error: "@ + m@,
            EslError::Utf8Error(m) => "UTF-8 conversion error: "@ + m@,
            EslError::InvalidUtf8InHeader { context, key } => "invalid UTF-8 in "@ + context@ + " '"@ + key@ + "'"@,
            EslError::BufferOverflow { size, limit } => "Buffer overflow: message size "@ + decimal(size as nat) + " exceeds limit "@ + decimal(limit as nat),
            EslError::InvalidHeader { header } => "Invalid header format: "@ + header@,
            EslError::MissingHeader { header } => "Missing required header: "@ + header@,
            EslError::AccessDenied { reason } => "Access denied: "@ + reason@,
            EslError::ConnectionClosed => "Connection closed by FreeSWITCH"@,
            EslError::HeartbeatExpired { interval_ms } => "Heartbeat expired after "@ + decimal(interval_ms as nat) + "ms without traffic"@,
            EslError::InvalidUuid { uuid } => "Invalid UUID format: "@ + uuid@,
            EslError::QueueFull => "Event queue is full - dropping events"@,
            EslError::Generic { message } => "ESL error: "@ + message@,
            EslError::Originate(e) => "Originate error: "@ + e.text_view(),
            EslError::ReexecFailed { reason } => "Re-exec teardown failed: "@ + reason@,
            EslError::HeaderParse(m) => "header parse error: "@ + m@,
        }
    }

    /// Human-readable message.
    pub fn to_string(&self) -> (r: String)
        ensures
            r@ == self.text_view(),
    {
        match self {
            EslError::Io(m) => concat2("IO error: ", m.as_str()),
            EslError::NotConnected => "Not connected to FreeSWITCH".to_owned(),
            EslError::AuthenticationFailed { reason } => concat2("Authentication failed: ", reason.as_str()),
            EslError::ProtocolError { message } => concat2("Protocol error: ", message.as_str()),
            EslError::CommandFailed { reply_text } => concat2("Command failed: ", reply_text.as_str()),
            EslError::UnexpectedReply { reply_text } => concat2("Unexpected reply: ", reply_text.as_str()),
            EslError::Timeout { timeout_ms } => {
                let mut r = concat2("Operation timed out after ", u64_to_string(*timeout_ms).as_str());
                push_str(&mut r, "ms");
                r
            },
            EslError::InvalidEventFormat { format } => concat2("Invalid event format: ", format.as_str()),
            EslError::JsonError(m) => concat2("JSON parsing error: ", m.as_str()),
            EslError::XmlError(m) => concat2("XML parsing error: ", m.as_str()),
            EslError::Utf8Error(m) => concat2("UTF-8 conversion error: ", m.as_str()),
            EslError::InvalidUtf8InHeader { context, key } => {
                let mut r = concat2("invalid UTF-8 in ", context.as_str());
                push_str(&mut r, " '");
                push_str(&mut r, key.as_str());
                push_str(&mut r, "'");
                r
            },
            EslError::BufferOverflow { size, limit } => {
                let mut r = concat2("Buffer overflow: message size ", usize_to_string(*size).as_str());
                push_str(&mut r, " exceeds limit ");
                push_str(&mut r, usize_to_string(*limit).as_str());
                r
            },
            EslError::InvalidHeader { header } => concat2("Invalid header format: ", header.as_str()),
            EslError::MissingHeader { header } => concat2("Missing required header: ", header.as_str()),
            EslError::AccessDenied { reason } => concat2("Access denied: ", reason.as_str()),
            EslError::ConnectionClosed => "Connection closed by FreeSWITCH".to_owned(),
            EslError::HeartbeatExpired { interval_ms } => {
                let mut r = concat2("Heartbeat expired after ", u64_to_string(*interval_ms).as_str());
                push_str(&mut r, "ms without traffic");
                r
            },
            EslError::InvalidUuid { uuid } => concat2("Invalid UUID format: ", uuid.as_str()),
            EslError::QueueFull => "Event queue is full - dropping events".to_owned(),
            EslError::Generic { message } => concat2("ESL error: ", message.as_str()),
            EslError::Originate(e) => {
                let t = e.to_string();
                concat2("Originate error: ", t.as_str())
            },
            EslError::ReexecFailed { reason } => concat2("Re-exec teardown failed: ", reason.as_str()),
            EslError::HeaderParse(m) => concat2("header parse error: ", m.as_str()),
        }
    }
}

} // verus!
