//! ESL protocol parsing: message framing, header blocks and event bodies.
//!
//! A message is a `\n\n`-terminated block of `Key: value` lines, optionally
//! followed by a body whose size the `Content-Length` header gives. The
//! parser keeps unconsumed bytes in an [`EslBuffer`] and remembers a message
//! whose headers have arrived but whose body has not.

use crate::buffer::{find_seq, is_first_match, EslBuffer};
use crate::command::EslResponse;
use crate::event::{EslEvent, EslEventType, EventFormat};
use crate::constants::{BUF_CHUNK, MAX_MESSAGE_SIZE};
use crate::error::{EslError, EslResult};
use crate::header_map::{
    insert_all, insert_entry, keys_distinct, lemma_insert_keeps_distinct, lookup, map_entries, map_get_index, map_get_str, map_len, map_new, Entry, HeaderMap,
};
use crate::numeric::{decimal, parse_unsigned, parse_usize, usize_to_string};
use crate::text::{
    concat2, find_char, find_char_from, first_index_of, from_char_range, is_first_index,
    lemma_first_index, lemma_no_index, owned, push_str, str_eq, to_chars, trim, trimmed,
    unicode_upper,
};
use quick_xml::events::Event as XmlEvent;
use serde_json::Value as JsonValue;
use vstd::prelude::*;

verus! {

broadcast use vstd::string::group_string_axioms;

// ---------------------------------------------------------------------------
// Trusted decoding calls
// ---------------------------------------------------------------------------

/// Value of an ASCII hexadecimal digit.
pub open spec fn hex_value(b: u8) -> Option<u8> {
    if 48 <= b <= 57 {
        Some((b - 48) as u8)
    } else if 97 <= b <= 102 {
        Some((b - 87) as u8)
    } else if 65 <= b <= 70 {
        Some((b - 55) as u8)
    } else {
        None
    }
}

/// Percent-decoding: `%` and two hex digits become that byte; every other
/// byte, a `%` without two hex digits after it included, stays as it is.
pub open spec fn percent_decoded(b: Seq<u8>) -> Seq<u8>
    decreases b.len(),
{
    if b.len() == 0 {
        Seq::empty()
    } else if b[0] == 37 && b.len() >= 3 && hex_value(b[1]) is Some && hex_value(b[2]) is Some {
        seq![(hex_value(b[1]).unwrap() * 16 + hex_value(b[2]).unwrap()) as u8] + percent_decoded(
            b.skip(3),
        )
    } else {
        seq![b[0]] + percent_decoded(b.skip(1))
    }
}

/// Calls `percent_encoding::percent_decode_str` and collects the bytes.
#[verifier::external_body]
pub fn percent_decode(raw: &str) -> (r: Vec<u8>)
    ensures
        r@ == percent_decoded(vstd::utf8::encode_utf8(raw@)),
{
    percent_encoding::percent_decode_str(raw).collect()
}

/// Name for the `Display` text of the `Utf8Error` that std reports for bytes
/// that are not UTF-8.
pub uninterp spec fn utf8_error_text(b: Seq<u8>) -> Seq<char>;

/// Calls `String::from_utf8`: `Ok` exactly for valid UTF-8, with the decoded
/// characters; otherwise the error's text.
#[verifier::external_body]
pub fn string_from_utf8(v: Vec<u8>) -> (r: Result<String, String>)
    ensures
        match r {
            Ok(s) => vstd::utf8::valid_utf8(v@) && s@ == vstd::utf8::decode_utf8(v@),
            Err(m) => !vstd::utf8::valid_utf8(v@) && m@ == utf8_error_text(v@),
        },
{
    String::from_utf8(v).map_err(|e| e.utf8_error().to_string())
}

/// Name for `freeswitch_types::normalize_header_key`, which maps a header
/// name to its canonical spelling.
pub uninterp spec fn normalized_header_key(raw: Seq<char>) -> Seq<char>;

/// Calls `freeswitch_types::normalize_header_key`.
#[verifier::external_body]
pub fn normalize_key(raw: &str) -> (r: String)
    ensures
        r@ == normalized_header_key(raw@),
{
    freeswitch_types::headers::normalize_header_key(raw)
}

// ---------------------------------------------------------------------------
// Line and header-block specifications
// ---------------------------------------------------------------------------

/// The pieces of `s` between `\n` characters.
#[verifier::opaque]
pub open spec fn split_lines(s: Seq<char>) -> Seq<Seq<char>>
    decreases s.len(),
{
    match first_index_of(s, '\n') {
        Some(i) => if 0 <= i < s.len() {
            seq![s.take(i)] + split_lines(s.skip(i + 1))
        } else {
            seq![s]
        },
        None => seq![s],
    }
}

/// A parse failure: a protocol error with its message, or an invalid header
/// line.
pub enum Fault {
    Protocol(Seq<char>),
    InvalidHeader(Seq<char>),
    Json(Seq<char>),
    Xml(Seq<char>),
    /// Invalid UTF-8 in a header value: the block's name and the key.
    Utf8InHeader(Seq<char>, Seq<char>),
}

/// `e` is the error that `f` describes.
pub open spec fn error_is(e: EslError, f: Fault) -> bool {
    match f {
        Fault::Protocol(m) => e matches EslError::ProtocolError { message } && message@ == m,
        Fault::InvalidHeader(h) => e matches EslError::InvalidHeader { header } && header@ == h,
        Fault::Json(m) => e matches EslError::JsonError(t) && t@ == m,
        Fault::Xml(m) => e matches EslError::XmlError(t) && t@ == m,
        Fault::Utf8InHeader(c, k) => e matches EslError::InvalidUtf8InHeader { context, key } && context@ == c
            && key@ == k,
    }
}

/// What one header line yields: nothing for a blank line, a key and its
/// percent-decoded value, or a fault. `context` names the block in the UTF-8
/// error message.
pub open spec fn line_outcome(line: Seq<char>, context: Seq<char>) -> Result<Option<Entry>, Fault> {
    let t = trimmed(line);
    if t.len() == 0 {
        Ok(None)
    } else {
        match first_index_of(t, ':') {
            None => Err(Fault::InvalidHeader(t)),
            Some(c) => {
                let key = normalized_header_key(trimmed(t.take(c)));
                let bytes = percent_decoded(vstd::utf8::encode_utf8(trimmed(t.skip(c + 1))));
                if vstd::utf8::valid_utf8(bytes) {
                    Ok(Some((key, vstd::utf8::decode_utf8(bytes))))
                } else {
                    Err(
                        Fault::Protocol(
                            "invalid UTF-8 in "@ + context + " '"@ + key + "': "@ + utf8_error_text(
                                bytes,
                            ),
                        ),
                    )
                }
            },
        }
    }
}

/// The entries after adding the header lines `lines` to `e`, each one set
/// (a repeated key keeps its first position), or the first fault.
pub open spec fn block_outcome(e: Seq<Entry>, lines: Seq<Seq<char>>, context: Seq<char>) -> Result<
    Seq<Entry>,
    Fault,
>
    decreases lines.len(),
{
    if lines.len() == 0 {
        Ok(e)
    } else {
        match line_outcome(lines[0], context) {
            Err(f) => Err(f),
            Ok(None) => block_outcome(e, lines.skip(1), context),
            Ok(Some(en)) => block_outcome(insert_entry(e, en.0, en.1), lines.skip(1), context),
        }
    }
}

// ---------------------------------------------------------------------------
// Line and header-block parsing
// ---------------------------------------------------------------------------

/// Unfolding [`split_lines`] at the first `\n` of `s`, found at `i`.
pub proof fn lemma_split_at(s: Seq<char>, i: int)
    requires
        is_first_index(s, '\n', i),
    ensures
        split_lines(s) == seq![s.take(i)] + split_lines(s.skip(i + 1)),
{
    lemma_first_index(s, '\n', i);
    reveal(split_lines);
}

/// Without a `\n`, [`split_lines`] gives `s` itself.
pub proof fn lemma_split_none(s: Seq<char>)
    requires
        forall|j: int| 0 <= j < s.len() ==> s[j] != '\n',
    ensures
        split_lines(s) == seq![s],
{
    lemma_no_index(s, '\n');
    reveal(split_lines);
}

/// Split `s` at each `\n`.
pub fn split_at_newlines(s: &str) -> (r: Vec<String>)
    ensures
        r@.len() == split_lines(s@).len(),
        forall|k: int| 0 <= k < r@.len() ==> #[trigger] r@[k]@ == split_lines(s@)[k],
{
    let v = to_chars(s);
    let ghost pieces = split_lines(s@);
    let mut out: Vec<String> = Vec::new();
    let ghost mut acc: Seq<Seq<char>> = Seq::empty();
    let mut start: usize = 0;
    assert(s@.skip(0) =~= s@);
    assert(acc + split_lines(s@.skip(0)) =~= pieces);
    loop
        invariant
            v@ == s@,
            pieces == split_lines(s@),
            start <= v.len(),
            acc + split_lines(s@.skip(start as int)) == pieces,
            out@.len() == acc.len(),
            forall|k: int| 0 <= k < out@.len() ==> #[trigger] out@[k]@ == acc[k],
        decreases v.len() - start,
    {
        let ghost rest = s@.skip(start as int);
        match find_char_from(&v, '\n', start) {
            Some(i) => {
                proof {
                    assert forall|j: int| 0 <= j < i - start implies rest[j] != '\n' by {
                        assert(rest[j] == v@[start + j]);
                    }
                    lemma_split_at(rest, i - start);
                    assert(rest.take(i - start) =~= v@.subrange(start as int, i as int));
                    assert(rest.skip(i - start + 1) =~= s@.skip(i + 1));
                }
                let piece = from_char_range(&v, start, i);
                out.push(piece);
                proof {
                    let old_acc = acc;
                    acc = acc.push(rest.take(i - start));
                    assert(acc + split_lines(s@.skip(i + 1)) =~= old_acc + split_lines(rest));
                }
                start = i + 1;
            },
            None => {
                proof {
                    assert forall|j: int| 0 <= j < rest.len() implies rest[j] != '\n' by {
                        assert(rest[j] == v@[start + j]);
                    }
                    lemma_split_none(rest);
                    assert(rest =~= v@.subrange(start as int, v.len() as int));
                }
                let piece = from_char_range(&v, start, v.len());
                out.push(piece);
                proof {
                    let old_acc = acc;
                    acc = acc.push(rest);
                    assert(acc =~= old_acc + split_lines(rest));
                }
                return out;
            },
        }
    }
}

/// Parse one header line (see [`line_outcome`]).
fn parse_header_line(line: &str, context: &str) -> (r: EslResult<Option<(String, String)>>)
    ensures
        match line_outcome(line@, context@) {
            Ok(None) => r matches Ok(None),
            Ok(Some(en)) => r matches Ok(Some(kv)) && kv.0@ == en.0 && kv.1@ == en.1,
            Err(f) => r matches Err(e) && error_is(e, f),
        },
{
    let t = trim(line);
    let tv = to_chars(t);
    if tv.len() == 0 {
        return Ok(None);
    }
    match find_char(&tv, ':') {
        None => {
            proof {
                lemma_no_index(t@, ':');
            }
            Err(EslError::InvalidHeader { header: owned(t) })
        },
        Some(c) => {
            proof {
                lemma_first_index(t@, ':', c as int);
            }
            let head = from_char_range(&tv, 0, c);
            let tail = from_char_range(&tv, c + 1, tv.len());
            assert(head@ =~= t@.take(c as int));
            assert(tail@ =~= t@.skip(c + 1));
            let key = normalize_key(trim(head.as_str()));
            let bytes = percent_decode(trim(tail.as_str()));
            match string_from_utf8(bytes) {
                Ok(value) => Ok(Some((key, value))),
                Err(detail) => {
                    let mut m = concat2("invalid UTF-8 in ", context);
                    push_str(&mut m, " '");
                    push_str(&mut m, key.as_str());
                    push_str(&mut m, "': ");
                    push_str(&mut m, detail.as_str());
                    Err(EslError::ProtocolError { message: m })
                },
            }
        },
    }
}

/// Add the header lines of `block` to `map` (see [`block_outcome`]).
fn parse_block_into(block: &str, context: &str, map: &mut HeaderMap) -> (r: EslResult<()>)
    ensures
        match block_outcome(map_entries(*old(map)), split_lines(block@), context@) {
            Ok(e) => r is Ok && map_entries(*final(map)) == e,
            Err(f) => r matches Err(err) && error_is(err, f),
        },
{
    let lines = split_at_newlines(block);
    let ghost ls = split_lines(block@);
    let ghost e0 = map_entries(*map);
    assert(ls.skip(0) =~= ls);
    let mut i: usize = 0;
    while i < lines.len()
        invariant
            i <= lines.len(),
            lines@.len() == ls.len(),
            ls == split_lines(block@),
            e0 == map_entries(*old(map)),
            forall|k: int| 0 <= k < lines@.len() ==> #[trigger] lines@[k]@ == ls[k],
            block_outcome(map_entries(*map), ls.skip(i as int), context@) == block_outcome(
                e0,
                ls,
                context@,
            ),
        decreases lines.len() - i,
    {
        let ghost cur = map_entries(*map);
        proof {
            assert(lines@[i as int]@ == ls[i as int]);
            assert(ls.skip(i as int)[0] == lines@[i as int]@);
            assert(ls.skip(i as int).skip(1) =~= ls.skip(i + 1));
        }
        match parse_header_line(lines[i].as_str(), context) {
            Ok(None) => {},
            Ok(Some((k, v))) => {
                crate::header_map::map_insert(map, k, v);
            },
            Err(e) => {
                return Err(e);
            },
        }
        i += 1;
    }
    assert(ls.skip(i as int) =~= Seq::<Seq<char>>::empty());
    Ok(())
}

// ---------------------------------------------------------------------------
// Messages
// ---------------------------------------------------------------------------

/// ESL message types.
#[derive(Debug, Clone, PartialEq, Eq)]
pub enum MessageType {
    /// Authentication request from server
    AuthRequest,
    /// Command reply
    CommandReply,
    /// API response
    ApiResponse,
    /// Event message
    Event,
    /// Disconnect notice
    Disconnect,
    /// Connection rejected by ACL (text/rude-rejection)
    RudeRejection,
    /// Unknown message type
    Unknown(String),
}

/// A [`MessageType`] with its unknown content type as characters.
pub enum MessageKind {
    AuthRequest,
    CommandReply,
    ApiResponse,
    Event,
    Disconnect,
    RudeRejection,
    Unknown(Seq<char>),
}

impl MessageType {
    /// The type, as a [`MessageKind`].
    pub open spec fn kind(self) -> MessageKind {
        match self {
            MessageType::AuthRequest => MessageKind::AuthRequest,
            MessageType::CommandReply => MessageKind::CommandReply,
            MessageType::ApiResponse => MessageKind::ApiResponse,
            MessageType::Event => MessageKind::Event,
            MessageType::Disconnect => MessageKind::Disconnect,
            MessageType::RudeRejection => MessageKind::RudeRejection,
            MessageType::Unknown(s) => MessageKind::Unknown(s@),
        }
    }

    /// The kind a `Content-Type` value names.
    pub open spec fn kind_of(ct: Seq<char>) -> MessageKind {
        if ct == "auth/request"@ {
            MessageKind::AuthRequest
        } else if ct == "command/reply"@ {
            MessageKind::CommandReply
        } else if ct == "api/response"@ {
            MessageKind::ApiResponse
        } else if ct == "text/event-plain"@ || ct == "text/event-json"@ || ct == "text/event-xml"@
            || ct == "log/data"@ {
            MessageKind::Event
        } else if ct == "text/disconnect-notice"@ {
            MessageKind::Disconnect
        } else if ct == "text/rude-rejection"@ {
            MessageKind::RudeRejection
        } else {
            MessageKind::Unknown(ct)
        }
    }

    /// Parse message type from a `Content-Type` header value.
    pub fn from_content_type(content_type: &str) -> (r: MessageType)
        ensures
            r.kind() == Self::kind_of(content_type@),
    {
        if str_eq(content_type, "auth/request") {
            MessageType::AuthRequest
        } else if str_eq(content_type, "command/reply") {
            MessageType::CommandReply
        } else if str_eq(content_type, "api/response") {
            MessageType::ApiResponse
        } else if str_eq(content_type, "text/event-plain") || str_eq(content_type, "text/event-json")
            || str_eq(content_type, "text/event-xml") || str_eq(content_type, "log/data") {
            MessageType::Event
        } else if str_eq(content_type, "text/disconnect-notice") {
            MessageType::Disconnect
        } else if str_eq(content_type, "text/rude-rejection") {
            MessageType::RudeRejection
        } else {
            MessageType::Unknown(owned(content_type))
        }
    }

    /// Whether this is [`MessageType::Event`].
    pub fn is_event(&self) -> (r: bool)
        ensures
            r == (self.kind() is Event),
    {
        match self {
            MessageType::Event => true,
            _ => false,
        }
    }
}

/// Parsed ESL message.
#[derive(Debug)]
pub struct EslMessage {
    /// Message type
    pub message_type: MessageType,
    /// Message headers
    pub headers: HeaderMap,
    /// Message body (optional)
    pub body: Option<String>,
}

impl EslMessage {
    /// Create new message.
    pub fn new(message_type: MessageType, headers: HeaderMap, body: Option<String>) -> (r: EslMessage)
        ensures
            r.message_type == message_type,
            map_entries(r.headers) == map_entries(headers),
            crate::channel::opt_view(r.body) == crate::channel::opt_view(body),
    {
        EslMessage { message_type, headers, body }
    }

    /// Convert to an [`EslResponse`] with the same headers and body.
    pub fn into_response(self) -> (r: EslResponse)
        ensures
            r.header_entries() == map_entries(self.headers),
            r.body_view() == crate::channel::opt_view(self.body),
            r.status_view() == crate::command::status_of(
                lookup(map_entries(self.headers), "Reply-Text"@),
            ),
    {
        EslResponse::with_decoding(self.headers, self.body, None, Vec::new())
    }
}

impl EslResponse {
    /// The reply a message carries (see [`EslMessage::into_response`]).
    pub fn from_message(message: EslMessage) -> (r: EslResponse)
        ensures
            r.header_entries() == map_entries(message.headers),
            r.body_view() == crate::channel::opt_view(message.body),
            r.status_view() == crate::command::status_of(
                lookup(map_entries(message.headers), "Reply-Text"@),
            ),
    {
        message.into_response()
    }
}

/// Every documented `Content-Type` names its own kind of message, and only
/// an undocumented one is unknown: `auth/request` is an auth request,
/// `command/reply` a command reply, `api/response` an API response, the
/// three event formats and `log/data` an event, `text/disconnect-notice` a
/// disconnect notice and `text/rude-rejection` a rude rejection; anything
/// else is unknown and keeps its text.
pub proof fn lemma_content_type_kinds(ct: Seq<char>)
    ensures
        (MessageType::kind_of(ct) == MessageKind::AuthRequest) <==> ct == "auth/request"@,
        (MessageType::kind_of(ct) == MessageKind::CommandReply) <==> ct == "command/reply"@,
        (MessageType::kind_of(ct) == MessageKind::ApiResponse) <==> ct == "api/response"@,
        (MessageType::kind_of(ct) == MessageKind::Event) <==> (ct == "text/event-plain"@ || ct
            == "text/event-json"@ || ct == "text/event-xml"@ || ct == "log/data"@),
        (MessageType::kind_of(ct) == MessageKind::Disconnect) <==> ct == "text/disconnect-notice"@,
        (MessageType::kind_of(ct) == MessageKind::RudeRejection) <==> ct == "text/rude-rejection"@,
        (MessageType::kind_of(ct) is Unknown) <==> !(ct == "auth/request"@ || ct == "command/reply"@ || ct
            == "api/response"@ || ct == "text/event-plain"@ || ct == "text/event-json"@ || ct
            == "text/event-xml"@ || ct == "log/data"@ || ct == "text/disconnect-notice"@ || ct
            == "text/rude-rejection"@),
        MessageType::kind_of(ct) matches MessageKind::Unknown(t) ==> t == ct,
{
    reveal_strlit("auth/request");
    reveal_strlit("command/reply");
    reveal_strlit("api/response");
    reveal_strlit("text/event-plain");
    reveal_strlit("text/event-json");
    reveal_strlit("text/event-xml");
    reveal_strlit("log/data");
    reveal_strlit("text/disconnect-notice");
    reveal_strlit("text/rude-rejection");
    let names = seq![
        "auth/request"@,
        "command/reply"@,
        "api/response"@,
        "text/event-plain"@,
        "text/event-json"@,
        "text/event-xml"@,
        "log/data"@,
        "text/disconnect-notice"@,
        "text/rude-rejection"@,
    ];
    assert forall|i: int, j: int| 0 <= i < j < 9 implies names[i] != names[j] by {
        if names[i].len() == names[j].len() {
            assert(names[i][0] != names[j][0] || names[i][5] != names[j][5] || names[i][11] != names[j][11]);
        }
    }
    assert(names[0] == "auth/request"@);
    assert(names[1] == "command/reply"@);
    assert(names[2] == "api/response"@);
    assert(names[3] == "text/event-plain"@);
    assert(names[4] == "text/event-json"@);
    assert(names[5] == "text/event-xml"@);
    assert(names[6] == "log/data"@);
    assert(names[7] == "text/disconnect-notice"@);
    assert(names[8] == "text/rude-rejection"@);
}

// ---------------------------------------------------------------------------
// Framing specification
// ---------------------------------------------------------------------------

/// What the parser waits for.
pub enum ParseStateView {
    Headers,
    Body { kind: MessageKind, headers: Seq<Entry>, length: nat },
}

/// What one parse attempt gives.
pub enum Outcome {
    NeedMore,
    Message { kind: MessageKind, headers: Seq<Entry>, body: Option<Seq<char>> },
    Failed(Fault),
}

/// The bytes that end a header block.
pub open spec fn terminator_bytes() -> Seq<u8> {
    seq![10u8, 10u8]
}

/// The text of the error for a `Content-Length` over [`MAX_MESSAGE_SIZE`].
pub open spec fn too_large_text(n: nat) -> Seq<char> {
    "Message too large: Content-Length "@ + decimal(n) + " exceeds limit "@ + decimal(
        MAX_MESSAGE_SIZE as nat,
    ) + ". Protocol error or corrupted data."@
}

/// Reading a body of `length` bytes from `data`.
pub open spec fn body_step(kind: MessageKind, headers: Seq<Entry>, length: nat, data: Seq<u8>) -> (
    Outcome,
    ParseStateView,
    Seq<u8>,
) {
    let waiting = ParseStateView::Body { kind, headers, length };
    if data.len() >= length {
        let b = data.take(length as int);
        if vstd::utf8::valid_utf8(b) {
            (
                Outcome::Message { kind, headers, body: Some(vstd::utf8::decode_utf8(b)) },
                ParseStateView::Headers,
                data.skip(length as int),
            )
        } else {
            (Outcome::Failed(Fault::Protocol("Invalid UTF-8 in body"@)), waiting, data.skip(length as int))
        }
    } else {
        (Outcome::NeedMore, waiting, data)
    }
}

/// Reading a header block from `data`, then the body it announces if any.
pub open spec fn header_step(data: Seq<u8>) -> (Outcome, ParseStateView, Seq<u8>) {
    match find_seq(data, terminator_bytes()) {
        None => (Outcome::NeedMore, ParseStateView::Headers, data),
        Some(p) => {
            let hb = data.take(p);
            let rest = data.skip(p + 2);
            let fail = |f: Fault| (Outcome::Failed(f), ParseStateView::Headers, rest);
            if !vstd::utf8::valid_utf8(hb) {
                fail(Fault::Protocol("Invalid UTF-8 in headers"@))
            } else {
                match block_outcome(
                    Seq::empty(),
                    split_lines(vstd::utf8::decode_utf8(hb)),
                    "header"@,
                ) {
                    Err(f) => fail(f),
                    Ok(h) => match lookup(h, "Content-Type"@) {
                        None => fail(
                            Fault::Protocol("Missing Content-Type header — likely protocol desync"@),
                        ),
                        Some(ct) => {
                            let kind = MessageType::kind_of(ct);
                            let bare = (
                                Outcome::Message { kind, headers: h, body: None },
                                ParseStateView::Headers,
                                rest,
                            );
                            match lookup(h, "Content-Length"@) {
                                None => bare,
                                Some(ls) => match parse_unsigned(trimmed(ls)) {
                                    Some(n) => if n > usize::MAX {
                                        fail(Fault::InvalidHeader("Content-Length: "@ + ls))
                                    } else if n > MAX_MESSAGE_SIZE {
                                        fail(Fault::Protocol(too_large_text(n as nat)))
                                    } else if n > 0 {
                                        body_step(kind, h, n as nat, rest)
                                    } else {
                                        bare
                                    },
                                    None => fail(Fault::InvalidHeader("Content-Length: "@ + ls)),
                                },
                            }
                        },
                    },
                }
            }
        },
    }
}

/// One call of [`EslParser::parse_message`]: the outcome, the next state and
/// the bytes left.
pub open spec fn parse_step(st: ParseStateView, data: Seq<u8>) -> (Outcome, ParseStateView, Seq<u8>) {
    match st {
        ParseStateView::Headers => header_step(data),
        ParseStateView::Body { kind, headers, length } => body_step(kind, headers, length, data),
    }
}

/// `m` is the message `o` describes.
pub open spec fn message_is(m: EslMessage, kind: MessageKind, headers: Seq<Entry>, body: Option<Seq<char>>) -> bool {
    &&& m.message_type.kind() == kind
    &&& map_entries(m.headers) == headers
    &&& crate::channel::opt_view(m.body) == body
}

/// `r` is the result that outcome `o` describes.
pub open spec fn result_is(r: EslResult<Option<EslMessage>>, o: Outcome) -> bool {
    match o {
        Outcome::NeedMore => r matches Ok(None),
        Outcome::Message { kind, headers, body } => r matches Ok(Some(m)) && message_is(
            m,
            kind,
            headers,
            body,
        ),
        Outcome::Failed(f) => r matches Err(e) && error_is(e, f),
    }
}

/// Reading a body from `d` and then from `d + e`: once the body is there,
/// the bytes behind it only lengthen what is left.
proof fn lemma_body_step_extend(kind: MessageKind, headers: Seq<Entry>, length: nat, d: Seq<u8>, e: Seq<u8>)
    ensures
        ({
            let (o, st, r) = body_step(kind, headers, length, d);
            if o is NeedMore {
                st == (ParseStateView::Body { kind, headers, length }) && r == d
            } else {
                body_step(kind, headers, length, d + e) == (o, st, r + e)
            }
        }),
{
    if d.len() >= length {
        assert((d + e).take(length as int) =~= d.take(length as int));
        assert((d + e).skip(length as int) =~= d.skip(length as int) + e);
    }
}

/// The `Content-Length` a header block announces, when it is a number.
pub open spec fn announced_length(h: Seq<Entry>) -> Option<int> {
    match lookup(h, "Content-Length"@) {
        Some(ls) => parse_unsigned(trimmed(ls)),
        None => None,
    }
}

/// A header block (its bytes) that announces a body: valid UTF-8 lines that
/// parse, with a `Content-Type` and a `Content-Length` of at least 1 and at
/// most [`MAX_MESSAGE_SIZE`]; its kind, headers and length.
pub open spec fn body_frame(hb: Seq<u8>) -> Option<(MessageKind, Seq<Entry>, int)> {
    if !vstd::utf8::valid_utf8(hb) {
        None
    } else {
        match block_outcome(Seq::empty(), split_lines(vstd::utf8::decode_utf8(hb)), "header"@) {
            Err(_) => None,
            Ok(h) => match (lookup(h, "Content-Type"@), announced_length(h)) {
                (Some(ct), Some(n)) => if 0 < n <= MAX_MESSAGE_SIZE {
                    Some((MessageType::kind_of(ct), h, n))
                } else {
                    None
                },
                _ => None,
            },
        }
    }
}

/// A message with a body, read by a parser waiting for headers: when the
/// bytes hold a header block ending at the first blank line, with a
/// `Content-Type` and a `Content-Length` of `n` (at least 1, at most
/// [`MAX_MESSAGE_SIZE`]), then once the `n` body bytes are there (and are
/// UTF-8) the message is those headers and that body, the bytes behind it
/// left over; before that the parser waits for the body, and the message
/// comes once the missing bytes arrive.
pub proof fn lemma_message_with_body(data: Seq<u8>, p: int, more: Seq<u8>)
    requires
        is_first_match(data, terminator_bytes(), p),
        body_frame(data.take(p)) is Some,
    ensures
        ({
            let (kind, h, n) = body_frame(data.take(p))->0;
            let rest = data.skip(p + 2);
            let full = rest + more;
            &&& (rest.len() >= n && vstd::utf8::valid_utf8(rest.take(n))) ==> parse_step(ParseStateView::Headers, data)
                == (Outcome::Message { kind, headers: h, body: Some(vstd::utf8::decode_utf8(rest.take(n))) },
                ParseStateView::Headers, rest.skip(n))
            &&& rest.len() < n ==> parse_step(ParseStateView::Headers, data) == (
                Outcome::NeedMore,
                ParseStateView::Body { kind, headers: h, length: n as nat },
                rest,
            )
            &&& (rest.len() < n && full.len() >= n && vstd::utf8::valid_utf8(full.take(n))) ==> parse_step(
                ParseStateView::Body { kind, headers: h, length: n as nat },
                full,
            ) == (Outcome::Message { kind, headers: h, body: Some(vstd::utf8::decode_utf8(full.take(n))) },
            ParseStateView::Headers, full.skip(n))
        }),
{
    reveal_strlit("\n\n");
    crate::buffer::lemma_find_seq_first(data, terminator_bytes(), p);
    assert(MAX_MESSAGE_SIZE <= usize::MAX);
}

/// The parser reads the same messages however the bytes are cut into
/// pieces: parsing `d` and then, when that needed more, parsing again with
/// `e` appended gives what parsing `d + e` at once gives; and a result read
/// from `d` alone is also read from `d + e`, with `e` left over behind it.
pub proof fn lemma_parse_step_chunking(st: ParseStateView, d: Seq<u8>, e: Seq<u8>)
    ensures
        ({
            let (o, st2, d2) = parse_step(st, d);
            if o is NeedMore {
                parse_step(st, d + e) == parse_step(st2, d2 + e)
            } else {
                parse_step(st, d + e) == (o, st2, d2 + e)
            }
        }),
{
    match st {
        ParseStateView::Body { kind, headers, length } => {
            lemma_body_step_extend(kind, headers, length, d, e);
        },
        ParseStateView::Headers => {
            lemma_header_step_extend(d, e);
        },
    }
}

/// [`lemma_parse_step_chunking`] for a parser waiting for headers.
#[verifier::spinoff_prover]
proof fn lemma_header_step_extend(d: Seq<u8>, e: Seq<u8>)
    ensures
        ({
            let (o, st2, d2) = header_step(d);
            if o is NeedMore {
                header_step(d + e) == parse_step(st2, d2 + e)
            } else {
                header_step(d + e) == (o, st2, d2 + e)
            }
        }),
{
    if find_seq(d, terminator_bytes()) is Some {
        crate::buffer::lemma_find_seq_extend(d, e, terminator_bytes());
        crate::buffer::lemma_find_seq_is_first(d, terminator_bytes());
        let p = find_seq(d, terminator_bytes())->0;
        let de = d + e;
        assert(de.take(p) =~= d.take(p));
        assert(de.skip(p + 2) =~= d.skip(p + 2) + e);
        let hb = d.take(p);
        let rest = d.skip(p + 2);
        if vstd::utf8::valid_utf8(hb) {
            match block_outcome(Seq::empty(), split_lines(vstd::utf8::decode_utf8(hb)), "header"@) {
                Err(_) => {},
                Ok(h) => match lookup(h, "Content-Type"@) {
                    None => {},
                    Some(ct) => match lookup(h, "Content-Length"@) {
                        None => {},
                        Some(ls) => match parse_unsigned(trimmed(ls)) {
                            None => {},
                            Some(n) => {
                                if n <= usize::MAX && n <= MAX_MESSAGE_SIZE && n > 0 {
                                    lemma_body_step_extend(MessageType::kind_of(ct), h, n as nat, rest, e);
                                }
                            },
                        },
                    },
                },
            }
        }
    }
}

// ---------------------------------------------------------------------------
// Parser
// ---------------------------------------------------------------------------

/// Parser state for handling incomplete messages.
#[derive(Debug)]
enum ParseState {
    WaitingForHeaders,
    WaitingForBody { message_type: MessageType, headers: HeaderMap, body_length: usize },
}

/// ESL protocol parser.
pub struct EslParser {
    buffer: EslBuffer,
    state: ParseState,
}

impl EslParser {
    /// The buffer is well formed and a pending body is no larger than a
    /// message may be.
    pub closed spec fn wf(self) -> bool {
        &&& self.buffer.wf()
        &&& (self.state matches ParseState::WaitingForBody { body_length, .. } ==> 0 < body_length
            <= MAX_MESSAGE_SIZE)
    }

    /// The unconsumed bytes.
    pub closed spec fn data_view(self) -> Seq<u8> {
        self.buffer.view_data()
    }

    /// Every byte the buffer holds, consumed ones included.
    pub closed spec fn held_len(self) -> nat {
        self.buffer.held().len()
    }

    /// What the parser waits for.
    pub closed spec fn state_view(self) -> ParseStateView {
        match self.state {
            ParseState::WaitingForHeaders => ParseStateView::Headers,
            ParseState::WaitingForBody { message_type, headers, body_length } => ParseStateView::Body {
                kind: message_type.kind(),
                headers: map_entries(headers),
                length: body_length as nat,
            },
        }
    }

    /// Create new parser.
    pub fn new() -> (r: EslParser)
        ensures
            r.wf(),
            r.data_view() == Seq::<u8>::empty(),
            r.held_len() == 0,
            r.state_view() == ParseStateView::Headers,
    {
        EslParser { buffer: EslBuffer::new(), state: ParseState::WaitingForHeaders }
    }

    /// Unconsumed bytes remaining in the parser buffer.
    pub fn remaining_bytes(&self) -> (r: &[u8])
        requires
            self.wf(),
        ensures
            r@ == self.data_view(),
    {
        self.buffer.data()
    }

    /// `true` if the parser is between messages (not mid-body).
    pub fn is_waiting_for_headers(&self) -> (r: bool)
        ensures
            r == (self.state_view() is Headers),
    {
        match self.state {
            ParseState::WaitingForHeaders => true,
            _ => false,
        }
    }

    /// Add data to the parser buffer; an error once the buffer holds more than
    /// its limit (the data is kept).
    pub fn add_data(&mut self, data: &[u8]) -> (r: EslResult<()>)
        requires
            old(self).wf(),
            old(self).held_len() + data@.len() + BUF_CHUNK <= isize::MAX,
        ensures
            final(self).wf(),
            final(self).data_view() == old(self).data_view() + data@,
            final(self).held_len() == old(self).held_len() + data@.len(),
            final(self).state_view() == old(self).state_view(),
            r is Ok <==> final(self).held_len() <= crate::constants::MAX_BUFFER_SIZE,
            r matches Err(e) ==> e is BufferOverflow,
    {
        self.buffer.extend_from_slice(data);
        self.buffer.check_size_limits()
    }

    /// Try to parse a complete message from the buffer (see [`parse_step`]).
    pub fn parse_message(&mut self) -> (r: EslResult<Option<EslMessage>>)
        requires
            old(self).wf(),
        ensures
            final(self).wf(),
            final(self).held_len() <= old(self).held_len(),
            ({
                let (o, st, d) = parse_step(old(self).state_view(), old(self).data_view());
                &&& result_is(r, o)
                &&& final(self).state_view() == st
                &&& final(self).data_view() == d
            }),
    {
        let mut st = ParseState::WaitingForHeaders;
        std::mem::swap(&mut st, &mut self.state);
        match st {
            ParseState::WaitingForHeaders => self.parse_header_frame(),
            ParseState::WaitingForBody { message_type, headers, body_length } => {
                self.parse_body_frame(message_type, headers, body_length)
            },
        }
    }

    /// Read `body_length` bytes of body, or wait for them.
    fn parse_body_frame(&mut self, message_type: MessageType, headers: HeaderMap, body_length: usize) -> (r: EslResult<Option<EslMessage>>)
        requires
            old(self).wf(),
            0 < body_length <= MAX_MESSAGE_SIZE,
        ensures
            final(self).wf(),
            final(self).held_len() <= old(self).held_len(),
            ({
                let (o, st, d) = body_step(
                    message_type.kind(),
                    map_entries(headers),
                    body_length as nat,
                    old(self).data_view(),
                );
                &&& result_is(r, o)
                &&& final(self).state_view() == st
                &&& final(self).data_view() == d
            }),
    {
        match self.buffer.extract_bytes(body_length) {
            None => {
                self.state = ParseState::WaitingForBody { message_type, headers, body_length };
                Ok(None)
            },
            Some(body_data) => {
                self.buffer.compact();
                match string_from_utf8(body_data) {
                    Ok(body) => {
                        self.state = ParseState::WaitingForHeaders;
                        Ok(Some(EslMessage::new(message_type, headers, Some(body))))
                    },
                    Err(_) => {
                        self.state = ParseState::WaitingForBody { message_type, headers, body_length };
                        Err(EslError::ProtocolError { message: owned("Invalid UTF-8 in body") })
                    },
                }
            },
        }
    }

    /// Read a header block and the body it announces.
    fn parse_header_frame(&mut self) -> (r: EslResult<Option<EslMessage>>)
        requires
            old(self).wf(),
            old(self).state is WaitingForHeaders,
        ensures
            final(self).wf(),
            final(self).held_len() <= old(self).held_len(),
            ({
                let (o, st, d) = header_step(old(self).data_view());
                &&& result_is(r, o)
                &&& final(self).state_view() == st
                &&& final(self).data_view() == d
            }),
    {
        let term: [u8; 2] = [10u8, 10u8];
        assert(term@ =~= terminator_bytes());
        let ghost data0 = self.buffer.view_data();
        let extracted = self.buffer.extract_until_pattern(term.as_slice());
        let hd = match extracted {
            None => {
                return Ok(None);
            },
            Some(hd) => hd,
        };
        proof {
            let p = choose|i: int|
                term@.len() > 0 && is_first_match(data0, term@, i) && hd@ == data0.take(i)
                    && self.buffer.view_data() == data0.skip(i + term@.len());
            crate::buffer::lemma_find_seq_first(data0, term@, p);
        }
        self.buffer.compact();
        let hs = match string_from_utf8(hd) {
            Ok(s) => s,
            Err(_) => {
                return Err(EslError::ProtocolError { message: owned("Invalid UTF-8 in headers") });
            },
        };
        let mut headers = map_new();
        parse_block_into(hs.as_str(), "header", &mut headers)?;
        let message_type = match map_get_str(&headers, "Content-Type") {
            Some(ct) => MessageType::from_content_type(ct),
            None => {
                return Err(
                    EslError::ProtocolError {
                        message: owned("Missing Content-Type header — likely protocol desync"),
                    },
                );
            },
        };
        let length_str = match map_get_str(&headers, "Content-Length") {
            Some(ls) => owned(ls),
            None => {
                return Ok(Some(EslMessage::new(message_type, headers, None)));
            },
        };
        let length = match parse_usize(trim(length_str.as_str())) {
            Some(n) => n,
            None => {
                return Err(
                    EslError::InvalidHeader { header: concat2("Content-Length: ", length_str.as_str()) },
                );
            },
        };
        if length > MAX_MESSAGE_SIZE {
            let mut m = concat2("Message too large: Content-Length ", usize_to_string(length).as_str());
            push_str(&mut m, " exceeds limit ");
            push_str(&mut m, usize_to_string(MAX_MESSAGE_SIZE).as_str());
            push_str(&mut m, ". Protocol error or corrupted data.");
            return Err(EslError::ProtocolError { message: m });
        }
        if length > 0 {
            self.parse_body_frame(message_type, headers, length)
        } else {
            Ok(Some(EslMessage::new(message_type, headers, None)))
        }
    }
}

impl Default for EslParser {
    /// A parser with an empty buffer, waiting for headers.
    fn default() -> (r: EslParser)
        ensures
            r.wf(),
            r.data_view() == Seq::<u8>::empty(),
            r.held_len() == 0,
            r.state_view() == ParseStateView::Headers,
    {
        EslParser::new()
    }
}

// ---------------------------------------------------------------------------
// Event bodies
// ---------------------------------------------------------------------------

/// A header block built from an empty map never repeats a key.
pub proof fn lemma_block_distinct(e: Seq<Entry>, lines: Seq<Seq<char>>, context: Seq<char>)
    requires
        keys_distinct(e),
    ensures
        block_outcome(e, lines, context) matches Ok(h) ==> keys_distinct(h),
    decreases lines.len(),
{
    if lines.len() > 0 {
        match line_outcome(lines[0], context) {
            Err(_) => {},
            Ok(None) => lemma_block_distinct(e, lines.skip(1), context),
            Ok(Some(en)) => {
                lemma_insert_keeps_distinct(e, en.0, en.1);
                lemma_block_distinct(insert_entry(e, en.0, en.1), lines.skip(1), context);
            },
        }
    }
}

/// The type an `Event-Name` header names, if any.
pub open spec fn type_by_name(h: Seq<Entry>) -> Option<EslEventType> {
    match lookup(h, "Event-Name"@) {
        Some(n) => EslEventType::from_name(unicode_upper(n)),
        None => None,
    }
}

/// The event an event body decodes to: its headers, its body and its type.
pub enum EventModel {
    Parsed { headers: Seq<Entry>, body: Option<Seq<char>>, event_type: Option<EslEventType> },
    Failed(Fault),
}

/// `r` is the result that `m` describes.
pub open spec fn event_result_is(r: EslResult<EslEvent>, m: EventModel) -> bool {
    match m {
        EventModel::Parsed { headers, body, event_type } => r matches Ok(ev) && ev.header_entries()
            == headers && ev.body_view() == body && ev.type_view() == event_type,
        EventModel::Failed(f) => r matches Err(e) && error_is(e, f),
    }
}

/// A `text/event-plain` body: percent-encoded header lines, then after a
/// blank line an optional inner body.
pub open spec fn plain_event(kind: MessageKind, body: Option<Seq<char>>) -> EventModel {
    if !(kind is Event) {
        EventModel::Failed(Fault::Protocol("Not an event message"@))
    } else {
        match body {
            None => EventModel::Failed(Fault::Protocol("Plain event missing body"@)),
            Some(b) => {
                let (section, inner) = match find_seq(b, "\n\n"@) {
                    Some(p) => (b.take(p), Some(b.skip(p + 2))),
                    None => (b, None),
                };
                match block_outcome(Seq::empty(), split_lines(section), "event header"@) {
                    Err(f) => EventModel::Failed(f),
                    Ok(h) => EventModel::Parsed {
                        headers: h,
                        body: match inner {
                            Some(ib) => if ib.len() > 0 {
                                Some(ib)
                            } else {
                                None
                            },
                            None => None,
                        },
                        event_type: type_by_name(h),
                    },
                }
            },
        }
    }
}

/// A `log/data` message: the envelope headers, the log text as body.
pub open spec fn log_event(headers: Seq<Entry>, body: Option<Seq<char>>) -> EventModel {
    EventModel::Parsed {
        headers: insert_all(Seq::empty(), headers),
        body,
        event_type: Some(EslEventType::Log),
    }
}

/// Name for what `serde_json::from_str` makes of a text as a JSON value:
/// the error message, `None` for a value other than an object, or the
/// object's members in the map's order, a string member as its content and
/// any other member as its JSON text.
pub uninterp spec fn json_members(text: Seq<char>) -> Result<Option<Seq<Entry>>, Seq<char>>;

/// Calls `serde_json::from_str` into a `serde_json::Value` and hands the
/// object's members out as strings (see [`json_members`]).
#[verifier::external_body]
fn parse_json_members(text: &str) -> (r: Result<Option<Vec<(String, String)>>, String>)
    ensures
        match (r, json_members(text@)) {
            (Ok(Some(v)), Ok(Some(m))) => v@.len() == m.len() && forall|i: int|
                0 <= i < m.len() ==> (#[trigger] v@[i]).0@ == m[i].0 && v@[i].1@ == m[i].1,
            (Ok(None), Ok(None)) => true,
            (Err(e), Err(m)) => e@ == m,
            _ => false,
        },
{
    match serde_json::from_str::<JsonValue>(text) {
        Ok(JsonValue::Object(map)) => Ok(Some(map.into_iter().map(|(k, v)| match v {
            JsonValue::String(s) => (k, s),
            other => (k, other.to_string()),
        }).collect())),
        Ok(_) => Ok(None),
        Err(e) => Err(e.to_string()),
    }
}

/// The members of a JSON event set on an event in order, the `_body`
/// member as its body.
pub open spec fn json_fold(h: Seq<Entry>, body: Option<Seq<char>>, m: Seq<Entry>) -> (Seq<Entry>, Option<Seq<char>>)
    decreases m.len(),
{
    if m.len() == 0 {
        (h, body)
    } else {
        let (h1, b1) = json_fold(h, body, m.drop_last());
        if m.last().0 == "_body"@ {
            (h1, Some(m.last().1))
        } else {
            (insert_entry(h1, m.last().0, m.last().1), b1)
        }
    }
}

/// A `text/event-json` body.
pub open spec fn json_event(body: Option<Seq<char>>) -> EventModel {
    match body {
        None => EventModel::Failed(Fault::Protocol("JSON event missing body"@)),
        Some(b) => match json_members(b) {
            Err(m) => EventModel::Failed(Fault::Json(m)),
            Ok(members) => {
                let (h, ib) = match members {
                    Some(m) => json_fold(Seq::empty(), None, m),
                    None => (Seq::empty(), None),
                };
                EventModel::Parsed { headers: h, body: ib, event_type: type_by_name(h) }
            },
        },
    }
}

/// Position of the first blank line (`\n\n`) in `v`.
fn find_blank_line(v: &Vec<char>) -> (r: Option<usize>)
    ensures
        match r {
            Some(p) => is_first_match(v@, "\n\n"@, p as int),
            None => find_seq(v@, "\n\n"@) is None,
        },
{
    proof {
        reveal_strlit("\n\n");
    }
    let ghost pat = "\n\n"@;
    assert(pat =~= seq!['\n', '\n']);
    if v.len() < 2 {
        return None;
    }
    let mut i: usize = 0;
    while i + 1 < v.len()
        invariant
            pat == "\n\n"@,
            pat =~= seq!['\n', '\n'],
            i + 1 <= v.len(),
            forall|j: int| 0 <= j < i ==> #[trigger] v@.subrange(j, j + 2) != pat,
        decreases v.len() - i,
    {
        if v[i] == '\n' && v[i + 1] == '\n' {
            assert(v@.subrange(i as int, i + 2) =~= pat);
            return Some(i);
        }
        assert(v@.subrange(i as int, i + 2)[0] == v@[i as int]);
        assert(v@.subrange(i as int, i + 2)[1] == v@[i + 1]);
        i += 1;
    }
    None
}

/// Set the `Event-Name` type on `event`, if it names one.
fn apply_event_name(event: &mut EslEvent)
    ensures
        final(event).header_entries() == old(event).header_entries(),
        final(event).body_view() == old(event).body_view(),
        final(event).type_view() == match lookup(old(event).header_entries(), "Event-Name"@) {
            Some(n) => EslEventType::from_name(unicode_upper(n)),
            None => old(event).type_view(),
        },
{
    let name = match event.header("Event-Name") {
        Some(n) => Some(owned(n)),
        None => None,
    };
    match name {
        Some(n) => {
            let t = EslEventType::parse_event_type(n.as_str());
            event.set_event_type(t);
        },
        None => {},
    }
}

/// Set every entry of `map` on `event`, in order.
fn copy_headers(event: &mut EslEvent, map: &HeaderMap)
    ensures
        final(event).header_entries() == insert_all(old(event).header_entries(), map_entries(*map)),
        final(event).body_view() == old(event).body_view(),
        final(event).type_view() == old(event).type_view(),
{
    let ghost e0 = event.header_entries();
    let n = map_len(map);
    let mut i: usize = 0;
    while i < n
        invariant
            n == map_entries(*map).len(),
            i <= n,
            event.header_entries() == insert_all(e0, map_entries(*map).take(i as int)),
            event.body_view() == old(event).body_view(),
            event.type_view() == old(event).type_view(),
        decreases n - i,
    {
        let (k, v) = map_get_index(map, i);
        event.set_header(k.as_str(), v.as_str());
        proof {
            assert(map_entries(*map).take(i + 1).drop_last() =~= map_entries(*map).take(i as int));
        }
        i += 1;
    }
    assert(map_entries(*map).take(n as int) =~= map_entries(*map));
}

impl EslParser {
    /// Parse a `log/data` message: envelope headers, log text as body.
    fn parse_log_event(message: EslMessage) -> (r: EslResult<EslEvent>)
        ensures
            event_result_is(r, log_event(map_entries(message.headers), crate::channel::opt_view(message.body))),
    {
        let mut event = EslEvent::new();
        copy_headers(&mut event, &message.headers);
        match message.body {
            Some(b) => event.set_body(b),
            None => {},
        }
        event.set_event_type(Some(EslEventType::Log));
        Ok(event)
    }

    /// Parse a `text/event-plain` message.
    fn parse_plain_event(message: EslMessage) -> (r: EslResult<EslEvent>)
        ensures
            event_result_is(r, plain_event(message.message_type.kind(), crate::channel::opt_view(message.body))),
    {
        if !message.message_type.is_event() {
            return Err(EslError::ProtocolError { message: owned("Not an event message") });
        }
        let body = match &message.body {
            Some(b) => b.as_str(),
            None => {
                return Err(EslError::ProtocolError { message: owned("Plain event missing body") });
            },
        };
        let v = to_chars(body);
        let (section, inner) = match find_blank_line(&v) {
            Some(p) => {
                proof {
                    reveal_strlit("\n\n");
                    crate::buffer::lemma_find_seq_first(v@, "\n\n"@, p as int);
                    assert("\n\n"@.len() == 2);
                    assert(p + 2 <= v@.len());
                    assert(p + 2 <= v.len());
                }
                (from_char_range(&v, 0, p), Some(from_char_range(&v, p + 2, v.len())))
            },
            None => (owned(body), None),
        };
        let mut headers = map_new();
        parse_block_into(section.as_str(), "event header", &mut headers)?;
        proof {
            lemma_block_distinct(Seq::empty(), split_lines(section@), "event header"@);
            crate::header_map::lemma_insert_all_distinct(map_entries(headers));
        }
        let mut event = EslEvent::new();
        copy_headers(&mut event, &headers);
        match inner {
            Some(ib) => {
                if ib.unicode_len() > 0 {
                    event.set_body(ib);
                }
            },
            None => {},
        }
        apply_event_name(&mut event);
        Ok(event)
    }

    /// Parse a `text/event-json` message.
    fn parse_json_event(message: EslMessage) -> (r: EslResult<EslEvent>)
        ensures
            event_result_is(r, json_event(crate::channel::opt_view(message.body))),
    {
        let body = match message.body {
            Some(b) => b,
            None => {
                return Err(EslError::ProtocolError { message: owned("JSON event missing body") });
            },
        };
        let members = match parse_json_members(body.as_str()) {
            Ok(m) => m,
            Err(e) => {
                return Err(EslError::JsonError(e));
            },
        };
        let mut event = EslEvent::new();
        match members {
            Some(list) => {
                let ghost m = match json_members(body@) {
                    Ok(Some(m)) => m,
                    _ => Seq::empty(),
                };
                let mut i: usize = 0;
                while i < list.len()
                    invariant
                        i <= list.len(),
                        list@.len() == m.len(),
                        forall|k: int| 0 <= k < m.len() ==> (#[trigger] list@[k]).0@ == m[k].0 && list@[k].1@ == m[k].1,
                        (event.header_entries(), event.body_view()) == json_fold(Seq::empty(), None, m.take(i as int)),
                        event.type_view() is None,
                    decreases list.len() - i,
                {
                    let (k, v) = &list[i];
                    proof {
                        assert(m.take(i + 1).drop_last() =~= m.take(i as int));
                        assert(m.take(i + 1).last() == m[i as int]);
                    }
                    if str_eq(k.as_str(), "_body") {
                        event.set_body(v.clone());
                    } else {
                        event.set_header(k.as_str(), v.as_str());
                    }
                    i += 1;
                }
                assert(m.take(list.len() as int) =~= m);
            },
            None => {},
        }
        apply_event_name(&mut event);
        Ok(event)
    }
}

// ---------------------------------------------------------------------------
// XML events
// ---------------------------------------------------------------------------

#[verifier::external_type_specification]
#[verifier::external_body]
#[verifier::reject_recursive_types(R)]
pub struct ExXmlReader<R>(quick_xml::Reader<R>);

/// One event of the XML reader, its data as plain values.
#[derive(Debug)]
pub enum XmlToken {
    /// A start tag, by its name's bytes.
    Start(Vec<u8>),
    /// An end tag, by its name's bytes.
    End(Vec<u8>),
    /// Character data between tags, as raw bytes.
    Text(Vec<u8>),
    /// A character reference (`&#...;`), resolved.
    CharRef(char),
    /// A character reference that does not resolve, with the reader's
    /// message; an error only where character data is collected.
    BadCharRef(String),
    /// A named entity reference (`&name;`), by its name's bytes.
    NamedRef(Vec<u8>),
    /// The end of the document.
    Eof,
    /// Any other event (comments, declarations, empty elements, ...).
    Other,
}

/// An XML reader over a text: the `quick_xml` reader, the text it reads and
/// how many events it has handed out.
pub struct XmlReader<'a> {
    reader: quick_xml::Reader<&'a [u8]>,
    text: Ghost<Seq<char>>,
    count: Ghost<nat>,
}

impl<'a> XmlReader<'a> {
    /// The text being read.
    pub closed spec fn text_view(self) -> Seq<char> {
        self.text@
    }

    /// How many events have been read.
    pub closed spec fn count_view(self) -> nat {
        self.count@
    }
}

/// Name for the `i`-th event (counting from zero) that a `quick_xml` reader
/// made by `Reader::from_str(text)` hands out through [`xml_next`]: an event
/// as an [`XmlToken`], or the reader's error message. The reader runs over
/// the text alone, so the `i`-th event is a function of the text and `i`.
pub uninterp spec fn xml_event_at(text: Seq<char>, i: nat) -> Result<XmlToken, Seq<char>>;

/// Calls `quick_xml::Reader::from_str`: a reader at the start of `text`.
#[verifier::external_body]
fn xml_reader<'a>(text: &'a str) -> (r: XmlReader<'a>)
    ensures
        r.text_view() == text@,
        r.count_view() == 0,
{
    XmlReader { reader: quick_xml::Reader::from_str(text), text: Ghost(text@), count: Ghost(0) }
}

/// Calls `quick_xml::Reader::read_event`, handing the event out as an
/// [`XmlToken`] (a general reference goes through `resolve_char_ref`; one
/// that does not resolve is handed out with its message) and an error as its
/// message. The event is the next one of the text (see [`xml_event_at`]).
#[verifier::external_body]
fn xml_next(reader: &mut XmlReader) -> (r: Result<XmlToken, String>)
    ensures
        final(reader).text_view() == old(reader).text_view(),
        final(reader).count_view() == old(reader).count_view() + 1,
        match (r, xml_event_at(old(reader).text_view(), old(reader).count_view())) {
            (Ok(t), Ok(u)) => t == u,
            (Err(m), Err(n)) => m@ == n,
            _ => false,
        },
{
    match reader.reader.read_event() {
        Err(x) => Err(x.to_string()),
        Ok(ev) => Ok(match ev {
            XmlEvent::Start(e) => XmlToken::Start(e.name().0.to_vec()),
            XmlEvent::End(e) => XmlToken::End(e.to_vec()),
            XmlEvent::Text(e) => XmlToken::Text(e.to_vec()),
            XmlEvent::GeneralRef(e) => match e.resolve_char_ref() {
                Ok(Some(c)) => XmlToken::CharRef(c),
                Ok(None) => XmlToken::NamedRef(e.to_vec()),
                Err(x) => XmlToken::BadCharRef(x.to_string()),
            },
            XmlEvent::Eof => XmlToken::Eof,
            _ => XmlToken::Other,
        }),
    }
}

/// The five predefined XML entities.
pub open spec fn xml_entity(name: Seq<char>) -> Option<Seq<char>> {
    if name == "lt"@ {
        Some("<"@)
    } else if name == "gt"@ {
        Some(">"@)
    } else if name == "amp"@ {
        Some("&"@)
    } else if name == "apos"@ {
        Some("'"@)
    } else if name == "quot"@ {
        Some("\""@)
    } else {
        None
    }
}

/// Calls `quick_xml::escape::resolve_xml_entity`, which knows the five
/// predefined entities.
#[verifier::external_body]
fn resolve_xml_entity(name: &str) -> (r: Option<&'static str>)
    ensures
        match r {
            Some(s) => xml_entity(name@) == Some(s@),
            None => xml_entity(name@) is None,
        },
{
    quick_xml::escape::resolve_xml_entity(name)
}

/// Name for `String::from_utf8_lossy`: the bytes decoded, each invalid
/// sequence replaced by U+FFFD.
pub uninterp spec fn utf8_lossy(b: Seq<u8>) -> Seq<char>;

/// Calls `String::from_utf8_lossy`. Valid UTF-8 decodes exactly.
#[verifier::external_body]
pub fn lossy_string(b: &[u8]) -> (r: String)
    ensures
        r@ == utf8_lossy(b@),
        vstd::utf8::valid_utf8(b@) ==> r@ == vstd::utf8::decode_utf8(b@),
{
    String::from_utf8_lossy(b).into_owned()
}

/// Where the XML walk stands.
pub struct XmlWalk {
    pub in_headers: bool,
    pub in_body: bool,
    pub tag: Option<Seq<char>>,
    pub text: Seq<char>,
    pub headers: Seq<Entry>,
    pub body: Option<Seq<char>>,
}

/// The walk before the first token.
pub open spec fn xml_start() -> XmlWalk {
    XmlWalk { in_headers: false, in_body: false, tag: None, text: Seq::empty(), headers: Seq::empty(), body: None }
}

/// Whether character data is being collected.
pub open spec fn collecting(w: XmlWalk) -> bool {
    w.in_body || w.tag is Some
}

/// One token of the walk: `<headers>` and `<body>` open their sections, each
/// element inside `<headers>` collects its text into a header of its name,
/// the text of `<body>` becomes the body.
pub open spec fn xml_step(w: XmlWalk, t: XmlToken) -> Result<XmlWalk, Fault> {
    match t {
        XmlToken::Start(n) => {
            let tag = utf8_lossy(n@);
            if tag == "headers"@ {
                Ok(XmlWalk { in_headers: true, ..w })
            } else if tag == "body"@ {
                Ok(XmlWalk { in_body: true, ..w })
            } else if w.in_headers {
                Ok(XmlWalk { text: Seq::empty(), tag: Some(tag), ..w })
            } else {
                Ok(w)
            }
        },
        XmlToken::End(n) => {
            let tag = utf8_lossy(n@);
            if tag == "headers"@ {
                Ok(XmlWalk { in_headers: false, ..w })
            } else if tag == "body"@ {
                if w.text.len() > 0 {
                    Ok(XmlWalk { body: Some(w.text), text: Seq::empty(), in_body: false, ..w })
                } else {
                    Ok(XmlWalk { in_body: false, ..w })
                }
            } else if w.in_headers {
                match w.tag {
                    Some(k) => if w.text.len() > 0 {
                        Ok(XmlWalk { headers: insert_entry(w.headers, k, w.text), text: Seq::empty(), tag: None, ..w })
                    } else {
                        Ok(XmlWalk { tag: None, ..w })
                    },
                    None => Ok(w),
                }
            } else {
                Ok(w)
            }
        },
        XmlToken::Text(b) => if !vstd::utf8::valid_utf8(b@) {
            Err(Fault::Xml(utf8_error_text(b@)))
        } else if collecting(w) {
            Ok(XmlWalk { text: w.text + vstd::utf8::decode_utf8(b@), ..w })
        } else {
            Ok(w)
        },
        XmlToken::CharRef(c) => if collecting(w) {
            Ok(XmlWalk { text: w.text.push(c), ..w })
        } else {
            Ok(w)
        },
        XmlToken::BadCharRef(m) => if collecting(w) {
            Err(Fault::Xml(m@))
        } else {
            Ok(w)
        },
        XmlToken::NamedRef(b) => if !collecting(w) {
            Ok(w)
        } else if !vstd::utf8::valid_utf8(b@) {
            Err(Fault::Xml(utf8_error_text(b@)))
        } else {
            let name = vstd::utf8::decode_utf8(b@);
            match xml_entity(name) {
                Some(v) => Ok(XmlWalk { text: w.text + v, ..w }),
                None => Err(Fault::Protocol("unknown XML entity: &"@ + name + ";"@)),
            }
        },
        XmlToken::Eof => Ok(w),
        XmlToken::Other => Ok(w),
    }
}

/// The walk over a token sequence, stopping at the first fault.
pub open spec fn xml_walk(w: XmlWalk, ts: Seq<XmlToken>) -> Result<XmlWalk, Fault>
    decreases ts.len(),
{
    if ts.len() == 0 {
        Ok(w)
    } else {
        match xml_walk(w, ts.drop_last()) {
            Err(f) => Err(f),
            Ok(w1) => xml_step(w1, ts.last()),
        }
    }
}

/// Once a prefix of the tokens fails, the whole walk fails the same way.
pub proof fn lemma_xml_walk_prefix(w: XmlWalk, ts: Seq<XmlToken>, k: int)
    requires
        0 <= k <= ts.len(),
        xml_walk(w, ts.take(k)) is Err,
    ensures
        xml_walk(w, ts) == xml_walk(w, ts.take(k)),
    decreases ts.len(),
{
    if k < ts.len() {
        assert(ts.drop_last().take(k) =~= ts.take(k));
        lemma_xml_walk_prefix(w, ts.drop_last(), k);
    } else {
        assert(ts.take(k) =~= ts);
    }
}

/// The event that an XML token sequence describes.
pub open spec fn xml_event(ts: Seq<XmlToken>) -> EventModel {
    match xml_walk(xml_start(), ts) {
        Err(f) => EventModel::Failed(f),
        Ok(w) => EventModel::Parsed { headers: w.headers, body: w.body, event_type: type_by_name(w.headers) },
    }
}

/// Build the event an XML token sequence describes.
pub fn event_from_xml_tokens(tokens: &Vec<XmlToken>) -> (r: EslResult<EslEvent>)
    ensures
        event_result_is(r, xml_event(tokens@)),
{
    let mut event = EslEvent::new();
    let mut in_headers = false;
    let mut in_body = false;
    let mut tag: Option<String> = None;
    let mut text = String::new();
    let mut i: usize = 0;
    while i < tokens.len()
        invariant
            i <= tokens.len(),
            event.type_view() is None,
            xml_walk(xml_start(), tokens@.take(i as int)) == Ok::<XmlWalk, Fault>(XmlWalk {
                in_headers,
                in_body,
                tag: crate::channel::opt_view(tag),
                text: text@,
                headers: event.header_entries(),
                body: event.body_view(),
            }),
        decreases tokens.len() - i,
    {
        proof {
            assert(tokens@.take(i + 1).drop_last() =~= tokens@.take(i as int));
        }
        match &tokens[i] {
            XmlToken::Start(n) => {
                let name = lossy_string(n.as_slice());
                if str_eq(name.as_str(), "headers") {
                    in_headers = true;
                } else if str_eq(name.as_str(), "body") {
                    in_body = true;
                } else if in_headers {
                    text = String::new();
                    tag = Some(name);
                }
            },
            XmlToken::End(n) => {
                let name = lossy_string(n.as_slice());
                if str_eq(name.as_str(), "headers") {
                    in_headers = false;
                } else if str_eq(name.as_str(), "body") {
                    if text.unicode_len() > 0 {
                        let mut taken = String::new();
                        std::mem::swap(&mut taken, &mut text);
                        event.set_body(taken);
                    }
                    in_body = false;
                } else if in_headers {
                    match &tag {
                        Some(k) => {
                            if text.unicode_len() > 0 {
                                event.set_header(k.as_str(), text.as_str());
                                text = String::new();
                            }
                        },
                        None => {},
                    }
                    tag = None;
                }
            },
            XmlToken::Text(b) => {
                let decoded = match string_from_utf8(b.clone()) {
                    Ok(d) => d,
                    Err(m) => {
                        proof {
                            lemma_xml_walk_prefix(xml_start(), tokens@, i + 1);
                        }
                        return Err(EslError::XmlError(m));
                    },
                };
                if in_body || tag.is_some() {
                    push_str(&mut text, decoded.as_str());
                }
            },
            XmlToken::CharRef(c) => {
                if in_body || tag.is_some() {
                    crate::text::push_char(&mut text, *c);
                }
            },
            XmlToken::BadCharRef(m) => {
                if in_body || tag.is_some() {
                    proof {
                        lemma_xml_walk_prefix(xml_start(), tokens@, i + 1);
                    }
                    return Err(EslError::XmlError(m.clone()));
                }
            },
            XmlToken::NamedRef(b) => {
                if in_body || tag.is_some() {
                    let name = match string_from_utf8(b.clone()) {
                        Ok(d) => d,
                        Err(m) => {
                            proof {
                                lemma_xml_walk_prefix(xml_start(), tokens@, i + 1);
                            }
                            return Err(EslError::XmlError(m));
                        },
                    };
                    match resolve_xml_entity(name.as_str()) {
                        Some(v) => push_str(&mut text, v),
                        None => {
                            let mut m = concat2("unknown XML entity: &", name.as_str());
                            push_str(&mut m, ";");
                            proof {
                                lemma_xml_walk_prefix(xml_start(), tokens@, i + 1);
                            }
                            return Err(EslError::ProtocolError { message: m });
                        },
                    }
                }
            },
            XmlToken::Eof => {},
            XmlToken::Other => {},
        }
        i += 1;
    }
    assert(tokens@.take(tokens.len() as int) =~= tokens@);
    apply_event_name(&mut event);
    Ok(event)
}

/// The message when the reader has not ended after one event per byte.
pub open spec fn xml_no_end_text() -> Seq<char> {
    "XML reader did not reach the end of the document"@
}

/// Reading events of `text` from number `count` on, after `acc`: up to the
/// end of the document, the first error, or, when the reader has not ended
/// after `limit` events, an error.
pub open spec fn xml_read_from(text: Seq<char>, count: nat, limit: nat, acc: Seq<XmlToken>) -> Result<
    Seq<XmlToken>,
    Seq<char>,
>
    decreases limit - count,
{
    match xml_event_at(text, count) {
        Ok(XmlToken::Eof) => Ok(acc),
        Ok(t) => if count >= limit {
            Err(xml_no_end_text())
        } else {
            xml_read_from(text, count + 1, limit, acc.push(t))
        },
        Err(m) => Err(m),
    }
}

/// The events of `text` before the end of the document, or the error that
/// stops reading (see [`xml_read_from`]); at most one event per byte.
pub open spec fn xml_tokens(text: Seq<char>) -> Result<Seq<XmlToken>, Seq<char>> {
    xml_read_from(text, 0, crate::command::utf8_len(text), Seq::empty())
}

/// Read tokens up to the end of the document (see [`xml_tokens`]). Every
/// event but the end consumes at least one byte of the text, so a reader
/// that has not ended after one event per byte is reported as an error.
fn read_xml_tokens(text: &str) -> (r: Result<Vec<XmlToken>, String>)
    ensures
        match xml_tokens(text@) {
            Ok(ts) => r matches Ok(v) && v@ == ts,
            Err(m) => r matches Err(e) && e@ == m,
        },
{
    let limit = text.as_bytes().len();
    let mut reader = xml_reader(text);
    let mut tokens: Vec<XmlToken> = Vec::new();
    let mut count: usize = 0;
    loop
        invariant
            count <= limit,
            limit == crate::command::utf8_len(text@),
            reader.text_view() == text@,
            reader.count_view() == count,
            xml_read_from(text@, count as nat, limit as nat, tokens@) == xml_tokens(text@),
        decreases limit - count,
    {
        match xml_next(&mut reader) {
            Ok(XmlToken::Eof) => {
                return Ok(tokens);
            },
            Ok(t) => {
                if count == limit {
                    return Err(owned("XML reader did not reach the end of the document"));
                }
                tokens.push(t);
            },
            Err(m) => {
                return Err(m);
            },
        }
        count += 1;
    }
}

impl EslParser {
    /// Parse a `text/event-xml` message: the reader's tokens, walked by
    /// [`event_from_xml_tokens`].
    fn parse_xml_event(message: EslMessage) -> (r: EslResult<EslEvent>)
        ensures
            message.body is None ==> (r matches Err(EslError::ProtocolError { message: m })
                && m@ == "XML event missing body"@),
            message.body matches Some(b) ==> match xml_tokens(b@) {
                Ok(ts) => event_result_is(r, xml_event(ts)),
                Err(m) => r matches Err(EslError::XmlError(t)) && t@ == m,
            },
    {
        let body = match message.body {
            Some(b) => b,
            None => {
                return Err(EslError::ProtocolError { message: owned("XML event missing body") });
            },
        };
        match read_xml_tokens(body.as_str()) {
            Ok(tokens) => {
                let r = event_from_xml_tokens(&tokens);
                assert(event_result_is(r, xml_event(tokens@)));
                r
            },
            Err(m) => Err(EslError::XmlError(m)),
        }
    }
}

impl EslParser {
    /// Parse an event from a message: a `log/data` message is a log event;
    /// otherwise the body is read in `format`.
    pub fn parse_event(&self, message: EslMessage, format: EventFormat) -> (r: EslResult<EslEvent>)
        ensures
            ({
                let h = map_entries(message.headers);
                let body = crate::channel::opt_view(message.body);
                if lookup(h, "Content-Type"@) == Some("log/data"@) {
                    event_result_is(r, log_event(h, body))
                } else {
                    match format {
                        EventFormat::Plain => event_result_is(
                            r,
                            plain_event(message.message_type.kind(), body),
                        ),
                        EventFormat::Json => event_result_is(r, json_event(body)),
                        EventFormat::Xml => match body {
                            None => r matches Err(EslError::ProtocolError { message: m }) && m@
                                == "XML event missing body"@,
                            Some(b) => match xml_tokens(b) {
                                Ok(ts) => event_result_is(r, xml_event(ts)),
                                Err(m) => r matches Err(EslError::XmlError(t)) && t@ == m,
                            },
                        },
                    }
                }
            }),
    {
        let is_log = match map_get_str(&message.headers, "Content-Type") {
            Some(ct) => str_eq(ct, "log/data"),
            None => false,
        };
        if is_log {
            return Self::parse_log_event(message);
        }
        match format {
            EventFormat::Plain => Self::parse_plain_event(message),
            EventFormat::Json => Self::parse_json_event(message),
            EventFormat::Xml => Self::parse_xml_event(message),
        }
    }
}

impl EslParser {
    /// Parse a header block (see [`block_outcome`], in the `header` context).
    pub fn parse_headers(&self, headers_str: &str) -> (r: EslResult<HeaderMap>)
        ensures
            match block_outcome(Seq::empty(), split_lines(headers_str@), "header"@) {
                Ok(h) => r matches Ok(m) && map_entries(m) == h,
                Err(f) => r matches Err(e) && error_is(e, f),
            },
    {
        let mut headers = map_new();
        parse_block_into(headers_str, "header", &mut headers)?;
        Ok(headers)
    }

    /// Discard every buffered byte, consumed or not.
    pub fn drain_buffer(&mut self)
        requires
            old(self).wf(),
        ensures
            final(self).wf(),
            final(self).data_view() == Seq::<u8>::empty(),
            final(self).held_len() == 0,
            final(self).state_view() == old(self).state_view(),
    {
        self.buffer.clear();
        self.buffer.compact();
    }
}

// ---------------------------------------------------------------------------
// Channel dumps
// ---------------------------------------------------------------------------

/// Options for [`parse_channel_dump_with_options`].
#[derive(Debug, Clone, Copy, PartialEq, Eq, Structural)]
pub struct ChannelDumpOptions {
    strict_header_utf8: bool,
}

impl ChannelDumpOptions {
    /// Whether invalid UTF-8 in a header value is an error.
    pub closed spec fn strict_view(self) -> bool {
        self.strict_header_utf8
    }

    /// Default options: invalid UTF-8 in a value is decoded lossily.
    pub fn new() -> (r: ChannelDumpOptions)
        ensures
            !r.strict_view(),
    {
        ChannelDumpOptions { strict_header_utf8: false }
    }

    /// Strict UTF-8 validation on percent-decoded header values: when `true`,
    /// an invalid sequence is [`EslError::InvalidUtf8InHeader`]; when `false`
    /// it is decoded lossily (U+FFFD).
    pub fn with_strict_header_utf8(self, strict: bool) -> (r: ChannelDumpOptions)
        ensures
            r.strict_view() == strict,
    {
        ChannelDumpOptions { strict_header_utf8: strict }
    }

    /// Whether to fail on invalid UTF-8 in a header value.
    pub fn strict_header_utf8(&self) -> (r: bool)
        ensures
            r == self.strict_view(),
    {
        self.strict_header_utf8
    }
}

impl Default for ChannelDumpOptions {
    /// The same as [`ChannelDumpOptions::new`].
    fn default() -> (r: ChannelDumpOptions)
        ensures
            !r.strict_view(),
    {
        ChannelDumpOptions::new()
    }
}

/// The value FreeSWITCH writes for a variable that is not set.
pub open spec fn undef_value() -> Seq<char> {
    "_undef_"@
}

/// One line of a dumped channel: like [`line_outcome`] in the block named
/// `event header`, except that invalid UTF-8 in a value is the error
/// [`Fault::Utf8InHeader`] when `strict` and decoded lossily otherwise, and
/// a line whose value is `_undef_` yields nothing.
pub open spec fn dump_line_outcome(line: Seq<char>, strict: bool) -> Result<Option<Entry>, Fault> {
    let t = trimmed(line);
    if t.len() == 0 {
        Ok(None)
    } else {
        match first_index_of(t, ':') {
            None => Err(Fault::InvalidHeader(t)),
            Some(c) => {
                let key = normalized_header_key(trimmed(t.take(c)));
                let bytes = percent_decoded(vstd::utf8::encode_utf8(trimmed(t.skip(c + 1))));
                let value = if vstd::utf8::valid_utf8(bytes) {
                    Some(vstd::utf8::decode_utf8(bytes))
                } else if strict {
                    None
                } else {
                    Some(utf8_lossy(bytes))
                };
                match value {
                    None => Err(Fault::Utf8InHeader("event header"@, key)),
                    Some(v) => if v == undef_value() {
                        Ok(None)
                    } else {
                        Ok(Some((key, v)))
                    },
                }
            },
        }
    }
}

/// The entries after adding the dumped lines `lines` to `e`, or the first
/// fault.
pub open spec fn dump_block_outcome(e: Seq<Entry>, lines: Seq<Seq<char>>, strict: bool) -> Result<
    Seq<Entry>,
    Fault,
>
    decreases lines.len(),
{
    if lines.len() == 0 {
        Ok(e)
    } else {
        match dump_line_outcome(lines[0], strict) {
            Err(f) => Err(f),
            Ok(None) => dump_block_outcome(e, lines.skip(1), strict),
            Ok(Some(en)) => dump_block_outcome(insert_entry(e, en.0, en.1), lines.skip(1), strict),
        }
    }
}

/// The event a serialized channel dump decodes to: its header lines up to
/// the first blank line (see [`dump_line_outcome`]), then a non-empty inner
/// body if any, its type named by `Event-Name`.
pub open spec fn dump_event(payload: Seq<char>, strict: bool) -> EventModel {
    let (section, inner) = match find_seq(payload, "\n\n"@) {
        Some(p) => (payload.take(p), Some(payload.skip(p + 2))),
        None => (payload, None),
    };
    match dump_block_outcome(Seq::empty(), split_lines(section), strict) {
        Err(f) => EventModel::Failed(f),
        Ok(h) => EventModel::Parsed {
            headers: h,
            body: match inner {
                Some(ib) => if ib.len() > 0 {
                    Some(ib)
                } else {
                    None
                },
                None => None,
            },
            event_type: type_by_name(h),
        },
    }
}

/// A dumped block built from an empty map never repeats a key.
proof fn lemma_dump_block_distinct(e: Seq<Entry>, lines: Seq<Seq<char>>, strict: bool)
    requires
        keys_distinct(e),
    ensures
        dump_block_outcome(e, lines, strict) matches Ok(h) ==> keys_distinct(h),
    decreases lines.len(),
{
    if lines.len() > 0 {
        match dump_line_outcome(lines[0], strict) {
            Err(_) => {},
            Ok(None) => lemma_dump_block_distinct(e, lines.skip(1), strict),
            Ok(Some(en)) => {
                lemma_insert_keeps_distinct(e, en.0, en.1);
                lemma_dump_block_distinct(insert_entry(e, en.0, en.1), lines.skip(1), strict);
            },
        }
    }
}

/// Parse one dumped line (see [`dump_line_outcome`]).
fn parse_dump_line(line: &str, strict: bool) -> (r: EslResult<Option<(String, String)>>)
    ensures
        match dump_line_outcome(line@, strict) {
            Ok(None) => r matches Ok(None),
            Ok(Some(en)) => r matches Ok(Some(kv)) && kv.0@ == en.0 && kv.1@ == en.1,
            Err(f) => r matches Err(e) && error_is(e, f),
        },
{
    let t = trim(line);
    let tv = to_chars(t);
    if tv.len() == 0 {
        return Ok(None);
    }
    match find_char(&tv, ':') {
        None => {
            proof {
                lemma_no_index(t@, ':');
            }
            Err(EslError::InvalidHeader { header: owned(t) })
        },
        Some(c) => {
            proof {
                lemma_first_index(t@, ':', c as int);
            }
            let head = from_char_range(&tv, 0, c);
            let tail = from_char_range(&tv, c + 1, tv.len());
            assert(head@ =~= t@.take(c as int));
            assert(tail@ =~= t@.skip(c + 1));
            let key = normalize_key(trim(head.as_str()));
            let bytes = percent_decode(trim(tail.as_str()));
            let lossy = lossy_string(bytes.as_slice());
            let value = match string_from_utf8(bytes) {
                Ok(v) => v,
                Err(_) => {
                    if strict {
                        return Err(EslError::InvalidUtf8InHeader { context: owned("event header"), key });
                    }
                    lossy
                },
            };
            if str_eq(value.as_str(), "_undef_") {
                Ok(None)
            } else {
                Ok(Some((key, value)))
            }
        },
    }
}

/// Add the dumped lines of `block` to `map` (see [`dump_block_outcome`]).
fn parse_dump_block_into(block: &str, strict: bool, map: &mut HeaderMap) -> (r: EslResult<()>)
    ensures
        match dump_block_outcome(map_entries(*old(map)), split_lines(block@), strict) {
            Ok(e) => r is Ok && map_entries(*final(map)) == e,
            Err(f) => r matches Err(err) && error_is(err, f),
        },
{
    let lines = split_at_newlines(block);
    let ghost ls = split_lines(block@);
    let ghost e0 = map_entries(*map);
    assert(ls.skip(0) =~= ls);
    let mut i: usize = 0;
    while i < lines.len()
        invariant
            i <= lines.len(),
            lines@.len() == ls.len(),
            ls == split_lines(block@),
            e0 == map_entries(*old(map)),
            forall|k: int| 0 <= k < lines@.len() ==> #[trigger] lines@[k]@ == ls[k],
            dump_block_outcome(map_entries(*map), ls.skip(i as int), strict) == dump_block_outcome(
                e0,
                ls,
                strict,
            ),
        decreases lines.len() - i,
    {
        proof {
            assert(lines@[i as int]@ == ls[i as int]);
            assert(ls.skip(i as int)[0] == lines@[i as int]@);
            assert(ls.skip(i as int).skip(1) =~= ls.skip(i + 1));
        }
        match parse_dump_line(lines[i].as_str(), strict) {
            Ok(None) => {},
            Ok(Some((k, v))) => {
                crate::header_map::map_insert(map, k, v);
            },
            Err(e) => {
                return Err(e);
            },
        }
        i += 1;
    }
    assert(ls.skip(i as int) =~= Seq::<Seq<char>>::empty());
    Ok(())
}

/// Decode a serialized channel (see [`dump_event`]).
fn decode_dump(payload: &str, strict: bool) -> (r: EslResult<EslEvent>)
    ensures
        event_result_is(r, dump_event(payload@, strict)),
{
    let v = to_chars(payload);
    let (section, inner) = match find_blank_line(&v) {
        Some(p) => {
            proof {
                reveal_strlit("\n\n");
                crate::buffer::lemma_find_seq_first(v@, "\n\n"@, p as int);
                assert("\n\n"@.len() == 2);
                assert(p + 2 <= v@.len());
                assert(p + 2 <= v.len());
            }
            (from_char_range(&v, 0, p), Some(from_char_range(&v, p + 2, v.len())))
        },
        None => (owned(payload), None),
    };
    let mut headers = map_new();
    parse_dump_block_into(section.as_str(), strict, &mut headers)?;
    proof {
        lemma_dump_block_distinct(Seq::empty(), split_lines(section@), strict);
        crate::header_map::lemma_insert_all_distinct(map_entries(headers));
    }
    let mut event = EslEvent::new();
    copy_headers(&mut event, &headers);
    match inner {
        Some(ib) => {
            if ib.unicode_len() > 0 {
                event.set_body(ib);
            }
        },
        None => {},
    }
    apply_event_name(&mut event);
    Ok(event)
}

/// What a `uuid_dump` body decodes to under `strict`: the failure
/// [`parse_api_body`](crate::command::parse_api_body) gives; a refusal
/// naming `json` or `xml` when the payload, trimmed, starts with `{` or
/// `<`; otherwise the serialized channel (see [`dump_event`]).
pub open spec fn channel_dump_outcome(r: EslResult<EslEvent>, body: Seq<char>, strict: bool) -> bool {
    match crate::command::spec_api_payload(body) {
        Err(()) => if crate::command::api_body_core(body).len() == 0 {
            r matches Err(EslError::ProtocolError { message }) && message@ == "api response body is empty"@
        } else {
            r matches Err(EslError::CommandFailed { reply_text }) && reply_text@
                == crate::command::api_body_core(body)
        },
        Ok(p) => {
            let t = trimmed(p);
            if t.len() > 0 && t[0] == '{' {
                r matches Err(EslError::InvalidEventFormat { format }) && format@ == "json"@
            } else if t.len() > 0 && t[0] == '<' {
                r matches Err(EslError::InvalidEventFormat { format }) && format@ == "xml"@
            } else {
                event_result_is(r, dump_event(p, strict))
            }
        },
    }
}

/// Parse a `uuid_dump <uuid>` body into the `CHANNEL_DATA` event it is
/// (see [`channel_dump_outcome`]), with control over UTF-8 decoding.
pub fn parse_channel_dump_with_options(body: &str, options: &ChannelDumpOptions) -> (r: EslResult<EslEvent>)
    ensures
        channel_dump_outcome(r, body@, options.strict_view()),
{
    let payload = crate::command::parse_api_body(body)?;
    let t = to_chars(trim(payload));
    if t.len() > 0 && t[0] == '{' {
        return Err(EslError::InvalidEventFormat { format: owned("json") });
    }
    if t.len() > 0 && t[0] == '<' {
        return Err(EslError::InvalidEventFormat { format: owned("xml") });
    }
    decode_dump(payload, options.strict_header_utf8())
}

/// Parse a `uuid_dump <uuid>` body with the default options (invalid UTF-8
/// in a value decoded lossily).
pub fn parse_channel_dump(body: &str) -> (r: EslResult<EslEvent>)
    ensures
        channel_dump_outcome(r, body@, false),
{
    let options = ChannelDumpOptions::new();
    parse_channel_dump_with_options(body, &options)
}

} // verus!
