//! Command execution, reply classification and api body parsing.

use crate::error::{EslError, EslResult};
use crate::event::{opt_str_view, EslEvent};
use crate::header_map::{
    insert_entry, key_index, keys_distinct, lemma_key_index_absent, lookup, map_entries, map_get_index, map_get_str, map_insert, map_len,
    map_new, map_set, insert_all, Entry, HeaderMap,
};
use crate::numeric::{decimal, u64_to_string, usize_to_string};
use crate::text::{
    concat2, concat3, ends_with, has_newline, owned, push_char, push_str, starts_with,
    str_has_newline, str_starts_with, to_chars,
};
use vstd::prelude::*;

verus! {

broadcast use vstd::string::group_string_axioms;

// ---------------------------------------------------------------------------
// Newline validation
// ---------------------------------------------------------------------------

/// Reject a user-provided string containing a newline or carriage return.
///
/// ESL commands are line-delimited; an embedded newline would inject a
/// second protocol command.
pub fn validate_no_newlines(s: &str, context: &str) -> (r: EslResult<()>)
    ensures
        r is Ok <==> !has_newline(s@),
        r matches Err(e) ==> e matches EslError::ProtocolError { message } && message@ == context@
            + " must not contain newlines"@,
{
    if str_has_newline(s) {
        Err(EslError::ProtocolError { message: concat2(context, " must not contain newlines") })
    } else {
        Ok(())
    }
}

// ---------------------------------------------------------------------------
// Reply classification
// ---------------------------------------------------------------------------

/// `Reply-Text` classification per the ESL wire protocol.
#[derive(Debug, Clone, Copy, PartialEq, Eq, Structural)]
pub enum ReplyStatus {
    /// Reply-Text starts with `+OK` or is absent/empty.
    Success,
    /// Reply-Text starts with `-ERR`.
    Error,
    /// Reply-Text present but matches neither `+OK` nor `-ERR` (normal for
    /// `getvar`, which answers with the bare value).
    Other,
}

/// The status a `Reply-Text` value (or its absence) stands for.
pub open spec fn status_of(reply_text: Option<Seq<char>>) -> ReplyStatus {
    match reply_text {
        None => ReplyStatus::Success,
        Some(t) => if t.len() == 0 {
            ReplyStatus::Success
        } else if starts_with(t, "+OK"@) {
            ReplyStatus::Success
        } else if starts_with(t, "-ERR"@) {
            ReplyStatus::Error
        } else {
            ReplyStatus::Other
        },
    }
}

/// The body FreeSWITCH api output reduces to: one trailing `\n` dropped, then
/// one trailing `\r`.
pub open spec fn api_body_core(body: Seq<char>) -> Seq<char> {
    let b1 = if ends_with(body, "\n"@) { body.drop_last() } else { body };
    if ends_with(b1, "\r"@) { b1.drop_last() } else { b1 }
}

/// What [`parse_api_body`] makes of a body: `Ok(payload)` or `Err(())` for a
/// command failure (`-ERR`/`-USAGE`) or an empty body.
pub open spec fn spec_api_payload(body: Seq<char>) -> Result<Seq<char>, ()> {
    let b = api_body_core(body);
    if b.len() == 0 {
        Err(())
    } else if starts_with(b, "+OK"@) {
        let rest = b.skip(3);
        Ok(if rest.len() > 0 && rest[0] == ' ' { rest.skip(1) } else { rest })
    } else if starts_with(b, "-ERR"@) || starts_with(b, "-USAGE"@) {
        Err(())
    } else {
        Ok(b)
    }
}

/// Parse a FreeSWITCH API response body into a result.
///
/// A trailing `\n` (then `\r`) is stripped. `+OK` is stripped along with one
/// following space; `-ERR`/`-USAGE` bodies are [`EslError::CommandFailed`]
/// carrying the stripped body; an empty body is a protocol error; anything
/// else is returned as is.
pub fn parse_api_body(body: &str) -> (r: EslResult<&str>)
    ensures
        match r {
            Ok(p) => spec_api_payload(body@) == Ok::<Seq<char>, ()>(p@),
            Err(e) => spec_api_payload(body@) is Err && (if api_body_core(body@).len() == 0 {
                e matches EslError::ProtocolError { message } && message@
                    == "api response body is empty"@
            } else {
                e matches EslError::CommandFailed { reply_text } && reply_text@ == api_body_core(
                    body@,
                )
            }),
        },
{
    let v = to_chars(body);
    let mut end = v.len();
    proof {
        reveal_strlit("\n");
        reveal_strlit("\r");
        crate::text::lemma_ends_with_one(body@, "\n"@);
    }
    if end > 0 && v[end - 1] == '\n' {
        end = end - 1;
    }
    let ghost b1 = if ends_with(body@, "\n"@) { body@.drop_last() } else { body@ };
    assert(b1 =~= body@.take(end as int));
    proof {
        crate::text::lemma_ends_with_one(b1, "\r"@);
    }
    if end > 0 && v[end - 1] == '\r' {
        end = end - 1;
    }
    assert(api_body_core(body@) =~= body@.take(end as int));
    let b = body.substring_char(0, end);
    assert(b@ =~= api_body_core(body@));
    if end == 0 {
        return Err(EslError::ProtocolError { message: owned("api response body is empty") });
    }
    if str_starts_with(b, "+OK") {
        proof {
            reveal_strlit("+OK");
        }
        let bv = to_chars(b);
        let mut start: usize = 3;
        if start < bv.len() && bv[start] == ' ' {
            start = 4;
        }
        let rest = b.substring_char(start, bv.len());
        assert(rest@ =~= (if b@.skip(3).len() > 0 && b@.skip(3)[0] == ' ' {
            b@.skip(3).skip(1)
        } else {
            b@.skip(3)
        }));
        Ok(rest)
    } else if str_starts_with(b, "-ERR") || str_starts_with(b, "-USAGE") {
        Err(EslError::CommandFailed { reply_text: owned(b) })
    } else {
        Ok(b)
    }
}

/// Strips a bare `+OK` (or `+OK ` prefix) the way [`parse_api_body`] does.
fn status_from_reply(reply: Option<&str>) -> (r: ReplyStatus)
    ensures
        r == status_of(opt_str_view(reply)),
{
    match reply {
        None => ReplyStatus::Success,
        Some(t) => {
            if t.unicode_len() == 0 {
                ReplyStatus::Success
            } else if str_starts_with(t, "+OK") {
                ReplyStatus::Success
            } else if str_starts_with(t, "-ERR") {
                ReplyStatus::Error
            } else {
                ReplyStatus::Other
            }
        },
    }
}

// ---------------------------------------------------------------------------
// EslResponse
// ---------------------------------------------------------------------------

/// A header whose percent-decoded value was not valid UTF-8 and was decoded
/// lossily; the on-wire value is kept.
#[derive(Debug, Clone, PartialEq, Eq)]
pub struct LossyValue {
    /// Header key.
    pub key: String,
    /// The value as it was on the wire (still percent-encoded).
    pub raw_value: String,
}

/// Response from ESL command execution.
#[derive(Debug, Clone)]
pub struct EslResponse {
    headers: HeaderMap,
    body: Option<String>,
    raw_body: Option<Vec<u8>>,
    status: ReplyStatus,
    lossy_values: Vec<LossyValue>,
}

/// Headers with each key in its canonical form (see
/// [`normalized_header_key`](crate::protocol::normalized_header_key)), set
/// in order, so two spellings of one header collapse to one entry that holds
/// the later value.
pub open spec fn canonical_entries(e: Seq<Entry>) -> Seq<Entry> {
    insert_all(Seq::empty(), e.map_values(|x: Entry| (crate::protocol::normalized_header_key(x.0), x.1)))
}

/// A copy of `headers` with every key in its canonical form.
fn canonical_map(headers: &HeaderMap) -> (r: HeaderMap)
    ensures
        map_entries(r) == canonical_entries(map_entries(*headers)),
{
    let ghost pairs = map_entries(*headers).map_values(
        |x: Entry| (crate::protocol::normalized_header_key(x.0), x.1),
    );
    let mut m = map_new();
    let n = map_len(headers);
    let mut i: usize = 0;
    while i < n
        invariant
            n == map_entries(*headers).len(),
            pairs.len() == n,
            i <= n,
            pairs == map_entries(*headers).map_values(
                |x: Entry| (crate::protocol::normalized_header_key(x.0), x.1),
            ),
            map_entries(m) == insert_all(Seq::empty(), pairs.take(i as int)),
        decreases n - i,
    {
        let (k, v) = map_get_index(headers, i);
        let nk = crate::protocol::normalize_key(k.as_str());
        map_set(&mut m, nk.as_str(), v.as_str());
        proof {
            assert(pairs.take(i + 1).drop_last() =~= pairs.take(i as int));
            assert(pairs.take(i + 1).last() == pairs[i as int]);
        }
        i += 1;
    }
    assert(pairs.take(n as int) =~= pairs);
    m
}

impl EslResponse {
    /// The header entries.
    pub closed spec fn header_entries(self) -> Seq<Entry> {
        map_entries(self.headers)
    }

    /// The body, as characters.
    pub closed spec fn body_view(self) -> Option<Seq<char>> {
        crate::channel::opt_view(self.body)
    }

    /// The exact wire bytes of a body that was not valid UTF-8.
    pub closed spec fn raw_body_view(self) -> Option<Seq<u8>> {
        match self.raw_body {
            Some(b) => Some(b@),
            None => None,
        }
    }

    /// The classification of the reply.
    pub closed spec fn status_view(self) -> ReplyStatus {
        self.status
    }

    /// The lossily decoded headers.
    pub closed spec fn lossy_view(self) -> Seq<LossyValue> {
        self.lossy_values@
    }

    /// The `Reply-Text` value.
    pub open spec fn reply_text_view(self) -> Option<Seq<char>> {
        lookup(self.header_entries(), "Reply-Text"@)
    }

    /// Build a reply. Keys are put in their canonical form (see
    /// [`canonical_entries`]), so two spellings of one header collapse to one
    /// entry; the status is derived from the `Reply-Text` header.
    pub fn new(headers: HeaderMap, body: Option<String>) -> (r: EslResponse)
        ensures
            r.header_entries() == canonical_entries(map_entries(headers)),
            r.body_view() == crate::channel::opt_view(body),
            r.raw_body_view() is None,
            r.lossy_view() == Seq::<LossyValue>::empty(),
            r.status_view() == status_of(lookup(canonical_entries(map_entries(headers)), "Reply-Text"@)),
    {
        let headers = canonical_map(&headers);
        let status = status_from_reply(map_get_str(&headers, "Reply-Text"));
        EslResponse { headers, body, raw_body: None, status, lossy_values: Vec::new() }
    }

    /// Build a reply that also carries the raw body bytes and the lossy-decode
    /// record of the message it was parsed from.
    pub fn with_decoding(
        headers: HeaderMap,
        body: Option<String>,
        raw_body: Option<Vec<u8>>,
        lossy_values: Vec<LossyValue>,
    ) -> (r: EslResponse)
        ensures
            r.header_entries() == map_entries(headers),
            r.body_view() == crate::channel::opt_view(body),
            r.raw_body_view() == (match raw_body {
                Some(b) => Some(b@),
                None => None::<Seq<u8>>,
            }),
            r.lossy_view() == lossy_values@,
            r.status_view() == status_of(lookup(map_entries(headers), "Reply-Text"@)),
    {
        let status = status_from_reply(map_get_str(&headers, "Reply-Text"));
        EslResponse { headers, body, raw_body, status, lossy_values }
    }

    /// Exact wire bytes of the response body when it was not valid UTF-8.
    pub fn raw_body(&self) -> (r: Option<&[u8]>)
        ensures
            match r {
                Some(b) => self.raw_body_view() == Some(b@),
                None => self.raw_body_view() is None,
            },
    {
        match &self.raw_body {
            Some(b) => Some(b.as_slice()),
            None => None,
        }
    }

    /// Headers whose value was decoded lossily; empty in the normal case.
    pub fn lossy_values(&self) -> (r: &Vec<LossyValue>)
        ensures
            r@ == self.lossy_view(),
    {
        &self.lossy_values
    }

    /// `true` if Reply-Text is `+OK` or absent.
    pub fn is_success(&self) -> (r: bool)
        ensures
            r == (self.status_view() == ReplyStatus::Success),
    {
        self.status == ReplyStatus::Success
    }

    /// Classification of the `Reply-Text` header.
    pub fn reply_status(&self) -> (r: ReplyStatus)
        ensures
            r == self.status_view(),
    {
        self.status
    }

    /// Response body (the `api/` response payload, or `bgapi` result).
    pub fn body(&self) -> (r: Option<&str>)
        ensures
            opt_str_view(r) == self.body_view(),
    {
        match &self.body {
            Some(b) => Some(b.as_str()),
            None => None,
        }
    }

    /// Body as owned `String`, empty if `None`.
    pub fn body_string(&self) -> (r: String)
        ensures
            r@ == (match self.body_view() {
                Some(b) => b,
                None => Seq::<char>::empty(),
            }),
    {
        match &self.body {
            Some(b) => b.clone(),
            None => String::new(),
        }
    }

    /// Look up a response header by the canonical form of `name` (see
    /// [`normalized_header_key`](crate::protocol::normalized_header_key)):
    /// any casing of a framing header finds it, while `variable_*` and SIP
    /// header names keep their case.
    pub fn header(&self, name: &str) -> (r: Option<&str>)
        ensures
            opt_str_view(r) == lookup(self.header_entries(), crate::protocol::normalized_header_key(name@)),
    {
        let key = crate::protocol::normalize_key(name);
        map_get_str(&self.headers, key.as_str())
    }

    /// All response headers.
    pub fn headers(&self) -> (r: &HeaderMap)
        ensures
            map_entries(*r) == self.header_entries(),
    {
        &self.headers
    }

    /// Raw `Reply-Text` header value (e.g. `+OK`, `-ERR invalid command`).
    pub fn reply_text(&self) -> (r: Option<&str>)
        ensures
            opt_str_view(r) == self.reply_text_view(),
    {
        map_get_str(&self.headers, "Reply-Text")
    }

    /// `Job-UUID` header from `bgapi` responses.
    pub fn job_uuid(&self) -> (r: Option<&str>)
        ensures
            opt_str_view(r) == lookup(self.header_entries(), "Job-UUID"@),
    {
        map_get_str(&self.headers, "Job-UUID")
    }

    /// UUID of the event fired by `sendevent`: the text after `+OK ` in the
    /// Reply-Text, or `None` when there is none.
    pub fn event_uuid(&self) -> (r: Option<&str>)
        ensures
            match self.reply_text_view() {
                Some(t) => if starts_with(t, "+OK "@) && t.len() > 4 {
                    r matches Some(u) && u@ == t.skip(4)
                } else {
                    r is None
                },
                None => r is None,
            },
    {
        match self.reply_text() {
            Some(t) => {
                if str_starts_with(t, "+OK ") {
                    let n = t.unicode_len();
                    proof {
                        reveal_strlit("+OK ");
                    }
                    if n > 4 {
                        Some(t.substring_char(4, n))
                    } else {
                        None
                    }
                } else {
                    None
                }
            },
            None => None,
        }
    }

    /// The failure an `-ERR` Reply-Text names.
    fn command_failed(&self) -> (e: EslError)
        ensures
            e matches EslError::CommandFailed { reply_text } && reply_text@ == (
            match self.reply_text_view() {
                Some(t) => t,
                None => "-ERR"@,
            }),
    {
        let t = match self.reply_text() {
            Some(t) => owned(t),
            None => owned("-ERR"),
        };
        EslError::CommandFailed { reply_text: t }
    }

    /// Parse the response body as an API result: a `-ERR` reply is a command
    /// failure; otherwise the body (empty if absent) goes through
    /// [`parse_api_body`].
    pub fn api_result(&self) -> (r: EslResult<&str>)
        ensures
            self.status_view() == ReplyStatus::Error ==> (r matches Err(
                EslError::CommandFailed { reply_text },
            ) && reply_text@ == (match self.reply_text_view() {
                Some(t) => t,
                None => "-ERR"@,
            })),
            self.status_view() != ReplyStatus::Error ==> {
                let b = match self.body_view() {
                    Some(b) => b,
                    None => Seq::<char>::empty(),
                };
                match r {
                    Ok(p) => spec_api_payload(b) == Ok::<Seq<char>, ()>(p@),
                    Err(_) => spec_api_payload(b) is Err,
                }
            },
    {
        if self.status == ReplyStatus::Error {
            return Err(self.command_failed());
        }
        let body: &str = match &self.body {
            Some(b) => b.as_str(),
            None => "",
        };
        proof {
            reveal_strlit("");
            assert(""@ =~= Seq::<char>::empty());
        }
        parse_api_body(body)
    }

    /// Require a successful reply and keep nothing.
    pub fn check(self) -> (r: EslResult<()>)
        ensures
            r is Ok <==> self.status_view() == ReplyStatus::Success,
    {
        match self.into_result() {
            Ok(_) => Ok(()),
            Err(e) => Err(e),
        }
    }

    /// Convert to a result: `+OK` is `Ok`, `-ERR` is `CommandFailed`, any
    /// other reply is `UnexpectedReply`.
    pub fn into_result(self) -> (r: EslResult<EslResponse>)
        ensures
            match self.status_view() {
                ReplyStatus::Success => r matches Ok(s) && s == self,
                ReplyStatus::Error => r matches Err(EslError::CommandFailed { reply_text })
                    && reply_text@ == (match self.reply_text_view() {
                    Some(t) => t,
                    None => "-ERR"@,
                }),
                ReplyStatus::Other => r matches Err(EslError::UnexpectedReply { reply_text })
                    && reply_text@ == (match self.reply_text_view() {
                    Some(t) => t,
                    None => Seq::<char>::empty(),
                }),
            },
    {
        match self.status {
            ReplyStatus::Success => Ok(self),
            ReplyStatus::Error => Err(self.command_failed()),
            ReplyStatus::Other => {
                let t = match self.reply_text() {
                    Some(t) => owned(t),
                    None => String::new(),
                };
                Err(EslError::UnexpectedReply { reply_text: t })
            },
        }
    }
}

// ---------------------------------------------------------------------------
// CommandBuilder
// ---------------------------------------------------------------------------

/// The header lines of a command: `key: value\n` for each entry, in order.
pub open spec fn header_lines(e: Seq<Entry>) -> Seq<char>
    decreases e.len(),
{
    if e.len() == 0 {
        Seq::empty()
    } else {
        header_lines(e.drop_last()) + e.last().0 + ": "@ + e.last().1 + "\n"@
    }
}

/// Byte length of a string's UTF-8 encoding.
pub open spec fn utf8_len(s: Seq<char>) -> nat {
    vstd::utf8::encode_utf8(s).len()
}

/// The wire text a command builder produces: the command line, the header
/// lines, then either a blank line or `Content-Length`, a blank line and the
/// body.
pub open spec fn builder_text(command: Seq<char>, e: Seq<Entry>, body: Option<Seq<char>>) -> Seq<char> {
    command + "\n"@ + header_lines(e) + match body {
        Some(b) => "Content-Length: "@ + decimal(utf8_len(b)) + "\n"@ + "\n"@ + b,
        None => "\n"@,
    }
}

/// Builder for custom ESL commands, producing the wire text with headers and
/// an optional length-delimited body.
#[derive(Debug)]
pub struct CommandBuilder {
    command: String,
    headers: HeaderMap,
    body: Option<String>,
}

impl CommandBuilder {
    /// The command line.
    pub closed spec fn command_view(self) -> Seq<char> {
        self.command@
    }

    /// The header entries.
    pub closed spec fn header_entries(self) -> Seq<Entry> {
        map_entries(self.headers)
    }

    /// The body.
    pub closed spec fn body_view(self) -> Option<Seq<char>> {
        crate::channel::opt_view(self.body)
    }

    /// Start building a command with the given command line.
    pub fn new(command: &str) -> (r: CommandBuilder)
        ensures
            r.command_view() == command@,
            r.header_entries() == Seq::<Entry>::empty(),
            r.body_view() is None,
    {
        CommandBuilder { command: owned(command), headers: map_new(), body: None }
    }

    /// Add a header; an error if the name or value contains a newline.
    pub fn header(self, name: &str, value: &str) -> (r: EslResult<CommandBuilder>)
        ensures
            r is Ok <==> !has_newline(name@) && !has_newline(value@),
            r matches Ok(b) ==> b.command_view() == self.command_view() && b.body_view()
                == self.body_view() && b.header_entries() == insert_entry(
                self.header_entries(),
                name@,
                value@,
            ),
            r matches Err(e) ==> e matches EslError::ProtocolError { message } && entry_error(
                (name@, value@),
            ) == Some(message@),
    {
        validate_no_newlines(name, "header name")?;
        validate_no_newlines(value, "header value")?;
        let mut s = self;
        map_insert(&mut s.headers, owned(name), owned(value));
        Ok(s)
    }

    /// Set the command body (length-delimited, so it may contain newlines).
    pub fn body(self, body: &str) -> (r: CommandBuilder)
        ensures
            r.command_view() == self.command_view(),
            r.header_entries() == self.header_entries(),
            r.body_view() == Some(body@),
    {
        let mut s = self;
        s.body = Some(owned(body));
        s
    }

    /// Build the command string.
    pub fn build(self) -> (r: String)
        ensures
            r@ == builder_text(self.command_view(), self.header_entries(), self.body_view()),
    {
        let mut result = self.command.clone();
        push_str(&mut result, "\n");
        let n = map_len(&self.headers);
        let mut i: usize = 0;
        while i < n
            invariant
                n == map_entries(self.headers).len(),
                i <= n,
                result@ == self.command@ + "\n"@ + header_lines(map_entries(self.headers).take(i as int)),
            decreases n - i,
        {
            let (k, v) = map_get_index(&self.headers, i);
            push_str(&mut result, k.as_str());
            push_str(&mut result, ": ");
            push_str(&mut result, v.as_str());
            push_str(&mut result, "\n");
            assert(map_entries(self.headers).take(i + 1).drop_last() =~= map_entries(self.headers).take(i as int));
            i += 1;
        }
        assert(map_entries(self.headers).take(n as int) =~= map_entries(self.headers));
        match &self.body {
            Some(b) => {
                push_str(&mut result, "Content-Length: ");
                let len = usize_to_string(b.as_str().as_bytes().len());
                push_str(&mut result, len.as_str());
                push_str(&mut result, "\n");
                push_str(&mut result, "\n");
                push_str(&mut result, b.as_str());
                assert(result@ =~= self.command@ + "\n"@ + header_lines(map_entries(self.headers))
                    + ("Content-Length: "@ + decimal(utf8_len(b@)) + "\n"@ + "\n"@ + b@));
            },
            None => {
                push_str(&mut result, "\n");
            },
        }
        assert(result@ =~= builder_text(self.command@, map_entries(self.headers), self.body_view()));
        result
    }
}

// ---------------------------------------------------------------------------
// EslCommand
// ---------------------------------------------------------------------------

/// The error message for a field that holds a newline.
pub open spec fn newline_error(context: Seq<char>) -> Seq<char> {
    context + " must not contain newlines"@
}

/// `text`, unless one of the `(value, context)` fields holds a newline: then
/// the error for the first such field.
pub open spec fn checked(fields: Seq<(Seq<char>, Seq<char>)>, text: Seq<char>) -> Result<
    Seq<char>,
    Seq<char>,
>
    decreases fields.len(),
{
    if fields.len() == 0 {
        Ok(text)
    } else if has_newline(fields[0].0) {
        Err(newline_error(fields[0].1))
    } else {
        checked(fields.skip(1), text)
    }
}

/// An optional field to check: nothing when absent.
pub open spec fn opt_field(v: Option<Seq<char>>, context: Seq<char>) -> Seq<(Seq<char>, Seq<char>)> {
    match v {
        Some(x) => seq![(x, context)],
        None => Seq::empty(),
    }
}

/// The arguments, each preceded by one space.
pub open spec fn spaced_args(args: Seq<Seq<char>>) -> Seq<char>
    decreases args.len(),
{
    if args.len() == 0 {
        Seq::empty()
    } else {
        spaced_args(args.drop_last()) + " "@ + args.last()
    }
}

/// A one-line command: the name, the space-separated arguments and the blank
/// line that ends the command.
pub open spec fn simple_line(cmd: Seq<char>, args: Seq<Seq<char>>) -> Seq<char> {
    cmd + spaced_args(args) + "\n\n"@
}

/// The error for the first header whose name or value holds a newline.
pub open spec fn entry_error(en: Entry) -> Option<Seq<char>> {
    if has_newline(en.0) {
        Some(newline_error("header name"@))
    } else if has_newline(en.1) {
        Some(newline_error("header value"@))
    } else {
        None
    }
}

/// The error for the first entry, in order, that [`entry_error`] rejects.
pub open spec fn first_entry_error(e: Seq<Entry>) -> Option<Seq<char>>
    decreases e.len(),
{
    if e.len() == 0 {
        None
    } else {
        match first_entry_error(e.drop_last()) {
            Some(m) => Some(m),
            None => entry_error(e.last()),
        }
    }
}

/// Once a prefix of the entries holds a bad header, the whole sequence fails
/// with the same error.
pub proof fn lemma_first_entry_error_prefix(e: Seq<Entry>, k: int)
    requires
        0 <= k <= e.len(),
        first_entry_error(e.take(k)) is Some,
    ensures
        first_entry_error(e) == first_entry_error(e.take(k)),
    decreases e.len(),
{
    if k < e.len() {
        assert(e.drop_last().take(k) =~= e.take(k));
        lemma_first_entry_error_prefix(e.drop_last(), k);
    } else {
        assert(e.take(k) =~= e);
    }
}

/// A header block sent through a [`CommandBuilder`]: the builder text, or the
/// error for the first header that holds a newline.
pub open spec fn framed(line: Seq<char>, e: Seq<Entry>, body: Option<Seq<char>>) -> Result<
    Seq<char>,
    Seq<char>,
> {
    match first_entry_error(e) {
        Some(m) => Err(m),
        None => Ok(builder_text(line, e, body)),
    }
}

/// `sendmsg`, followed by the uuid when there is one.
pub open spec fn sendmsg_line(uuid: Option<Seq<char>>) -> Seq<char> {
    match uuid {
        Some(u) => "sendmsg "@ + u,
        None => "sendmsg"@,
    }
}

/// The headers of the message that executes `app` on a channel.
pub open spec fn execute_entries(app: Seq<char>, args: Option<Seq<char>>) -> Seq<Entry> {
    let base = seq![("call-command"@, "execute"@), ("execute-app-name"@, app)];
    match args {
        Some(a) => base.push(("execute-app-arg"@, a)),
        None => base,
    }
}

/// The name `sendevent` announces: the event type, else the `Event-Name`
/// header, else `CUSTOM`.
pub open spec fn sendevent_name(event: EslEvent) -> Seq<char> {
    match event.type_view() {
        Some(t) => t.spec_name(),
        None => match lookup(event.header_entries(), "Event-Name"@) {
            Some(n) => n,
            None => "CUSTOM"@,
        },
    }
}

/// ESL command types. A command's text for logs is
/// [`EslCommand::redacted_text`], which never shows a password.
pub enum EslCommand {
    /// Authenticate with password
    Auth { password: String },
    /// Authenticate with user and password
    UserAuth { user: String, password: String },
    /// Execute API command
    Api { command: String },
    /// Execute background API command
    BgApi { command: String },
    /// Subscribe to events
    Events { format: String, events: String },
    /// Set event filters
    Filter { header: String, value: String },
    /// Send message to channel
    SendMsg { uuid: Option<String>, event: EslEvent },
    /// Execute application on channel
    Execute { app: String, args: Option<String>, uuid: Option<String> },
    /// Exit/logout
    Exit,
    /// Enable log forwarding at the given level
    Log { level: String },
    /// Disable log forwarding
    NoLog,
    /// No operation / keepalive
    NoOp,
    /// Fire an event into FreeSWITCH's event bus
    SendEvent { event: EslEvent },
    /// Subscribe to session events (outbound: no uuid, inbound: with uuid)
    MyEvents { format: String, uuid: Option<String> },
    /// Keep socket open after channel hangup
    Linger { timeout: Option<u32> },
    /// Cancel linger mode
    NoLinger,
    /// Resume dialplan execution on socket disconnect
    Resume,
    /// Unsubscribe from specific events
    NixEvent { events: String },
    /// Unsubscribe from all events
    NoEvents,
    /// Remove event filters
    FilterDelete { header: String, value: Option<String> },
    /// Redirect session events to ESL (outbound mode)
    DivertEvents { on: bool },
    /// Read a channel variable (outbound mode)
    GetVar { name: String },
    /// Request channel data in outbound mode
    Connect,
}

impl EslCommand {
    /// The wire text of the command, or the message of the error that
    /// rejects it.
    pub open spec fn wire_view(self) -> Result<Seq<char>, Seq<char>> {
        match self {
            EslCommand::Auth { password } => checked(
                seq![(password@, "password"@)],
                simple_line("auth"@, seq![password@]),
            ),
            EslCommand::UserAuth { user, password } => checked(
                seq![(user@, "user"@), (password@, "password"@)],
                simple_line("userauth"@, seq![user@ + ":"@ + password@]),
            ),
            EslCommand::Api { command } => checked(
                seq![(command@, "api command"@)],
                simple_line("api"@, seq![command@]),
            ),
            EslCommand::BgApi { command } => checked(
                seq![(command@, "bgapi command"@)],
                simple_line("bgapi"@, seq![command@]),
            ),
            EslCommand::Events { format, events } => checked(
                seq![(format@, "event format"@), (events@, "event list"@)],
                simple_line("event"@, seq![format@, events@]),
            ),
            EslCommand::Filter { header, value } => checked(
                seq![(header@, "filter header"@), (value@, "filter value"@)],
                simple_line("filter"@, seq![header@, value@]),
            ),
            EslCommand::SendMsg { uuid, event } => {
                let u = crate::channel::opt_view(uuid);
                match checked(opt_field(u, "sendmsg uuid"@), Seq::empty()) {
                    Err(m) => Err(m),
                    Ok(_) => framed(sendmsg_line(u), event.header_entries(), event.body_view()),
                }
            },
            EslCommand::Execute { app, args, uuid } => {
                let a = crate::channel::opt_view(args);
                let u = crate::channel::opt_view(uuid);
                let fields = seq![(app@, "execute app"@)] + opt_field(a, "execute args"@)
                    + opt_field(u, "execute uuid"@);
                match checked(fields, Seq::empty()) {
                    Err(m) => Err(m),
                    Ok(_) => framed(sendmsg_line(u), execute_entries(app@, a), None),
                }
            },
            EslCommand::Exit => Ok(simple_line("exit"@, Seq::empty())),
            EslCommand::Log { level } => checked(
                seq![(level@, "log level"@)],
                simple_line("log"@, seq![level@]),
            ),
            EslCommand::NoLog => Ok(simple_line("nolog"@, Seq::empty())),
            EslCommand::NoOp => Ok(simple_line("noop"@, Seq::empty())),
            EslCommand::SendEvent { event } => framed(
                "sendevent "@ + sendevent_name(event),
                event.header_entries(),
                event.body_view(),
            ),
            EslCommand::MyEvents { format, uuid } => {
                let u = crate::channel::opt_view(uuid);
                checked(
                    seq![(format@, "myevents format"@)] + opt_field(u, "myevents uuid"@),
                    match u {
                        Some(x) => simple_line("myevents"@, seq![x, format@]),
                        None => simple_line("myevents"@, seq![format@]),
                    },
                )
            },
            EslCommand::Linger { timeout } => Ok(
                match timeout {
                    Some(n) => simple_line("linger"@, seq![decimal(n as nat)]),
                    None => simple_line("linger"@, Seq::empty()),
                },
            ),
            EslCommand::NoLinger => Ok(simple_line("nolinger"@, Seq::empty())),
            EslCommand::Resume => Ok(simple_line("resume"@, Seq::empty())),
            EslCommand::NixEvent { events } => checked(
                seq![(events@, "nixevent list"@)],
                simple_line("nixevent"@, seq![events@]),
            ),
            EslCommand::NoEvents => Ok(simple_line("noevents"@, Seq::empty())),
            EslCommand::FilterDelete { header, value } => {
                let v = crate::channel::opt_view(value);
                checked(
                    seq![(header@, "filter delete header"@)] + opt_field(v, "filter delete value"@),
                    if header@ == "all"@ {
                        simple_line("filter"@, seq!["delete"@, "all"@])
                    } else {
                        match v {
                            Some(x) => simple_line("filter"@, seq!["delete"@, header@, x]),
                            None => simple_line("filter"@, seq!["delete"@, header@]),
                        }
                    },
                )
            },
            EslCommand::DivertEvents { on } => Ok(
                simple_line("divert_events"@, seq![if on { "on"@ } else { "off"@ }]),
            ),
            EslCommand::GetVar { name } => checked(
                seq![(name@, "getvar name"@)],
                simple_line("getvar"@, seq![name@]),
            ),
            EslCommand::Connect => Ok(simple_line("connect"@, Seq::empty())),
        }
    }

    /// Format a simple command with optional arguments.
    fn format_simple_command(cmd: &str, args: &[&str]) -> (r: String)
        ensures
            r@ == simple_line(cmd@, args@.map_values(|a: &str| a@)),
    {
        let ghost views = args@.map_values(|a: &str| a@);
        let mut result = owned(cmd);
        let mut i: usize = 0;
        while i < args.len()
            invariant
                i <= args.len(),
                views == args@.map_values(|a: &str| a@),
                result@ == cmd@ + spaced_args(views.take(i as int)),
            decreases args.len() - i,
        {
            push_char(&mut result, ' ');
            push_str(&mut result, args[i]);
            proof {
                reveal_strlit(" ");
                assert(views.take(i + 1).drop_last() =~= views.take(i as int));
                assert(" "@ =~= seq![' ']);
            }
            i += 1;
        }
        assert(views.take(args.len() as int) =~= views);
        push_str(&mut result, "\n\n");
        result
    }

    /// A command with no arguments.
    fn line0(cmd: &str) -> (r: String)
        ensures
            r@ == simple_line(cmd@, Seq::empty()),
    {
        let args: [&str; 0] = [];
        let r = Self::format_simple_command(cmd, args.as_slice());
        assert(args@.map_values(|a: &str| a@) =~= Seq::<Seq<char>>::empty());
        r
    }

    /// A command with one argument.
    fn line1(cmd: &str, a: &str) -> (r: String)
        ensures
            r@ == simple_line(cmd@, seq![a@]),
    {
        let args = [a];
        let r = Self::format_simple_command(cmd, args.as_slice());
        assert(args@.map_values(|x: &str| x@) =~= seq![a@]);
        r
    }

    /// A command with two arguments.
    fn line2(cmd: &str, a: &str, b: &str) -> (r: String)
        ensures
            r@ == simple_line(cmd@, seq![a@, b@]),
    {
        let args = [a, b];
        let r = Self::format_simple_command(cmd, args.as_slice());
        assert(args@.map_values(|x: &str| x@) =~= seq![a@, b@]);
        r
    }

    /// A command with three arguments.
    fn line3(cmd: &str, a: &str, b: &str, c: &str) -> (r: String)
        ensures
            r@ == simple_line(cmd@, seq![a@, b@, c@]),
    {
        let args = [a, b, c];
        let r = Self::format_simple_command(cmd, args.as_slice());
        assert(args@.map_values(|x: &str| x@) =~= seq![a@, b@, c@]);
        r
    }

    /// Send the headers and body of `event` under the command line `line`.
    fn frame(line: &str, event: &EslEvent) -> (r: EslResult<String>)
        ensures
            match framed(line@, event.header_entries(), event.body_view()) {
                Ok(t) => r matches Ok(w) && w@ == t,
                Err(m) => r matches Err(EslError::ProtocolError { message }) && message@ == m,
            },
    {
        let headers = event.headers();
        let ghost e = event.header_entries();
        let mut builder = CommandBuilder::new(line);
        let n = map_len(headers);
        let mut i: usize = 0;
        while i < n
            invariant
                n == e.len(),
                i <= n,
                e == map_entries(*headers),
                e == event.header_entries(),
                keys_distinct(e),
                builder.command_view() == line@,
                builder.body_view() is None,
                builder.header_entries() == e.take(i as int),
                first_entry_error(e.take(i as int)) is None,
            decreases n - i,
        {
            let (k, v) = map_get_index(headers, i);
            proof {
                let t = e.take(i as int);
                assert forall|j: int| 0 <= j < t.len() implies t[j].0 != k@ by {}
                lemma_key_index_absent(t, k@);
                assert(e.take(i + 1) =~= t.push((k@, v@)));
                assert(e.take(i + 1).drop_last() =~= t);
            }
            match builder.header(k.as_str(), v.as_str()) {
                Ok(b) => {
                    builder = b;
                },
                Err(err) => {
                    proof {
                        assert(e.take(i + 1).drop_last() =~= e.take(i as int));
                        assert(e.take(i + 1).last() == (k@, v@));
                        assert(first_entry_error(e.take(i + 1)) == entry_error((k@, v@)));
                        lemma_first_entry_error_prefix(e, i + 1);
                    }
                    return Err(err);
                },
            }
            i += 1;
        }
        assert(e.take(n as int) =~= e);
        match event.body() {
            Some(b) => {
                builder = builder.body(b);
            },
            None => {},
        }
        Ok(builder.build())
    }

    /// The wire text of the command with each password written as
    /// `[REDACTED]`, or the validation failure's message.
    pub open spec fn redacted_view(self) -> Result<Seq<char>, Seq<char>> {
        match self {
            EslCommand::Auth { .. } => checked(
                seq![("[REDACTED]"@, "password"@)],
                simple_line("auth"@, seq!["[REDACTED]"@]),
            ),
            EslCommand::UserAuth { user, .. } => checked(
                seq![(user@, "user"@), ("[REDACTED]"@, "password"@)],
                simple_line("userauth"@, seq![user@ + ":"@ + "[REDACTED]"@]),
            ),
            _ => self.wire_view(),
        }
    }

    /// Text of the command for logs: what it sends on the wire, with each
    /// password written as `[REDACTED]`; for a command that fails validation,
    /// the failure's message.
    pub fn redacted_text(&self) -> (r: String)
        ensures
            r@ == match self.redacted_view() {
                Ok(t) => t,
                Err(m) => m,
            },
    {
        let w = match self {
            EslCommand::Auth { .. } => {
                let c = EslCommand::Auth { password: owned("[REDACTED]") };
                c.to_wire_format()
            },
            EslCommand::UserAuth { user, .. } => {
                let c = EslCommand::UserAuth { user: owned(user.as_str()), password: owned("[REDACTED]") };
                c.to_wire_format()
            },
            _ => self.to_wire_format(),
        };
        match w {
            Ok(t) => t,
            Err(EslError::ProtocolError { message }) => message,
            Err(_) => String::new(),
        }
    }

    /// Validate all user-supplied fields, then convert to wire format.
    pub fn to_wire_format(&self) -> (r: EslResult<String>)
        ensures
            match self.wire_view() {
                Ok(t) => r matches Ok(w) && w@ == t,
                Err(m) => r matches Err(EslError::ProtocolError { message }) && message@ == m,
            },
    {
        proof {
            reveal_with_fuel(checked, 4);
        }
        match self {
            EslCommand::Auth { password } => {
                validate_no_newlines(password, "password")?;
                Ok(Self::line1("auth", password))
            },
            EslCommand::UserAuth { user, password } => {
                validate_no_newlines(user, "user")?;
                validate_no_newlines(password, "password")?;
                let joined = concat3(user, ":", password);
                Ok(Self::line1("userauth", &joined))
            },
            EslCommand::Api { command } => {
                validate_no_newlines(command, "api command")?;
                Ok(Self::line1("api", command))
            },
            EslCommand::BgApi { command } => {
                validate_no_newlines(command, "bgapi command")?;
                Ok(Self::line1("bgapi", command))
            },
            EslCommand::Events { format, events } => {
                validate_no_newlines(format, "event format")?;
                validate_no_newlines(events, "event list")?;
                Ok(Self::line2("event", format, events))
            },
            EslCommand::Filter { header, value } => {
                validate_no_newlines(header, "filter header")?;
                validate_no_newlines(value, "filter value")?;
                Ok(Self::line2("filter", header, value))
            },
            EslCommand::SendMsg { uuid, event } => {
                let line = match uuid {
                    Some(u) => {
                        validate_no_newlines(u, "sendmsg uuid")?;
                        concat2("sendmsg ", u)
                    },
                    None => owned("sendmsg"),
                };
                Self::frame(&line, event)
            },
            EslCommand::Execute { app, args, uuid } => {
                validate_no_newlines(app, "execute app")?;
                match args {
                    Some(a) => validate_no_newlines(a, "execute args")?,
                    None => {},
                }
                match uuid {
                    Some(u) => validate_no_newlines(u, "execute uuid")?,
                    None => {},
                }
                let mut event = EslEvent::new();
                event.set_header("call-command", "execute");
                event.set_header("execute-app-name", app);
                match args {
                    Some(a) => event.set_header("execute-app-arg", a),
                    None => {},
                }
                proof {
                    reveal_strlit("call-command");
                    reveal_strlit("execute-app-name");
                    reveal_strlit("execute-app-arg");
                    let a = crate::channel::opt_view(*args);
                    let e0 = Seq::<Entry>::empty();
                    let e1 = insert_entry(e0, "call-command"@, "execute"@);
                    assert(e1 =~= seq![("call-command"@, "execute"@)]);
                    assert("call-command"@.len() != "execute-app-name"@.len());
                    assert("call-command"@.len() != "execute-app-arg"@.len());
                    assert("execute-app-name"@.len() != "execute-app-arg"@.len());
                    let e2 = insert_entry(e1, "execute-app-name"@, app@);
                    assert(key_index(e1, "execute-app-name"@) == -1) by {
                        lemma_key_index_absent(e1, "execute-app-name"@);
                    }
                    assert(e2 =~= seq![("call-command"@, "execute"@), ("execute-app-name"@, app@)]);
                    if a is Some {
                        assert(key_index(e2, "execute-app-arg"@) == -1) by {
                            lemma_key_index_absent(e2, "execute-app-arg"@);
                        }
                    }
                    assert(event.header_entries() =~= execute_entries(app@, a));
                }
                let line = match uuid {
                    Some(u) => concat2("sendmsg ", u),
                    None => owned("sendmsg"),
                };
                Self::frame(&line, &event)
            },
            EslCommand::Exit => Ok(Self::line0("exit")),
            EslCommand::Log { level } => {
                validate_no_newlines(level, "log level")?;
                Ok(Self::line1("log", level))
            },
            EslCommand::NoLog => Ok(Self::line0("nolog")),
            EslCommand::NoOp => Ok(Self::line0("noop")),
            EslCommand::SendEvent { event } => {
                let name = match event.event_type() {
                    Some(t) => t.to_string(),
                    None => match event.header("Event-Name") {
                        Some(n) => owned(n),
                        None => owned("CUSTOM"),
                    },
                };
                let line = concat2("sendevent ", &name);
                Self::frame(&line, event)
            },
            EslCommand::MyEvents { format, uuid } => {
                validate_no_newlines(format, "myevents format")?;
                match uuid {
                    Some(u) => {
                        validate_no_newlines(u, "myevents uuid")?;
                        Ok(Self::line2("myevents", u, format))
                    },
                    None => Ok(Self::line1("myevents", format)),
                }
            },
            EslCommand::Linger { timeout } => match timeout {
                Some(n) => {
                    let t = u64_to_string(*n as u64);
                    Ok(Self::line1("linger", &t))
                },
                None => Ok(Self::line0("linger")),
            },
            EslCommand::NoLinger => Ok(Self::line0("nolinger")),
            EslCommand::Resume => Ok(Self::line0("resume")),
            EslCommand::NixEvent { events } => {
                validate_no_newlines(events, "nixevent list")?;
                Ok(Self::line1("nixevent", events))
            },
            EslCommand::NoEvents => Ok(Self::line0("noevents")),
            EslCommand::FilterDelete { header, value } => {
                validate_no_newlines(header, "filter delete header")?;
                match value {
                    Some(v) => validate_no_newlines(v, "filter delete value")?,
                    None => {},
                }
                if crate::text::str_eq(header, "all") {
                    Ok(Self::line2("filter", "delete", "all"))
                } else {
                    match value {
                        Some(v) => Ok(Self::line3("filter", "delete", header, v)),
                        None => Ok(Self::line2("filter", "delete", header)),
                    }
                }
            },
            EslCommand::DivertEvents { on } => {
                let arg = if *on { "on" } else { "off" };
                Ok(Self::line1("divert_events", arg))
            },
            EslCommand::GetVar { name } => {
                validate_no_newlines(name, "getvar name")?;
                Ok(Self::line1("getvar", name))
            },
            EslCommand::Connect => Ok(Self::line0("connect")),
        }
    }
}

/// `execute` runs on the channel it names: for an `Execute` command whose
/// fields hold no newline, the wire text is the `sendmsg` command line for
/// its uuid (`sendmsg <uuid>`, or bare `sendmsg` without one) followed by
/// `call-command: execute` and the application's name.
pub proof fn lemma_execute_targets_its_channel(c: EslCommand)
    requires
        c matches EslCommand::Execute { app, args, uuid } && !has_newline(app@) && (args matches Some(a)
            ==> !has_newline(a@)) && (uuid matches Some(u) ==> !has_newline(u@)),
    ensures
        c matches EslCommand::Execute { app, args, uuid } && c.wire_view() matches Ok(t) && (match uuid {
            Some(u) => starts_with(t, "sendmsg "@ + u@ + "\n"@ + "call-command: execute\n"@),
            None => starts_with(t, "sendmsg\n"@ + "call-command: execute\n"@),
        }),
{
    reveal_strlit("call-command");
    reveal_strlit("execute");
    reveal_strlit("execute-app-name");
    reveal_strlit("execute-app-arg");
    reveal_strlit(": ");
    reveal_strlit("\n");
    reveal_strlit("call-command: execute\n");
    if let EslCommand::Execute { app, args, uuid } = c {
        let a = crate::channel::opt_view(args);
        let u = crate::channel::opt_view(uuid);
        let fields = seq![(app@, "execute app"@)] + opt_field(a, "execute args"@) + opt_field(u, "execute uuid"@);
        assert(checked(fields, Seq::empty()) == Ok::<Seq<char>, Seq<char>>(Seq::empty())) by {
            reveal_with_fuel(checked, 4);
            assert(fields[0].0 == app@);
            match (a, u) {
                (Some(x), Some(y)) => {
                    assert(fields.skip(1) =~= seq![(x, "execute args"@), (y, "execute uuid"@)]);
                    assert(fields.skip(1).skip(1) =~= seq![(y, "execute uuid"@)]);
                    assert(fields.skip(1).skip(1).skip(1) =~= Seq::<(Seq<char>, Seq<char>)>::empty());
                },
                (Some(x), None) => {
                    assert(fields.skip(1) =~= seq![(x, "execute args"@)]);
                    assert(fields.skip(1).skip(1) =~= Seq::<(Seq<char>, Seq<char>)>::empty());
                },
                (None, Some(y)) => {
                    assert(fields.skip(1) =~= seq![(y, "execute uuid"@)]);
                    assert(fields.skip(1).skip(1) =~= Seq::<(Seq<char>, Seq<char>)>::empty());
                },
                (None, None) => {
                    assert(fields.skip(1) =~= Seq::<(Seq<char>, Seq<char>)>::empty());
                },
            }
        }
        let e = execute_entries(app@, a);
        let base = seq![("call-command"@, "execute"@), ("execute-app-name"@, app@)];
        assert(!has_newline("call-command"@) && !has_newline("execute"@) && !has_newline("execute-app-name"@)
            && !has_newline("execute-app-arg"@));
        let one = seq![("call-command"@, "execute"@)];
        assert(first_entry_error(e) is None) by {
            assert(first_entry_error(Seq::<Entry>::empty()) is None);
            assert(one.drop_last() =~= Seq::<Entry>::empty());
            assert(one.last() == ("call-command"@, "execute"@));
            assert(entry_error(one.last()) is None);
            assert(first_entry_error(one) is None);
            assert(base.drop_last() =~= one);
            assert(base.last() == ("execute-app-name"@, app@));
            assert(entry_error(base.last()) is None);
            assert(first_entry_error(base) is None);
            if let Some(x) = a {
                assert(e.drop_last() =~= base);
                assert(e.last() == ("execute-app-arg"@, x));
                assert(entry_error(e.last()) is None);
            }
        }
        assert(header_lines(one) =~= "call-command: execute\n"@) by {
            assert(one.drop_last() =~= Seq::<Entry>::empty());
            assert(header_lines(Seq::<Entry>::empty()) =~= Seq::<char>::empty());
            assert(one.last() == ("call-command"@, "execute"@));
        }
        let first = "call-command: execute\n"@;
        assert(starts_with(header_lines(e), first)) by {
            assert(base.drop_last() =~= one);
            assert(base.last() == ("execute-app-name"@, app@));
            assert(header_lines(base) == header_lines(one) + "execute-app-name"@ + ": "@ + app@ + "\n"@);
            assert(header_lines(base).take(first.len() as int) =~= first);
            if let Some(x) = a {
                assert(e.drop_last() =~= base);
                assert(header_lines(e) == header_lines(base) + e.last().0 + ": "@ + e.last().1 + "\n"@);
                assert(header_lines(e).take(first.len() as int) =~= first);
            }
        }
        let t = builder_text(sendmsg_line(u), e, None);
        let line = sendmsg_line(u);
        assert(t =~= line + "\n"@ + header_lines(e) + "\n"@);
        assert(t.take((line.len() + 1 + first.len()) as int) =~= line + "\n"@ + first);
        assert(c.wire_view() == Ok::<Seq<char>, Seq<char>>(t));
        match uuid {
            Some(x) => assert(line + "\n"@ + first =~= "sendmsg "@ + x@ + "\n"@ + first),
            None => assert(line + "\n"@ + first =~= "sendmsg\n"@ + first) by {
                reveal_strlit("sendmsg");
                reveal_strlit("sendmsg\n");
            },
        }
    }
}

/// A message goes to the channel it names: whenever a `SendMsg` command is
/// written, its text starts with `sendmsg <uuid>` (bare `sendmsg` without a
/// uuid) on a line of its own.
pub proof fn lemma_sendmsg_targets_its_channel(c: EslCommand)
    requires
        c is SendMsg,
    ensures
        c matches EslCommand::SendMsg { uuid, event } && (c.wire_view() matches Ok(t) ==> match uuid {
            Some(u) => starts_with(t, "sendmsg "@ + u@ + "\n"@),
            None => starts_with(t, "sendmsg\n"@),
        }),
{
    reveal_strlit("\n");
    if let EslCommand::SendMsg { uuid, event } = c {
        if let Ok(t) = c.wire_view() {
            let line = sendmsg_line(crate::channel::opt_view(uuid));
            assert(framed(line, event.header_entries(), event.body_view()) == Ok::<Seq<char>, Seq<char>>(t));
            assert(t == builder_text(line, event.header_entries(), event.body_view()));
            assert(t.take((line.len() + 1) as int) =~= line + "\n"@);
            if uuid is None {
                reveal_strlit("sendmsg");
                reveal_strlit("sendmsg\n");
                reveal_strlit("\n");
                assert(line + "\n"@ =~= "sendmsg\n"@);
            }
        }
    }
}

} // verus!
