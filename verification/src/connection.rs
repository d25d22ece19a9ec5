//! Connection configuration and the decisions of the connection's tasks.
//!
//! The socket, the channels and the timers are the application's; what they
//! decide lives here: how a parsed message is routed, when the reader stops
//! and why, what a full event queue does, and how the authentication
//! handshake answers each message it reads.

use crate::command::{EslCommand, EslResponse, ReplyStatus};
use crate::constants::MAX_EVENT_QUEUE_SIZE;
use crate::error::{EslError, EslResult};
use crate::event::{EslEventType, EventFormat};
use crate::header_map::{lookup, map_entries, map_get_str};
use crate::protocol::{
    block_outcome, error_is, split_lines, string_from_utf8, EslMessage, EslParser, Fault,
    MessageKind, MessageType,
};
use crate::text::{
    concat2, from_char_range, has_char, join_with, owned, push_char, push_str, str_eq, str_has_char,
    to_chars,
};
use std::time::Duration;
use vstd::prelude::*;

verus! {

broadcast use vstd::string::group_string_axioms;

/// The wire names of `events` joined by spaces, as an event subscription
/// lists them.
pub fn event_types_to_string(events: &[EslEventType]) -> (r: String)
    ensures
        r@ == join_with(events@.map_values(|e: EslEventType| e.spec_name()), ' '),
{
    let ghost names = events@.map_values(|e: EslEventType| e.spec_name());
    let mut out = String::new();
    let mut i: usize = 0;
    while i < events.len()
        invariant
            names == events@.map_values(|e: EslEventType| e.spec_name()),
            i <= events.len(),
            out@ == join_with(names.take(i as int), ' '),
        decreases events.len() - i,
    {
        if i > 0 {
            push_char(&mut out, ' ');
        }
        push_str(&mut out, events[i].as_str());
        proof {
            assert(names.take(i + 1).drop_last() =~= names.take(i as int));
            if i == 0 {
                assert(names.take(1) =~= seq![names[0]]);
            }
            assert(out@ =~= join_with(names.take(i + 1), ' '));
        }
        i = i + 1;
    }
    proof {
        assert(names.take(events.len() as int) =~= names);
    }
    out
}

// ---------------------------------------------------------------------------
// Status and configuration
// ---------------------------------------------------------------------------

/// Connection status.
#[derive(Debug, Clone, PartialEq, Eq)]
pub enum ConnectionStatus {
    /// ESL session is active.
    Connected,
    /// ESL session ended.
    Disconnected(DisconnectReason),
}

/// Why a connection ended.
#[derive(Debug, Clone, PartialEq, Eq)]
pub enum DisconnectReason {
    /// Server sent a `text/disconnect-notice` with `Content-Disposition: disconnect`.
    ServerNotice {
        /// UUID of the controlled session, if present in the notice.
        controlled_session_uuid: Option<String>,
        /// Body text from the disconnect notice (e.g. "Disconnected, goodbye.").
        body: Option<String>,
    },
    /// Liveness timeout exceeded without any inbound traffic
    HeartbeatExpired,
    /// TCP I/O error (its message)
    IoError(String),
    /// Clean EOF on the TCP connection
    ConnectionClosed,
    /// Client called disconnect()
    ClientRequested,
    /// Client initiated re-exec teardown
    ReexecTeardown,
    /// Protocol-level desync (e.g. unsolicited auth/request after login)
    ProtocolError(String),
    /// Connection rejected by ACL (`text/rude-rejection`)
    AccessDenied(String),
}

impl DisconnectReason {
    /// The reason's message.
    pub open spec fn text_view(self) -> Seq<char> {
        match self {
            DisconnectReason::ServerNotice { controlled_session_uuid, .. } => match controlled_session_uuid {
                Some(u) => "server sent disconnect notice (session "@ + u@ + ")"@,
                None => "server sent disconnect notice"@,
            },
            DisconnectReason::HeartbeatExpired => "liveness timeout expired"@,
            DisconnectReason::IoError(m) => "I/O error: "@ + m@,
            DisconnectReason::ConnectionClosed => "connection closed"@,
            DisconnectReason::ClientRequested => "client requested disconnect"@,
            DisconnectReason::ReexecTeardown => "re-exec teardown"@,
            DisconnectReason::ProtocolError(m) => "protocol error: "@ + m@,
            DisconnectReason::AccessDenied(m) => "access denied: "@ + m@,
        }
    }

    /// Human-readable message.
    pub fn to_string(&self) -> (r: String)
        ensures
            r@ == self.text_view(),
    {
        match self {
            DisconnectReason::ServerNotice { controlled_session_uuid, .. } => match controlled_session_uuid {
                Some(u) => {
                    let mut r = concat2("server sent disconnect notice (session ", u.as_str());
                    push_str(&mut r, ")");
                    r
                },
                None => owned("server sent disconnect notice"),
            },
            DisconnectReason::HeartbeatExpired => owned("liveness timeout expired"),
            DisconnectReason::IoError(m) => concat2("I/O error: ", m.as_str()),
            DisconnectReason::ConnectionClosed => owned("connection closed"),
            DisconnectReason::ClientRequested => owned("client requested disconnect"),
            DisconnectReason::ReexecTeardown => owned("re-exec teardown"),
            DisconnectReason::ProtocolError(m) => concat2("protocol error: ", m.as_str()),
            DisconnectReason::AccessDenied(m) => concat2("access denied: ", m.as_str()),
        }
    }
}

/// Connection mode for ESL.
#[derive(Debug, Clone, Copy, PartialEq, Eq, Structural)]
pub enum ConnectionMode {
    /// Inbound connection - client connects to FreeSWITCH
    Inbound,
    /// Outbound connection - FreeSWITCH connects to client
    Outbound,
}

/// What the reader does when the event queue is full.
#[derive(Debug, Clone, Copy, PartialEq, Eq)]
pub enum EventOverflow {
    /// Drop the arriving event, count it, and arm an `EslError::QueueFull`
    /// notice for the consumer.
    DropIncoming,
    /// Wait up to this long for capacity, then fall back to `DropIncoming`.
    BlockFor(Duration),
}

/// `Duration`'s `Clone` (the type is `Copy`): the same value.
pub assume_specification[ <Duration as Clone>::clone ](d: &Duration) -> (r: Duration)
    ensures
        r == *d,
;

/// Name for `Duration::from_millis(ms)`: the span of `ms` milliseconds.
pub uninterp spec fn millis_duration(ms: u64) -> Duration;

/// Calls `Duration::from_millis`; the value is named (see
/// [`millis_duration`]).
#[verifier::external_body]
fn duration_from_millis(ms: u64) -> (r: Duration)
    ensures
        r == millis_duration(ms),
{
    Duration::from_millis(ms)
}

/// Options for ESL connection configuration.
#[derive(Debug, Clone)]
pub struct EslConnectOptions {
    event_queue_size: usize,
    connect_timeout: Duration,
    event_overflow: EventOverflow,
}

impl EslConnectOptions {
    /// Capacity of the event channel.
    pub closed spec fn queue_size_view(self) -> usize {
        self.event_queue_size
    }

    /// Timeout for TCP connect and each auth handshake read.
    pub closed spec fn duration_view(self) -> Duration {
        self.connect_timeout
    }

    /// Full-queue behaviour.
    pub closed spec fn overflow_view(self) -> EventOverflow {
        self.event_overflow
    }

    /// Default options: a queue of [`MAX_EVENT_QUEUE_SIZE`] events, a
    /// connect timeout of [`DEFAULT_TIMEOUT_MS`](crate::constants::DEFAULT_TIMEOUT_MS)
    /// milliseconds, and dropping events when the queue is full.
    pub fn new() -> (r: EslConnectOptions)
        ensures
            r.queue_size_view() == MAX_EVENT_QUEUE_SIZE,
            r.duration_view() == millis_duration(crate::constants::DEFAULT_TIMEOUT_MS),
            r.overflow_view() == EventOverflow::DropIncoming,
    {
        EslConnectOptions {
            event_queue_size: MAX_EVENT_QUEUE_SIZE,
            connect_timeout: duration_from_millis(crate::constants::DEFAULT_TIMEOUT_MS),
            event_overflow: EventOverflow::DropIncoming,
        }
    }

    /// Set the event queue capacity.
    pub fn with_event_queue_size(self, size: usize) -> (r: EslConnectOptions)
        ensures
            r.queue_size_view() == size,
            r.duration_view() == self.duration_view(),
            r.overflow_view() == self.overflow_view(),
    {
        EslConnectOptions { event_queue_size: size, ..self }
    }

    /// Set the timeout for TCP connect and auth handshake.
    pub fn with_connect_timeout(self, timeout: Duration) -> (r: EslConnectOptions)
        ensures
            r.duration_view() == timeout,
            r.queue_size_view() == self.queue_size_view(),
            r.overflow_view() == self.overflow_view(),
    {
        EslConnectOptions { connect_timeout: timeout, ..self }
    }

    /// Set what the reader does when the event queue is full.
    pub fn with_event_overflow(self, overflow: EventOverflow) -> (r: EslConnectOptions)
        ensures
            r.overflow_view() == overflow,
            r.queue_size_view() == self.queue_size_view(),
            r.duration_view() == self.duration_view(),
    {
        EslConnectOptions { event_overflow: overflow, ..self }
    }

    /// Capacity of the channel delivering events.
    pub fn event_queue_size(&self) -> (r: usize)
        ensures
            r == self.queue_size_view(),
    {
        self.event_queue_size
    }

    /// Timeout for TCP connect and each auth handshake read.
    pub fn connect_timeout(&self) -> (r: Duration)
        ensures
            r == self.duration_view(),
    {
        self.connect_timeout.clone()
    }

    /// Full-queue behaviour.
    pub fn event_overflow(&self) -> (r: EventOverflow)
        ensures
            r == self.overflow_view(),
    {
        self.event_overflow
    }
}

impl Default for EslConnectOptions {
    /// The options of [`EslConnectOptions::new`].
    fn default() -> (r: EslConnectOptions)
        ensures
            r.queue_size_view() == MAX_EVENT_QUEUE_SIZE,
            r.duration_view() == millis_duration(crate::constants::DEFAULT_TIMEOUT_MS),
            r.overflow_view() == EventOverflow::DropIncoming,
    {
        EslConnectOptions::new()
    }
}

// ---------------------------------------------------------------------------
// Routing parsed messages
// ---------------------------------------------------------------------------

/// What the reader does with one parsed message.
#[derive(Debug)]
pub enum Dispatch {
    /// Parse the message as an event in this format and hand it to the
    /// event channel.
    ParseEvent(EventFormat),
    /// Hand the message to the command waiting for its reply.
    DeliverReply,
    /// A late reply to a command that timed out: drop it, one fewer stale
    /// reply is owed.
    DiscardStale,
    /// A reply with no command waiting: drop it.
    Unsolicited,
    /// Nothing to do (a lingering disconnect notice, an unknown message).
    Ignore,
    /// Stop the reader for `reason`, first sending `notice` (if any) to the
    /// event channel without waiting.
    Stop { notice: Option<EslError>, reason: DisconnectReason },
}

/// The format of an event message's body: `log/data` is read as plain,
/// otherwise the `Content-Type` decides.
pub open spec fn event_format_of(headers: Seq<crate::header_map::Entry>) -> EventFormat {
    match lookup(headers, "Content-Type"@) {
        Some(ct) => if ct == "log/data"@ {
            EventFormat::Plain
        } else {
            EventFormat::spec_from_content_type(ct)
        },
        None => EventFormat::Plain,
    }
}

/// The reason a `text/rude-rejection` gives: its body, or a fixed text.
pub open spec fn rejection_reason(body: Option<Seq<char>>) -> Seq<char> {
    match body {
        Some(b) => b,
        None => "rude-rejection without body"@,
    }
}

/// The desync reason for an auth request after login.
pub open spec fn unsolicited_auth_text() -> Seq<char> {
    "unsolicited auth/request received after authentication"@
}

/// Route one parsed message: events go to the event channel; replies go to
/// the waiting command unless stale replies are owed first; a disconnect
/// notice (other than a lingering one), a rude rejection and an auth request
/// after login stop the reader.
pub fn dispatch_message(message: &EslMessage, stale_replies: u32, has_waiter: bool) -> (r: Dispatch)
    ensures
        ({
            let h = map_entries(message.headers);
            match message.message_type.kind() {
                MessageKind::Event => r == Dispatch::ParseEvent(event_format_of(h)),
                MessageKind::CommandReply | MessageKind::ApiResponse => if stale_replies > 0 {
                    r is DiscardStale
                } else if has_waiter {
                    r is DeliverReply
                } else {
                    r is Unsolicited
                },
                MessageKind::Disconnect => if lookup(h, "Content-Disposition"@) == Some("linger"@) {
                    r is Ignore
                } else {
                    r matches Dispatch::Stop { notice: None, reason: DisconnectReason::ServerNotice { controlled_session_uuid, body } }
                        && crate::channel::opt_view(controlled_session_uuid) == lookup(h, "Controlled-Session-UUID"@)
                        && crate::channel::opt_view(body) == crate::channel::opt_view(message.body)
                },
                MessageKind::RudeRejection => r matches Dispatch::Stop {
                    notice: Some(EslError::AccessDenied { reason: n }),
                    reason: DisconnectReason::AccessDenied(m),
                } && n@ == rejection_reason(crate::channel::opt_view(message.body)) && m@ == n@,
                MessageKind::AuthRequest => r matches Dispatch::Stop {
                    notice: Some(EslError::ProtocolError { message: n }),
                    reason: DisconnectReason::ProtocolError(m),
                } && n@ == unsolicited_auth_text() && m@ == n@,
                MessageKind::Unknown(_) => r is Ignore,
            }
        }),
{
    match &message.message_type {
        MessageType::Event => {
            let format = match map_get_str(&message.headers, "Content-Type") {
                Some(ct) => if str_eq(ct, "log/data") {
                    EventFormat::Plain
                } else {
                    EventFormat::from_content_type(ct)
                },
                None => EventFormat::Plain,
            };
            Dispatch::ParseEvent(format)
        },
        MessageType::CommandReply | MessageType::ApiResponse => {
            if stale_replies > 0 {
                Dispatch::DiscardStale
            } else if has_waiter {
                Dispatch::DeliverReply
            } else {
                Dispatch::Unsolicited
            }
        },
        MessageType::Disconnect => {
            let linger = match map_get_str(&message.headers, "Content-Disposition") {
                Some(d) => str_eq(d, "linger"),
                None => false,
            };
            if linger {
                return Dispatch::Ignore;
            }
            let uuid = match map_get_str(&message.headers, "Controlled-Session-UUID") {
                Some(u) => Some(owned(u)),
                None => None,
            };
            let body = match &message.body {
                Some(b) => Some(b.clone()),
                None => None,
            };
            Dispatch::Stop {
                notice: None,
                reason: DisconnectReason::ServerNotice { controlled_session_uuid: uuid, body },
            }
        },
        MessageType::RudeRejection => {
            let reason = match &message.body {
                Some(b) => b.clone(),
                None => owned("rude-rejection without body"),
            };
            let copy = reason.clone();
            Dispatch::Stop {
                notice: Some(EslError::AccessDenied { reason }),
                reason: DisconnectReason::AccessDenied(copy),
            }
        },
        MessageType::AuthRequest => {
            let reason = owned("unsolicited auth/request received after authentication");
            let copy = reason.clone();
            Dispatch::Stop {
                notice: Some(EslError::ProtocolError { message: reason }),
                reason: DisconnectReason::ProtocolError(copy),
            }
        },
        MessageType::Unknown(_) => Dispatch::Ignore,
    }
}

// ---------------------------------------------------------------------------
// Reading and liveness
// ---------------------------------------------------------------------------

/// What one socket read did.
#[derive(Debug, Clone, Copy, PartialEq, Eq, Structural)]
pub enum ReadStep {
    /// Bytes arrived and were handed to the parser.
    Fed,
    /// The peer closed the connection cleanly.
    Eof,
    /// Nothing arrived before the read timeout elapsed.
    Idle,
}

/// Whether a connection idle for `elapsed_nanos` has outlived a liveness
/// threshold of `threshold_ms` milliseconds; a zero threshold disables the
/// check.
pub open spec fn spec_liveness_expired(threshold_ms: u64, elapsed_nanos: u128) -> bool {
    threshold_ms != 0 && elapsed_nanos > threshold_ms * 1_000_000
}

/// Traffic-idle check for the read-timeout tick.
pub fn liveness_expired(threshold_ms: u64, elapsed_nanos: u128) -> (r: bool)
    ensures
        r == spec_liveness_expired(threshold_ms, elapsed_nanos),
{
    if threshold_ms == 0 {
        return false;
    }
    let limit: u128 = (threshold_ms as u128) * 1_000_000;
    elapsed_nanos > limit
}

/// What the reader loop does next.
#[derive(Debug)]
pub enum ReaderAction {
    /// Keep reading; `reset_clock` when traffic arrived.
    Continue { reset_clock: bool },
    /// Stop the reader and publish this reason.
    Stop(DisconnectReason),
}

/// The reader's answer to one socket read: traffic resets the liveness
/// clock; an end of stream, an expired liveness threshold or an error stops
/// the reader.
pub fn after_read(step: EslResult<ReadStep>, threshold_ms: u64, idle_nanos: u128) -> (r: ReaderAction)
    ensures
        match step {
            Ok(ReadStep::Fed) => r == ReaderAction::Continue { reset_clock: true },
            Ok(ReadStep::Eof) => r == ReaderAction::Stop(DisconnectReason::ConnectionClosed),
            Ok(ReadStep::Idle) => if spec_liveness_expired(threshold_ms, idle_nanos) {
                r == ReaderAction::Stop(DisconnectReason::HeartbeatExpired)
            } else {
                r == ReaderAction::Continue { reset_clock: false }
            },
            Err(EslError::Io(m)) => r matches ReaderAction::Stop(DisconnectReason::IoError(t)) && t@ == m@,
            Err(e) => r matches ReaderAction::Stop(DisconnectReason::ProtocolError(t)) && t@ == e.text_view(),
        },
{
    match step {
        Ok(ReadStep::Fed) => ReaderAction::Continue { reset_clock: true },
        Ok(ReadStep::Eof) => ReaderAction::Stop(DisconnectReason::ConnectionClosed),
        Ok(ReadStep::Idle) => {
            if liveness_expired(threshold_ms, idle_nanos) {
                ReaderAction::Stop(DisconnectReason::HeartbeatExpired)
            } else {
                ReaderAction::Continue { reset_clock: false }
            }
        },
        Err(EslError::Io(m)) => ReaderAction::Stop(DisconnectReason::IoError(m)),
        Err(e) => ReaderAction::Stop(DisconnectReason::ProtocolError(e.to_string())),
    }
}

/// The reason the reader stops on a parse error.
pub fn after_parse_error(e: &EslError) -> (r: DisconnectReason)
    ensures
        r matches DisconnectReason::ProtocolError(t) && t@ == e.text_view(),
{
    DisconnectReason::ProtocolError(e.to_string())
}

// ---------------------------------------------------------------------------
// The event queue
// ---------------------------------------------------------------------------

/// What a non-blocking send to the event channel did.
#[derive(Debug, Clone, Copy, PartialEq, Eq, Structural)]
pub enum TrySend {
    /// The item was queued.
    Sent,
    /// The queue is full; the item was not queued.
    Full,
    /// The receiver is gone.
    Closed,
}

/// What to do with an item the queue refused, or with the outcome of a send.
#[derive(Debug, Clone, Copy, PartialEq, Eq, Structural)]
pub enum Delivery {
    /// Delivered; go on.
    Delivered,
    /// Wait for capacity (at most the `BlockFor` budget), then try again.
    Wait,
    /// Drop the item: count it and arm a `QueueFull` notice.
    Drop,
    /// The consumer is gone: the reader stops.
    ReceiverGone,
}

/// The answer to sending an event: a full queue waits under `BlockFor` and
/// drops otherwise.
pub fn on_event_send(outcome: TrySend, overflow: EventOverflow) -> (r: Delivery)
    ensures
        r == match outcome {
            TrySend::Sent => Delivery::Delivered,
            TrySend::Closed => Delivery::ReceiverGone,
            TrySend::Full => match overflow {
                EventOverflow::BlockFor(_) => Delivery::Wait,
                EventOverflow::DropIncoming => Delivery::Drop,
            },
        },
{
    match outcome {
        TrySend::Sent => Delivery::Delivered,
        TrySend::Closed => Delivery::ReceiverGone,
        TrySend::Full => match overflow {
            EventOverflow::BlockFor(_) => Delivery::Wait,
            EventOverflow::DropIncoming => Delivery::Drop,
        },
    }
}

/// How a wait for capacity ended.
#[derive(Debug, Clone, Copy, PartialEq, Eq, Structural)]
pub enum WaitOutcome {
    /// A slot was reserved and the item sent.
    Sent,
    /// The receiver is gone.
    Closed,
    /// The budget ran out (or the re-exec stop signal fired first).
    GaveUp,
}

/// The answer to a wait for capacity: giving up drops the item.
pub fn after_wait(outcome: WaitOutcome) -> (r: Delivery)
    ensures
        r == match outcome {
            WaitOutcome::Sent => Delivery::Delivered,
            WaitOutcome::Closed => Delivery::ReceiverGone,
            WaitOutcome::GaveUp => Delivery::Drop,
        },
{
    match outcome {
        WaitOutcome::Sent => Delivery::Delivered,
        WaitOutcome::Closed => Delivery::ReceiverGone,
        WaitOutcome::GaveUp => Delivery::Drop,
    }
}

/// The answer to sending a notice, which never waits: a full queue drops it.
pub fn on_notice_send(outcome: TrySend) -> (r: Delivery)
    ensures
        r == match outcome {
            TrySend::Sent => Delivery::Delivered,
            TrySend::Closed => Delivery::ReceiverGone,
            TrySend::Full => Delivery::Drop,
        },
{
    match outcome {
        TrySend::Sent => Delivery::Delivered,
        TrySend::Closed => Delivery::ReceiverGone,
        TrySend::Full => Delivery::Drop,
    }
}

/// After trying to deliver an armed `QueueFull` notice: whether the notice
/// stays armed, and whether the reader may go on.
pub fn after_notice_flush(outcome: TrySend) -> (r: (bool, bool))
    ensures
        r == match outcome {
            TrySend::Sent => (false, true),
            TrySend::Full => (true, true),
            TrySend::Closed => (true, false),
        },
{
    match outcome {
        TrySend::Sent => (false, true),
        TrySend::Full => (true, true),
        TrySend::Closed => (true, false),
    }
}

// ---------------------------------------------------------------------------
// Authentication
// ---------------------------------------------------------------------------

/// How an inbound connection authenticates. It has no `Debug`, so a
/// password is never printed.
#[derive(Clone)]
pub enum AuthMethod {
    /// `auth <password>`: the shared password from `event_socket.conf.xml`.
    Password(String),
    /// `userauth <user>:<password>`: a directory user with its own ACL.
    User {
        /// Directory user, which FreeSWITCH requires in `user@domain` form.
        user: String,
        /// That user's password.
        password: String,
    },
}

impl AuthMethod {
    /// Authenticate with the shared password.
    pub fn password(password: &str) -> (r: AuthMethod)
        ensures
            r matches AuthMethod::Password(p) && p@ == password@,
    {
        AuthMethod::Password(owned(password))
    }

    /// Authenticate as a directory user, spelled `user@domain`.
    pub fn user(user: &str, password: &str) -> (r: AuthMethod)
        ensures
            r matches AuthMethod::User { user: u, password: p } && u@ == user@ && p@ == password@,
    {
        AuthMethod::User { user: owned(user), password: owned(password) }
    }

    /// The command that authenticates this way.
    pub open spec fn command_wire(self) -> Result<Seq<char>, Seq<char>> {
        match self {
            AuthMethod::Password(p) => EslCommand::Auth { password: p }.wire_view(),
            AuthMethod::User { user, password } => EslCommand::UserAuth { user, password }.wire_view(),
        }
    }
}

/// Where the handshake stands.
#[derive(Debug, Clone, Copy, PartialEq, Eq, Structural)]
pub enum AuthPhase {
    /// Waiting for the server's `auth/request`.
    AwaitingRequest,
    /// The credentials were sent; waiting for the reply.
    AwaitingReply,
}

/// What the handshake read.
#[derive(Debug)]
pub enum AuthInput {
    /// A complete message.
    Message(EslMessage),
    /// The read timed out after `timeout_ms`; in the reply phase, `salvaged`
    /// is what [`salvage_truncated_auth_response`] made of the buffer.
    TimedOut { timeout_ms: u64, salvaged: EslResult<Option<EslMessage>> },
}

/// What the handshake does next.
#[derive(Debug)]
pub enum AuthOutput {
    /// Write these credentials, then wait for the reply.
    Send(String),
    /// Authenticated; the reply (with the user's `Allowed-*` headers).
    Done(EslResponse),
    /// The handshake failed.
    Fail(EslError),
}

/// What an auth reply with these headers and body gives: the response when
/// it is `+OK` (or bare), otherwise the failure it names.
pub open spec fn auth_reply_ok(h: Seq<crate::header_map::Entry>) -> bool {
    crate::command::status_of(lookup(h, "Reply-Text"@)) == ReplyStatus::Success
}

/// `r` answers the auth reply message `m`.
pub open spec fn answers_reply(r: AuthOutput, m: EslMessage) -> bool {
    let h = map_entries(m.headers);
    if auth_reply_ok(h) {
        r matches AuthOutput::Done(resp) && resp.header_entries() == h && resp.body_view()
            == crate::channel::opt_view(m.body)
    } else {
        match lookup(h, "Reply-Text"@) {
            Some(t) => r matches AuthOutput::Fail(EslError::AuthenticationFailed { reason }) && reason@ == t,
            None => r matches AuthOutput::Fail(EslError::ProtocolError { message }) && message@
                == "auth response missing Reply-Text header"@,
        }
    }
}

/// Judge an auth reply.
fn finish_auth(m: EslMessage) -> (r: AuthOutput)
    ensures
        answers_reply(r, m),
{
    let response = m.into_response();
    if !response.is_success() {
        return match response.reply_text() {
            Some(t) => AuthOutput::Fail(EslError::AuthenticationFailed { reason: owned(t) }),
            None => AuthOutput::Fail(
                EslError::ProtocolError { message: owned("auth response missing Reply-Text header") },
            ),
        };
    }
    AuthOutput::Done(response)
}

/// One step of the authentication handshake: the server's `auth/request`
/// is answered with the credentials (a rude rejection or any other message
/// fails); the reply is judged by its `Reply-Text`; a timed-out reply falls
/// back on what could be salvaged from the buffer.
pub fn authenticate_step(phase: AuthPhase, method: &AuthMethod, input: AuthInput) -> (r: AuthOutput)
    ensures
        match (phase, input) {
            (AuthPhase::AwaitingRequest, AuthInput::Message(m)) => match m.message_type.kind() {
                MessageKind::RudeRejection => r matches AuthOutput::Fail(EslError::AccessDenied { reason })
                    && reason@ == rejection_reason(crate::channel::opt_view(m.body)),
                MessageKind::AuthRequest => match method.command_wire() {
                    Ok(w) => r matches AuthOutput::Send(t) && t@ == w,
                    Err(e) => r matches AuthOutput::Fail(EslError::ProtocolError { message }) && message@ == e,
                },
                _ => r matches AuthOutput::Fail(EslError::ProtocolError { message }) && message@
                    == "Expected auth request"@,
            },
            (AuthPhase::AwaitingRequest, AuthInput::TimedOut { timeout_ms, .. }) => r matches AuthOutput::Fail(
                EslError::Timeout { timeout_ms: t },
            ) && t == timeout_ms,
            (AuthPhase::AwaitingReply, AuthInput::Message(m)) => answers_reply(r, m),
            (AuthPhase::AwaitingReply, AuthInput::TimedOut { timeout_ms, salvaged }) => match salvaged {
                Ok(Some(m)) => answers_reply(r, m),
                Ok(None) => r matches AuthOutput::Fail(EslError::Timeout { timeout_ms: t }) && t == timeout_ms,
                Err(e) => r == AuthOutput::Fail(e),
            },
        },
{
    match (phase, input) {
        (AuthPhase::AwaitingRequest, AuthInput::Message(m)) => {
            match m.message_type {
                MessageType::RudeRejection => {
                    let reason = match m.body {
                        Some(b) => b,
                        None => owned("rude-rejection without body"),
                    };
                    AuthOutput::Fail(EslError::AccessDenied { reason })
                },
                MessageType::AuthRequest => {
                    let cmd = match method {
                        AuthMethod::Password(p) => EslCommand::Auth { password: p.clone() },
                        AuthMethod::User { user, password } => EslCommand::UserAuth {
                            user: user.clone(),
                            password: password.clone(),
                        },
                    };
                    match cmd.to_wire_format() {
                        Ok(w) => AuthOutput::Send(w),
                        Err(e) => AuthOutput::Fail(e),
                    }
                },
                _ => AuthOutput::Fail(EslError::ProtocolError { message: owned("Expected auth request") }),
            }
        },
        (AuthPhase::AwaitingRequest, AuthInput::TimedOut { timeout_ms, .. }) => {
            AuthOutput::Fail(EslError::Timeout { timeout_ms })
        },
        (AuthPhase::AwaitingReply, AuthInput::Message(m)) => finish_auth(m),
        (AuthPhase::AwaitingReply, AuthInput::TimedOut { timeout_ms, salvaged }) => match salvaged {
            Ok(Some(m)) => finish_auth(m),
            Ok(None) => AuthOutput::Fail(EslError::Timeout { timeout_ms }),
            Err(e) => AuthOutput::Fail(e),
        },
    }
}

// ---------------------------------------------------------------------------
// Truncated auth replies
// ---------------------------------------------------------------------------

/// `i` is the position of the last `c` in `s`.
pub open spec fn is_last_index(s: Seq<char>, c: char, i: int) -> bool {
    0 <= i < s.len() && s[i] == c && forall|j: int| i < j < s.len() ==> s[j] != c
}

/// Position of the last `c` in `s`, if any.
pub open spec fn last_index_of(s: Seq<char>, c: char) -> Option<int> {
    if has_char(s, c) {
        Some(choose|i: int| is_last_index(s, c, i))
    } else {
        None
    }
}

/// The part of a truncated reply worth parsing: the complete lines, and the
/// last one too when its name survived (it holds a `:`); `None` without any
/// newline.
pub open spec fn salvage_block(s: Seq<char>) -> Option<Seq<char>> {
    match last_index_of(s, '\n') {
        None => None,
        Some(p) => {
            let tail = s.skip(p + 1);
            Some(if tail.len() == 0 || has_char(tail, ':') { s } else { s.take(p) })
        },
    }
}

/// What salvaging a truncated reply gives.
pub enum SalvageModel {
    Nothing,
    Failed(Fault),
    Salvaged(Seq<crate::header_map::Entry>),
}

/// Salvaging the bytes `data` of a parser that `waiting` for headers.
pub open spec fn salvage_outcome(waiting: bool, data: Seq<u8>) -> SalvageModel {
    if !waiting || data.len() == 0 {
        SalvageModel::Nothing
    } else if !vstd::utf8::valid_utf8(data) {
        SalvageModel::Failed(Fault::Protocol("invalid UTF-8 in truncated auth response"@))
    } else {
        match salvage_block(vstd::utf8::decode_utf8(data)) {
            None => SalvageModel::Nothing,
            Some(b) => match block_outcome(Seq::empty(), split_lines(b), "header"@) {
                Err(f) => SalvageModel::Failed(f),
                Ok(h) => match lookup(h, "Content-Type"@) {
                    None => SalvageModel::Failed(
                        Fault::Protocol(
                            "truncated response missing Content-Type header — not an auth response"@,
                        ),
                    ),
                    Some(ct) => if ct != "command/reply"@ {
                        SalvageModel::Failed(
                            Fault::Protocol(
                                "truncated response has Content-Type '"@ + ct
                                    + "', expected command/reply"@,
                            ),
                        )
                    } else {
                        SalvageModel::Salvaged(h)
                    },
                },
            },
        }
    }
}

/// Position of the last `c` in `v`.
fn find_last_char(v: &Vec<char>, c: char) -> (r: Option<usize>)
    ensures
        match r {
            Some(i) => is_last_index(v@, c, i as int),
            None => !has_char(v@, c),
        },
{
    let mut i = v.len();
    while i > 0
        invariant
            i <= v.len(),
            forall|j: int| i <= j < v.len() ==> v@[j] != c,
        decreases i,
    {
        i -= 1;
        if v[i] == c {
            return Some(i);
        }
    }
    None
}

/// Salvage a truncated `userauth` reply on the auth path: FreeSWITCH formats
/// the reply into a fixed-size buffer, so a long `Allowed-Events` list cuts
/// it short and the blank line the parser waits for never comes. On success
/// the parser's buffer is emptied.
pub fn salvage_truncated_auth_response(parser: &mut EslParser) -> (r: EslResult<Option<EslMessage>>)
    requires
        old(parser).wf(),
    ensures
        final(parser).wf(),
        final(parser).state_view() == old(parser).state_view(),
        match salvage_outcome(old(parser).state_view() is Headers, old(parser).data_view()) {
            SalvageModel::Nothing => r matches Ok(None) && final(parser).data_view() == old(parser).data_view(),
            SalvageModel::Failed(f) => r matches Err(e) && error_is(e, f) && final(parser).data_view()
                == old(parser).data_view(),
            SalvageModel::Salvaged(h) => r matches Ok(Some(m)) && m.message_type == MessageType::CommandReply
                && map_entries(m.headers) == h && m.body is None && final(parser).data_view()
                == Seq::<u8>::empty(),
        },
{
    if !parser.is_waiting_for_headers() {
        return Ok(None);
    }
    let data = parser.remaining_bytes();
    if data.len() == 0 {
        return Ok(None);
    }
    let bytes = crate::buffer::prefix_vec(data, data.len());
    assert(bytes@ =~= parser.data_view());
    let text = match string_from_utf8(bytes) {
        Ok(t) => t,
        Err(_) => {
            return Err(EslError::ProtocolError { message: owned("invalid UTF-8 in truncated auth response") });
        },
    };
    let v = to_chars(text.as_str());
    let last_nl = match find_last_char(&v, '\n') {
        Some(p) => p,
        None => {
            return Ok(None);
        },
    };
    proof {
        let k = choose|i: int| is_last_index(v@, '\n', i);
        assert(is_last_index(v@, '\n', k));
        if k < last_nl {
            assert(v@[last_nl as int] != '\n');
        } else if k > last_nl {
            assert(v@[k] != '\n');
        }
    }
    assert(last_nl < v.len());
    let after = last_nl + 1;
    let trailing = from_char_range(&v, after, v.len());
    assert(trailing@ =~= v@.skip(last_nl + 1));
    let block = if trailing.unicode_len() == 0 || str_has_char(trailing.as_str(), ':') {
        text.clone()
    } else {
        let b = from_char_range(&v, 0, last_nl);
        assert(b@ =~= v@.take(last_nl as int));
        b
    };
    let headers = parser.parse_headers(block.as_str())?;
    let ct = match map_get_str(&headers, "Content-Type") {
        Some(ct) => owned(ct),
        None => {
            return Err(EslError::ProtocolError {
                message: owned("truncated response missing Content-Type header — not an auth response"),
            });
        },
    };
    if !str_eq(ct.as_str(), "command/reply") {
        let mut m = concat2("truncated response has Content-Type '", ct.as_str());
        push_str(&mut m, "', expected command/reply");
        return Err(EslError::ProtocolError { message: m });
    }
    parser.drain_buffer();
    Ok(Some(EslMessage::new(MessageType::CommandReply, headers, None)))
}

// ---------------------------------------------------------------------------
// Re-exec teardown
// ---------------------------------------------------------------------------

/// The checks before a re-exec teardown: no command may be in flight, and
/// teardown runs once.
pub fn reexec_precheck(command_in_flight: bool, channel_available: bool) -> (r: EslResult<()>)
    ensures
        r is Ok <==> !command_in_flight && channel_available,
        command_in_flight ==> (r matches Err(EslError::ReexecFailed { reason }) && reason@
            == "command still in-flight"@),
        !command_in_flight && !channel_available ==> (r matches Err(EslError::ReexecFailed { reason })
            && reason@ == "teardown already called"@),
{
    if command_in_flight {
        return Err(EslError::ReexecFailed { reason: owned("command still in-flight") });
    }
    if !channel_available {
        return Err(EslError::ReexecFailed { reason: owned("teardown already called") });
    }
    Ok(())
}

/// How the wait for the reader's drain result ended.
#[derive(Debug)]
pub enum DrainWait {
    /// The reader answered with the residual bytes or its failure.
    Answered(EslResult<Vec<u8>>),
    /// The reader's task ended without answering.
    ReaderGone,
    /// The wait ran out.
    TimedOut,
}

/// The residual bytes of a re-exec teardown, or why there are none.
pub fn reexec_residual(wait: DrainWait) -> (r: EslResult<Vec<u8>>)
    ensures
        match wait {
            DrainWait::Answered(res) => r == res,
            DrainWait::ReaderGone => r matches Err(EslError::ReexecFailed { reason }) && reason@
                == "reader task exited without sending result"@,
            DrainWait::TimedOut => r matches Err(EslError::ReexecFailed { reason }) && reason@
                == "timed out waiting for reader to stop"@,
        },
{
    match wait {
        DrainWait::Answered(res) => res,
        DrainWait::ReaderGone => Err(
            EslError::ReexecFailed { reason: owned("reader task exited without sending result") },
        ),
        DrainWait::TimedOut => Err(EslError::ReexecFailed { reason: owned("timed out waiting for reader to stop") }),
    }
}

/// What the reader does once the re-exec stop signal has fired and no
/// complete message is buffered.
#[derive(Debug)]
pub enum DrainAction {
    /// At a message boundary: hand these residual bytes over and stop.
    Finish(Vec<u8>),
    /// Mid-body: read more, waiting at most the drain budget.
    ReadMore,
}

/// The drain step: a parser between messages is done; mid-body it reads on.
pub fn drain_step(parser: &EslParser) -> (r: DrainAction)
    requires
        parser.wf(),
    ensures
        parser.state_view() is Headers ==> (r matches DrainAction::Finish(b) && b@ == parser.data_view()),
        !(parser.state_view() is Headers) ==> r is ReadMore,
{
    if parser.is_waiting_for_headers() {
        let d = parser.remaining_bytes();
        DrainAction::Finish(crate::buffer::prefix_vec(d, d.len()))
    } else {
        DrainAction::ReadMore
    }
}

/// The teardown failure for a read during the drain that did not bring the
/// rest of the body.
pub fn drain_read_failure(step: EslResult<ReadStep>) -> (r: Option<EslError>)
    ensures
        match step {
            Ok(ReadStep::Fed) => r is None,
            Ok(ReadStep::Eof) => r matches Some(EslError::ReexecFailed { reason }) && reason@
                == "connection closed during drain"@,
            Ok(ReadStep::Idle) => r matches Some(EslError::ReexecFailed { reason }) && reason@
                == "drain timeout waiting for message body"@,
            Err(e) => r == Some(e),
        },
{
    match step {
        Ok(ReadStep::Fed) => None,
        Ok(ReadStep::Eof) => Some(EslError::ReexecFailed { reason: owned("connection closed during drain") }),
        Ok(ReadStep::Idle) => Some(
            EslError::ReexecFailed { reason: owned("drain timeout waiting for message body") },
        ),
        Err(e) => Some(e),
    }
}

} // verus!
