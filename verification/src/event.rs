//! ESL event types and the event structure: a header map and an optional body.

use crate::channel::{
    AnswerState, CallDirection, CallState, ChannelState, ChannelTimetable, ParseTimetableError,
    opt_view, timetable_header, timetable_header_name,
};
use crate::header_map::{
    keys_distinct, lemma_insert_keeps_distinct, lemma_insert_other, lemma_remove,
    lookup, map_entries, map_get_index, map_get_str, map_insert, map_len, map_new, map_remove, insert_entry, remove_entry,
    Entry, HeaderMap, map_copy,
};
use crate::numeric::{decimal, parse_u8, parse_unsigned, usize_to_string};
use crate::plain::{percent_encode_text, plain_lines, plain_text};
use crate::command::utf8_len;
use crate::text::{
    all_ascii, ascii_upper_seq, concat2, push_char, push_str, str_eq, to_uppercase, unicode_upper,
};
use vstd::prelude::*;

verus! {

broadcast use vstd::string::group_string_axioms;

/// Event format types supported by FreeSWITCH ESL.
#[derive(Debug, Clone, Copy, PartialEq, Eq, Hash, Structural)]
pub enum EventFormat {
    /// Plain text format (default).
    Plain,
    /// JSON format.
    Json,
    /// XML format.
    Xml,
}

/// Error for a string that names no [`EventFormat`].
#[derive(Debug, Clone, PartialEq, Eq)]
pub struct ParseEventFormatError(pub String);

impl ParseEventFormatError {
    /// Human-readable message: `unknown event format: <input>`.
    pub fn to_string(&self) -> (r: String)
        ensures
            r@ == "unknown event format: "@ + self.0@,
    {
        concat2("unknown event format: ", self.0.as_str())
    }
}

impl EventFormat {
    /// Wire name of the variant.
    pub open spec fn spec_name(self) -> Seq<char> {
        match self {
            EventFormat::Plain => "plain"@,
            EventFormat::Json => "json"@,
            EventFormat::Xml => "xml"@,
        }
    }

    /// The variant whose wire name is exactly `s`.
    pub open spec fn from_name(s: Seq<char>) -> Option<EventFormat> {
        if s == "plain"@ {
            Some(EventFormat::Plain)
        } else if s == "json"@ {
            Some(EventFormat::Json)
        } else if s == "xml"@ {
            Some(EventFormat::Xml)
        } else {
            None
        }
    }

    /// Wire name, as a static string.
    pub fn as_str(&self) -> (r: &'static str)
        ensures
            r@ == self.spec_name(),
    {
        match self {
            EventFormat::Plain => "plain",
            EventFormat::Json => "json",
            EventFormat::Xml => "xml",
        }
    }

    /// Wire name, as an owned string.
    pub fn to_string(&self) -> (r: String)
        ensures
            r@ == self.spec_name(),
    {
        self.as_str().to_owned()
    }

    /// Parses a wire name, compared exactly.
    pub fn parse(s: &str) -> (r: Result<EventFormat, ParseEventFormatError>)
        ensures
            match r {
                Ok(v) => EventFormat::from_name(s@) == Some(v),
                Err(e) => EventFormat::from_name(s@) is None && e.0@ == s@,
            },
    {
        let k = s;
        if str_eq(k, "plain") {
            Ok(EventFormat::Plain)
        } else if str_eq(k, "json") {
            Ok(EventFormat::Json)
        } else if str_eq(k, "xml") {
            Ok(EventFormat::Xml)
        } else {
            Err(ParseEventFormatError(s.to_owned()))
        }
    }
}

impl std::str::FromStr for EventFormat {
    type Err = ParseEventFormatError;

    /// The same as [`EventFormat::parse`].
    fn from_str(s: &str) -> (r: Result<EventFormat, ParseEventFormatError>)
        ensures
            match r {
                Ok(v) => EventFormat::from_name(s@) == Some(v),
                Err(e) => EventFormat::from_name(s@) is None && e.0@ == s@,
            },
    {
        EventFormat::parse(s)
    }
}

/// Every [`EventFormat`] reads back from its own wire name: the name is ASCII
/// and compared exactly, so parsing what `to_string` wrote gives the variant back.
pub proof fn lemma_event_format_name_round_trip(e: EventFormat)
    ensures
        all_ascii(e.spec_name()),
        EventFormat::from_name(e.spec_name()) == Some(e),
{
    reveal_strlit("plain");
    reveal_strlit("json");
    reveal_strlit("xml");
    match e {
        EventFormat::Plain => {
        },
        EventFormat::Json => {
            assert("json"@.len() != "plain"@.len());
        },
        EventFormat::Xml => {
            assert("xml"@.len() != "plain"@.len());
            assert("xml"@.len() != "json"@.len());
        },
    }
}

/// FreeSWITCH event types in the canonical order of `esl_event.h`; each variant's
/// wire name is its `SCREAMING_SNAKE` form.
#[derive(Debug, Clone, Copy, PartialEq, Eq, Hash, Structural)]
pub enum EslEventType {
    /// `CUSTOM` on the wire.
    Custom,
    /// `CLONE` on the wire.
    Clone,
    /// `CHANNEL_CREATE` on the wire.
    ChannelCreate,
    /// `CHANNEL_DESTROY` on the wire.
    ChannelDestroy,
    /// `CHANNEL_STATE` on the wire.
    ChannelState,
    /// `CHANNEL_CALLSTATE` on the wire.
    ChannelCallstate,
    /// `CHANNEL_ANSWER` on the wire.
    ChannelAnswer,
    /// `CHANNEL_HANGUP` on the wire.
    ChannelHangup,
    /// `CHANNEL_HANGUP_COMPLETE` on the wire.
    ChannelHangupComplete,
    /// `CHANNEL_EXECUTE` on the wire.
    ChannelExecute,
    /// `CHANNEL_EXECUTE_COMPLETE` on the wire.
    ChannelExecuteComplete,
    /// `CHANNEL_HOLD` on the wire.
    ChannelHold,
    /// `CHANNEL_UNHOLD` on the wire.
    ChannelUnhold,
    /// `CHANNEL_BRIDGE` on the wire.
    ChannelBridge,
    /// `CHANNEL_UNBRIDGE` on the wire.
    ChannelUnbridge,
    /// `CHANNEL_PROGRESS` on the wire.
    ChannelProgress,
    /// `CHANNEL_PROGRESS_MEDIA` on the wire.
    ChannelProgressMedia,
    /// `CHANNEL_OUTGOING` on the wire.
    ChannelOutgoing,
    /// `CHANNEL_PARK` on the wire.
    ChannelPark,
    /// `CHANNEL_UNPARK` on the wire.
    ChannelUnpark,
    /// `CHANNEL_APPLICATION` on the wire.
    ChannelApplication,
    /// `CHANNEL_ORIGINATE` on the wire.
    ChannelOriginate,
    /// `CHANNEL_UUID` on the wire.
    ChannelUuid,
    /// `API` on the wire.
    Api,
    /// `LOG` on the wire.
    Log,
    /// `INBOUND_CHAN` on the wire.
    InboundChan,
    /// `OUTBOUND_CHAN` on the wire.
    OutboundChan,
    /// `STARTUP` on the wire.
    Startup,
    /// `SHUTDOWN` on the wire.
    Shutdown,
    /// `PUBLISH` on the wire.
    Publish,
    /// `UNPUBLISH` on the wire.
    Unpublish,
    /// `TALK` on the wire.
    Talk,
    /// `NOTALK` on the wire.
    Notalk,
    /// `SESSION_CRASH` on the wire.
    SessionCrash,
    /// `MODULE_LOAD` on the wire.
    ModuleLoad,
    /// `MODULE_UNLOAD` on the wire.
    ModuleUnload,
    /// `DTMF` on the wire.
    Dtmf,
    /// `MESSAGE` on the wire.
    Message,
    /// `PRESENCE_IN` on the wire.
    PresenceIn,
    /// `NOTIFY_IN` on the wire.
    NotifyIn,
    /// `PRESENCE_OUT` on the wire.
    PresenceOut,
    /// `PRESENCE_PROBE` on the wire.
    PresenceProbe,
    /// `MESSAGE_WAITING` on the wire.
    MessageWaiting,
    /// `MESSAGE_QUERY` on the wire.
    MessageQuery,
    /// `ROSTER` on the wire.
    Roster,
    /// `CODEC` on the wire.
    Codec,
    /// `BACKGROUND_JOB` on the wire.
    BackgroundJob,
    /// `DETECTED_SPEECH` on the wire.
    DetectedSpeech,
    /// `DETECTED_TONE` on the wire.
    DetectedTone,
    /// `PRIVATE_COMMAND` on the wire.
    PrivateCommand,
    /// `HEARTBEAT` on the wire.
    Heartbeat,
    /// `TRAP` on the wire.
    Trap,
    /// `ADD_SCHEDULE` on the wire.
    AddSchedule,
    /// `DEL_SCHEDULE` on the wire.
    DelSchedule,
    /// `EXE_SCHEDULE` on the wire.
    ExeSchedule,
    /// `RE_SCHEDULE` on the wire.
    ReSchedule,
    /// `RELOADXML` on the wire.
    ReloadXml,
    /// `NOTIFY` on the wire.
    Notify,
    /// `PHONE_FEATURE` on the wire.
    PhoneFeature,
    /// `PHONE_FEATURE_SUBSCRIBE` on the wire.
    PhoneFeatureSubscribe,
    /// `SEND_MESSAGE` on the wire.
    SendMessage,
    /// `RECV_MESSAGE` on the wire.
    RecvMessage,
    /// `REQUEST_PARAMS` on the wire.
    RequestParams,
    /// `CHANNEL_DATA` on the wire.
    ChannelData,
    /// `GENERAL` on the wire.
    General,
    /// `COMMAND` on the wire.
    Command,
    /// `SESSION_HEARTBEAT` on the wire.
    SessionHeartbeat,
    /// `CLIENT_DISCONNECTED` on the wire.
    ClientDisconnected,
    /// `SERVER_DISCONNECTED` on the wire.
    ServerDisconnected,
    /// `SEND_INFO` on the wire.
    SendInfo,
    /// `RECV_INFO` on the wire.
    RecvInfo,
    /// `RECV_RTCP_MESSAGE` on the wire.
    RecvRtcpMessage,
    /// `SEND_RTCP_MESSAGE` on the wire.
    SendRtcpMessage,
    /// `CALL_SECURE` on the wire.
    CallSecure,
    /// `NAT` on the wire.
    Nat,
    /// `RECORD_START` on the wire.
    RecordStart,
    /// `RECORD_STOP` on the wire.
    RecordStop,
    /// `PLAYBACK_START` on the wire.
    PlaybackStart,
    /// `PLAYBACK_STOP` on the wire.
    PlaybackStop,
    /// `CALL_UPDATE` on the wire.
    CallUpdate,
    /// `FAILURE` on the wire.
    Failure,
    /// `SOCKET_DATA` on the wire.
    SocketData,
    /// `MEDIA_BUG_START` on the wire.
    MediaBugStart,
    /// `MEDIA_BUG_STOP` on the wire.
    MediaBugStop,
    /// `CONFERENCE_DATA_QUERY` on the wire.
    ConferenceDataQuery,
    /// `CONFERENCE_DATA` on the wire.
    ConferenceData,
    /// `CALL_SETUP_REQ` on the wire.
    CallSetupReq,
    /// `CALL_SETUP_RESULT` on the wire.
    CallSetupResult,
    /// `CALL_DETAIL` on the wire.
    CallDetail,
    /// `DEVICE_STATE` on the wire.
    DeviceState,
    /// `TEXT` on the wire.
    Text,
    /// `SHUTDOWN_REQUESTED` on the wire.
    ShutdownRequested,
    /// Subscribe to all events.
    All,
    /// Present in `switch_event.c` but not in the ESL event name table.
    StartRecording,
}

/// Error for a string that names no [`EslEventType`].
#[derive(Debug, Clone, PartialEq, Eq)]
pub struct ParseEventTypeError(pub String);

impl ParseEventTypeError {
    /// Human-readable message: `unknown event type: <input>`.
    pub fn to_string(&self) -> (r: String)
        ensures
            r@ == "unknown event type: "@ + self.0@,
    {
        concat2("unknown event type: ", self.0.as_str())
    }
}

/// A fingerprint of a wire name: its length and its characters at positions
/// 0, 5 and 10, the last character standing in for a position past the end.
/// No two event type names share one.
pub open spec fn name_fingerprint(s: Seq<char>) -> (nat, char, char, char) {
    let at = |k: int| if k < s.len() { s[k] } else { s[s.len() - 1] };
    (s.len(), s[0], at(5), at(10))
}

impl EslEventType {
    /// Wire name of the variant.
    pub open spec fn spec_name(self) -> Seq<char> {
        match self {
            EslEventType::Custom => "CUSTOM"@,
            EslEventType::Clone => "CLONE"@,
            EslEventType::ChannelCreate => "CHANNEL_CREATE"@,
            EslEventType::ChannelDestroy => "CHANNEL_DESTROY"@,
            EslEventType::ChannelState => "CHANNEL_STATE"@,
            EslEventType::ChannelCallstate => "CHANNEL_CALLSTATE"@,
            EslEventType::ChannelAnswer => "CHANNEL_ANSWER"@,
            EslEventType::ChannelHangup => "CHANNEL_HANGUP"@,
            EslEventType::ChannelHangupComplete => "CHANNEL_HANGUP_COMPLETE"@,
            EslEventType::ChannelExecute => "CHANNEL_EXECUTE"@,
            EslEventType::ChannelExecuteComplete => "CHANNEL_EXECUTE_COMPLETE"@,
            EslEventType::ChannelHold => "CHANNEL_HOLD"@,
            EslEventType::ChannelUnhold => "CHANNEL_UNHOLD"@,
            EslEventType::ChannelBridge => "CHANNEL_BRIDGE"@,
            EslEventType::ChannelUnbridge => "CHANNEL_UNBRIDGE"@,
            EslEventType::ChannelProgress => "CHANNEL_PROGRESS"@,
            EslEventType::ChannelProgressMedia => "CHANNEL_PROGRESS_MEDIA"@,
            EslEventType::ChannelOutgoing => "CHANNEL_OUTGOING"@,
            EslEventType::ChannelPark => "CHANNEL_PARK"@,
            EslEventType::ChannelUnpark => "CHANNEL_UNPARK"@,
            EslEventType::ChannelApplication => "CHANNEL_APPLICATION"@,
            EslEventType::ChannelOriginate => "CHANNEL_ORIGINATE"@,
            EslEventType::ChannelUuid => "CHANNEL_UUID"@,
            EslEventType::Api => "API"@,
            EslEventType::Log => "LOG"@,
            EslEventType::InboundChan => "INBOUND_CHAN"@,
            EslEventType::OutboundChan => "OUTBOUND_CHAN"@,
            EslEventType::Startup => "STARTUP"@,
            EslEventType::Shutdown => "SHUTDOWN"@,
            EslEventType::Publish => "PUBLISH"@,
            EslEventType::Unpublish => "UNPUBLISH"@,
            EslEventType::Talk => "TALK"@,
            EslEventType::Notalk => "NOTALK"@,
            EslEventType::SessionCrash => "SESSION_CRASH"@,
            EslEventType::ModuleLoad => "MODULE_LOAD"@,
            EslEventType::ModuleUnload => "MODULE_UNLOAD"@,
            EslEventType::Dtmf => "DTMF"@,
            EslEventType::Message => "MESSAGE"@,
            EslEventType::PresenceIn => "PRESENCE_IN"@,
            EslEventType::NotifyIn => "NOTIFY_IN"@,
            EslEventType::PresenceOut => "PRESENCE_OUT"@,
            EslEventType::PresenceProbe => "PRESENCE_PROBE"@,
            EslEventType::MessageWaiting => "MESSAGE_WAITING"@,
            EslEventType::MessageQuery => "MESSAGE_QUERY"@,
            EslEventType::Roster => "ROSTER"@,
            EslEventType::Codec => "CODEC"@,
            EslEventType::BackgroundJob => "BACKGROUND_JOB"@,
            EslEventType::DetectedSpeech => "DETECTED_SPEECH"@,
            EslEventType::DetectedTone => "DETECTED_TONE"@,
            EslEventType::PrivateCommand => "PRIVATE_COMMAND"@,
            EslEventType::Heartbeat => "HEARTBEAT"@,
            EslEventType::Trap => "TRAP"@,
            EslEventType::AddSchedule => "ADD_SCHEDULE"@,
            EslEventType::DelSchedule => "DEL_SCHEDULE"@,
            EslEventType::ExeSchedule => "EXE_SCHEDULE"@,
            EslEventType::ReSchedule => "RE_SCHEDULE"@,
            EslEventType::ReloadXml => "RELOADXML"@,
            EslEventType::Notify => "NOTIFY"@,
            EslEventType::PhoneFeature => "PHONE_FEATURE"@,
            EslEventType::PhoneFeatureSubscribe => "PHONE_FEATURE_SUBSCRIBE"@,
            EslEventType::SendMessage => "SEND_MESSAGE"@,
            EslEventType::RecvMessage => "RECV_MESSAGE"@,
            EslEventType::RequestParams => "REQUEST_PARAMS"@,
            EslEventType::ChannelData => "CHANNEL_DATA"@,
            EslEventType::General => "GENERAL"@,
            EslEventType::Command => "COMMAND"@,
            EslEventType::SessionHeartbeat => "SESSION_HEARTBEAT"@,
            EslEventType::ClientDisconnected => "CLIENT_DISCONNECTED"@,
            EslEventType::ServerDisconnected => "SERVER_DISCONNECTED"@,
            EslEventType::SendInfo => "SEND_INFO"@,
            EslEventType::RecvInfo => "RECV_INFO"@,
            EslEventType::RecvRtcpMessage => "RECV_RTCP_MESSAGE"@,
            EslEventType::SendRtcpMessage => "SEND_RTCP_MESSAGE"@,
            EslEventType::CallSecure => "CALL_SECURE"@,
            EslEventType::Nat => "NAT"@,
            EslEventType::RecordStart => "RECORD_START"@,
            EslEventType::RecordStop => "RECORD_STOP"@,
            EslEventType::PlaybackStart => "PLAYBACK_START"@,
            EslEventType::PlaybackStop => "PLAYBACK_STOP"@,
            EslEventType::CallUpdate => "CALL_UPDATE"@,
            EslEventType::Failure => "FAILURE"@,
            EslEventType::SocketData => "SOCKET_DATA"@,
            EslEventType::MediaBugStart => "MEDIA_BUG_START"@,
            EslEventType::MediaBugStop => "MEDIA_BUG_STOP"@,
            EslEventType::ConferenceDataQuery => "CONFERENCE_DATA_QUERY"@,
            EslEventType::ConferenceData => "CONFERENCE_DATA"@,
            EslEventType::CallSetupReq => "CALL_SETUP_REQ"@,
            EslEventType::CallSetupResult => "CALL_SETUP_RESULT"@,
            EslEventType::CallDetail => "CALL_DETAIL"@,
            EslEventType::DeviceState => "DEVICE_STATE"@,
            EslEventType::Text => "TEXT"@,
            EslEventType::ShutdownRequested => "SHUTDOWN_REQUESTED"@,
            EslEventType::All => "ALL"@,
            EslEventType::StartRecording => "START_RECORDING"@,
        }
    }

    /// The variant whose wire name is `s`, if there is one.
    pub open spec fn from_name(s: Seq<char>) -> Option<EslEventType> {
        if exists|e: EslEventType| e.spec_name() == s {
            Some(choose|e: EslEventType| e.spec_name() == s)
        } else {
            None
        }
    }

    /// The fingerprint of the variant's wire name (see [`name_fingerprint`]).
    pub open spec fn fingerprint(self) -> (nat, char, char, char) {
        match self {
            EslEventType::Custom => (6, 'C', 'M', 'M'),
            EslEventType::Clone => (5, 'C', 'E', 'E'),
            EslEventType::ChannelCreate => (14, 'C', 'E', 'E'),
            EslEventType::ChannelDestroy => (15, 'C', 'E', 'S'),
            EslEventType::ChannelState => (13, 'C', 'E', 'A'),
            EslEventType::ChannelCallstate => (17, 'C', 'E', 'L'),
            EslEventType::ChannelAnswer => (14, 'C', 'E', 'S'),
            EslEventType::ChannelHangup => (14, 'C', 'E', 'N'),
            EslEventType::ChannelHangupComplete => (23, 'C', 'E', 'N'),
            EslEventType::ChannelExecute => (15, 'C', 'E', 'E'),
            EslEventType::ChannelExecuteComplete => (24, 'C', 'E', 'E'),
            EslEventType::ChannelHold => (12, 'C', 'E', 'L'),
            EslEventType::ChannelUnhold => (14, 'C', 'E', 'H'),
            EslEventType::ChannelBridge => (14, 'C', 'E', 'I'),
            EslEventType::ChannelUnbridge => (16, 'C', 'E', 'B'),
            EslEventType::ChannelProgress => (16, 'C', 'E', 'O'),
            EslEventType::ChannelProgressMedia => (22, 'C', 'E', 'O'),
            EslEventType::ChannelOutgoing => (16, 'C', 'E', 'T'),
            EslEventType::ChannelPark => (12, 'C', 'E', 'R'),
            EslEventType::ChannelUnpark => (14, 'C', 'E', 'P'),
            EslEventType::ChannelApplication => (19, 'C', 'E', 'P'),
            EslEventType::ChannelOriginate => (17, 'C', 'E', 'I'),
            EslEventType::ChannelUuid => (12, 'C', 'E', 'I'),
            EslEventType::Api => (3, 'A', 'I', 'I'),
            EslEventType::Log => (3, 'L', 'G', 'G'),
            EslEventType::InboundChan => (12, 'I', 'N', 'A'),
            EslEventType::OutboundChan => (13, 'O', 'U', 'H'),
            EslEventType::Startup => (7, 'S', 'U', 'P'),
            EslEventType::Shutdown => (8, 'S', 'O', 'N'),
            EslEventType::Publish => (7, 'P', 'S', 'H'),
            EslEventType::Unpublish => (9, 'U', 'L', 'H'),
            EslEventType::Talk => (4, 'T', 'K', 'K'),
            EslEventType::Notalk => (6, 'N', 'K', 'K'),
            EslEventType::SessionCrash => (13, 'S', 'O', 'A'),
            EslEventType::ModuleLoad => (11, 'M', 'E', 'D'),
            EslEventType::ModuleUnload => (13, 'M', 'E', 'O'),
            EslEventType::Dtmf => (4, 'D', 'F', 'F'),
            EslEventType::Message => (7, 'M', 'G', 'E'),
            EslEventType::PresenceIn => (11, 'P', 'N', 'N'),
            EslEventType::NotifyIn => (9, 'N', 'Y', 'N'),
            EslEventType::PresenceOut => (12, 'P', 'N', 'U'),
            EslEventType::PresenceProbe => (14, 'P', 'N', 'R'),
            EslEventType::MessageWaiting => (15, 'M', 'G', 'I'),
            EslEventType::MessageQuery => (13, 'M', 'G', 'E'),
            EslEventType::Roster => (6, 'R', 'R', 'R'),
            EslEventType::Codec => (5, 'C', 'C', 'C'),
            EslEventType::BackgroundJob => (14, 'B', 'R', '_'),
            EslEventType::DetectedSpeech => (15, 'D', 'T', 'P'),
            EslEventType::DetectedTone => (13, 'D', 'T', 'O'),
            EslEventType::PrivateCommand => (15, 'P', 'T', 'M'),
            EslEventType::Heartbeat => (9, 'H', 'B', 'T'),
            EslEventType::Trap => (4, 'T', 'P', 'P'),
            EslEventType::AddSchedule => (12, 'A', 'C', 'L'),
            EslEventType::DelSchedule => (12, 'D', 'C', 'L'),
            EslEventType::ExeSchedule => (12, 'E', 'C', 'L'),
            EslEventType::ReSchedule => (11, 'R', 'H', 'E'),
            EslEventType::ReloadXml => (9, 'R', 'D', 'L'),
            EslEventType::Notify => (6, 'N', 'Y', 'Y'),
            EslEventType::PhoneFeature => (13, 'P', '_', 'U'),
            EslEventType::PhoneFeatureSubscribe => (23, 'P', '_', 'U'),
            EslEventType::SendMessage => (12, 'S', 'M', 'G'),
            EslEventType::RecvMessage => (12, 'R', 'M', 'G'),
            EslEventType::RequestParams => (14, 'R', 'S', 'R'),
            EslEventType::ChannelData => (12, 'C', 'E', 'T'),
            EslEventType::General => (7, 'G', 'A', 'L'),
            EslEventType::Command => (7, 'C', 'N', 'D'),
            EslEventType::SessionHeartbeat => (17, 'S', 'O', 'A'),
            EslEventType::ClientDisconnected => (19, 'C', 'T', 'C'),
            EslEventType::ServerDisconnected => (19, 'S', 'R', 'C'),
            EslEventType::SendInfo => (9, 'S', 'I', 'O'),
            EslEventType::RecvInfo => (9, 'R', 'I', 'O'),
            EslEventType::RecvRtcpMessage => (17, 'R', 'R', 'M'),
            EslEventType::SendRtcpMessage => (17, 'S', 'R', 'M'),
            EslEventType::CallSecure => (11, 'C', 'S', 'E'),
            EslEventType::Nat => (3, 'N', 'T', 'T'),
            EslEventType::RecordStart => (12, 'R', 'D', 'R'),
            EslEventType::RecordStop => (11, 'R', 'D', 'P'),
            EslEventType::PlaybackStart => (14, 'P', 'A', 'T'),
            EslEventType::PlaybackStop => (13, 'P', 'A', 'T'),
            EslEventType::CallUpdate => (11, 'C', 'U', 'E'),
            EslEventType::Failure => (7, 'F', 'R', 'E'),
            EslEventType::SocketData => (11, 'S', 'T', 'A'),
            EslEventType::MediaBugStart => (15, 'M', '_', 'S'),
            EslEventType::MediaBugStop => (14, 'M', '_', 'S'),
            EslEventType::ConferenceDataQuery => (21, 'C', 'R', '_'),
            EslEventType::ConferenceData => (15, 'C', 'R', '_'),
            EslEventType::CallSetupReq => (14, 'C', 'S', '_'),
            EslEventType::CallSetupResult => (17, 'C', 'S', '_'),
            EslEventType::CallDetail => (11, 'C', 'D', 'L'),
            EslEventType::DeviceState => (12, 'D', 'E', 'T'),
            EslEventType::Text => (4, 'T', 'T', 'T'),
            EslEventType::ShutdownRequested => (18, 'S', 'O', 'E'),
            EslEventType::All => (3, 'A', 'L', 'L'),
            EslEventType::StartRecording => (15, 'S', '_', 'R'),
        }
    }

    /// Wire name, as a static string.
    pub fn as_str(&self) -> (r: &'static str)
        ensures
            r@ == self.spec_name(),
    {
        match self {
            EslEventType::Custom => "CUSTOM",
            EslEventType::Clone => "CLONE",
            EslEventType::ChannelCreate => "CHANNEL_CREATE",
            EslEventType::ChannelDestroy => "CHANNEL_DESTROY",
            EslEventType::ChannelState => "CHANNEL_STATE",
            EslEventType::ChannelCallstate => "CHANNEL_CALLSTATE",
            EslEventType::ChannelAnswer => "CHANNEL_ANSWER",
            EslEventType::ChannelHangup => "CHANNEL_HANGUP",
            EslEventType::ChannelHangupComplete => "CHANNEL_HANGUP_COMPLETE",
            EslEventType::ChannelExecute => "CHANNEL_EXECUTE",
            EslEventType::ChannelExecuteComplete => "CHANNEL_EXECUTE_COMPLETE",
            EslEventType::ChannelHold => "CHANNEL_HOLD",
            EslEventType::ChannelUnhold => "CHANNEL_UNHOLD",
            EslEventType::ChannelBridge => "CHANNEL_BRIDGE",
            EslEventType::ChannelUnbridge => "CHANNEL_UNBRIDGE",
            EslEventType::ChannelProgress => "CHANNEL_PROGRESS",
            EslEventType::ChannelProgressMedia => "CHANNEL_PROGRESS_MEDIA",
            EslEventType::ChannelOutgoing => "CHANNEL_OUTGOING",
            EslEventType::ChannelPark => "CHANNEL_PARK",
            EslEventType::ChannelUnpark => "CHANNEL_UNPARK",
            EslEventType::ChannelApplication => "CHANNEL_APPLICATION",
            EslEventType::ChannelOriginate => "CHANNEL_ORIGINATE",
            EslEventType::ChannelUuid => "CHANNEL_UUID",
            EslEventType::Api => "API",
            EslEventType::Log => "LOG",
            EslEventType::InboundChan => "INBOUND_CHAN",
            EslEventType::OutboundChan => "OUTBOUND_CHAN",
            EslEventType::Startup => "STARTUP",
            EslEventType::Shutdown => "SHUTDOWN",
            EslEventType::Publish => "PUBLISH",
            EslEventType::Unpublish => "UNPUBLISH",
            EslEventType::Talk => "TALK",
            EslEventType::Notalk => "NOTALK",
            EslEventType::SessionCrash => "SESSION_CRASH",
            EslEventType::ModuleLoad => "MODULE_LOAD",
            EslEventType::ModuleUnload => "MODULE_UNLOAD",
            EslEventType::Dtmf => "DTMF",
            EslEventType::Message => "MESSAGE",
            EslEventType::PresenceIn => "PRESENCE_IN",
            EslEventType::NotifyIn => "NOTIFY_IN",
            EslEventType::PresenceOut => "PRESENCE_OUT",
            EslEventType::PresenceProbe => "PRESENCE_PROBE",
            EslEventType::MessageWaiting => "MESSAGE_WAITING",
            EslEventType::MessageQuery => "MESSAGE_QUERY",
            EslEventType::Roster => "ROSTER",
            EslEventType::Codec => "CODEC",
            EslEventType::BackgroundJob => "BACKGROUND_JOB",
            EslEventType::DetectedSpeech => "DETECTED_SPEECH",
            EslEventType::DetectedTone => "DETECTED_TONE",
            EslEventType::PrivateCommand => "PRIVATE_COMMAND",
            EslEventType::Heartbeat => "HEARTBEAT",
            EslEventType::Trap => "TRAP",
            EslEventType::AddSchedule => "ADD_SCHEDULE",
            EslEventType::DelSchedule => "DEL_SCHEDULE",
            EslEventType::ExeSchedule => "EXE_SCHEDULE",
            EslEventType::ReSchedule => "RE_SCHEDULE",
            EslEventType::ReloadXml => "RELOADXML",
            EslEventType::Notify => "NOTIFY",
            EslEventType::PhoneFeature => "PHONE_FEATURE",
            EslEventType::PhoneFeatureSubscribe => "PHONE_FEATURE_SUBSCRIBE",
            EslEventType::SendMessage => "SEND_MESSAGE",
            EslEventType::RecvMessage => "RECV_MESSAGE",
            EslEventType::RequestParams => "REQUEST_PARAMS",
            EslEventType::ChannelData => "CHANNEL_DATA",
            EslEventType::General => "GENERAL",
            EslEventType::Command => "COMMAND",
            EslEventType::SessionHeartbeat => "SESSION_HEARTBEAT",
            EslEventType::ClientDisconnected => "CLIENT_DISCONNECTED",
            EslEventType::ServerDisconnected => "SERVER_DISCONNECTED",
            EslEventType::SendInfo => "SEND_INFO",
            EslEventType::RecvInfo => "RECV_INFO",
            EslEventType::RecvRtcpMessage => "RECV_RTCP_MESSAGE",
            EslEventType::SendRtcpMessage => "SEND_RTCP_MESSAGE",
            EslEventType::CallSecure => "CALL_SECURE",
            EslEventType::Nat => "NAT",
            EslEventType::RecordStart => "RECORD_START",
            EslEventType::RecordStop => "RECORD_STOP",
            EslEventType::PlaybackStart => "PLAYBACK_START",
            EslEventType::PlaybackStop => "PLAYBACK_STOP",
            EslEventType::CallUpdate => "CALL_UPDATE",
            EslEventType::Failure => "FAILURE",
            EslEventType::SocketData => "SOCKET_DATA",
            EslEventType::MediaBugStart => "MEDIA_BUG_START",
            EslEventType::MediaBugStop => "MEDIA_BUG_STOP",
            EslEventType::ConferenceDataQuery => "CONFERENCE_DATA_QUERY",
            EslEventType::ConferenceData => "CONFERENCE_DATA",
            EslEventType::CallSetupReq => "CALL_SETUP_REQ",
            EslEventType::CallSetupResult => "CALL_SETUP_RESULT",
            EslEventType::CallDetail => "CALL_DETAIL",
            EslEventType::DeviceState => "DEVICE_STATE",
            EslEventType::Text => "TEXT",
            EslEventType::ShutdownRequested => "SHUTDOWN_REQUESTED",
            EslEventType::All => "ALL",
            EslEventType::StartRecording => "START_RECORDING",
        }
    }

    /// Wire name, as an owned string.
    pub fn to_string(&self) -> (r: String)
        ensures
            r@ == self.spec_name(),
    {
        self.as_str().to_owned()
    }

    /// Parses a wire name, compared after Unicode uppercasing.
    pub fn parse(s: &str) -> (r: Result<EslEventType, ParseEventTypeError>)
        ensures
            match r {
                Ok(v) => EslEventType::from_name(unicode_upper(s@)) == Some(v),
                Err(e) => EslEventType::from_name(unicode_upper(s@)) is None && e.0@ == s@,
            },
            all_ascii(s@) ==> match r {
                Ok(v) => EslEventType::from_name(ascii_upper_seq(s@)) == Some(v),
                Err(_) => EslEventType::from_name(ascii_upper_seq(s@)) is None,
            },
    {
        let u = to_uppercase(s);
        let k = u.as_str();
        let r = if str_eq(k, "CUSTOM") {
            Ok(EslEventType::Custom)
        } else if str_eq(k, "CLONE") {
            Ok(EslEventType::Clone)
        } else if str_eq(k, "CHANNEL_CREATE") {
            Ok(EslEventType::ChannelCreate)
        } else if str_eq(k, "CHANNEL_DESTROY") {
            Ok(EslEventType::ChannelDestroy)
        } else if str_eq(k, "CHANNEL_STATE") {
            Ok(EslEventType::ChannelState)
        } else if str_eq(k, "CHANNEL_CALLSTATE") {
            Ok(EslEventType::ChannelCallstate)
        } else if str_eq(k, "CHANNEL_ANSWER") {
            Ok(EslEventType::ChannelAnswer)
        } else if str_eq(k, "CHANNEL_HANGUP") {
            Ok(EslEventType::ChannelHangup)
        } else if str_eq(k, "CHANNEL_HANGUP_COMPLETE") {
            Ok(EslEventType::ChannelHangupComplete)
        } else if str_eq(k, "CHANNEL_EXECUTE") {
            Ok(EslEventType::ChannelExecute)
        } else if str_eq(k, "CHANNEL_EXECUTE_COMPLETE") {
            Ok(EslEventType::ChannelExecuteComplete)
        } else if str_eq(k, "CHANNEL_HOLD") {
            Ok(EslEventType::ChannelHold)
        } else if str_eq(k, "CHANNEL_UNHOLD") {
            Ok(EslEventType::ChannelUnhold)
        } else if str_eq(k, "CHANNEL_BRIDGE") {
            Ok(EslEventType::ChannelBridge)
        } else if str_eq(k, "CHANNEL_UNBRIDGE") {
            Ok(EslEventType::ChannelUnbridge)
        } else if str_eq(k, "CHANNEL_PROGRESS") {
            Ok(EslEventType::ChannelProgress)
        } else if str_eq(k, "CHANNEL_PROGRESS_MEDIA") {
            Ok(EslEventType::ChannelProgressMedia)
        } else if str_eq(k, "CHANNEL_OUTGOING") {
            Ok(EslEventType::ChannelOutgoing)
        } else if str_eq(k, "CHANNEL_PARK") {
            Ok(EslEventType::ChannelPark)
        } else if str_eq(k, "CHANNEL_UNPARK") {
            Ok(EslEventType::ChannelUnpark)
        } else if str_eq(k, "CHANNEL_APPLICATION") {
            Ok(EslEventType::ChannelApplication)
        } else if str_eq(k, "CHANNEL_ORIGINATE") {
            Ok(EslEventType::ChannelOriginate)
        } else if str_eq(k, "CHANNEL_UUID") {
            Ok(EslEventType::ChannelUuid)
        } else if str_eq(k, "API") {
            Ok(EslEventType::Api)
        } else if str_eq(k, "LOG") {
            Ok(EslEventType::Log)
        } else if str_eq(k, "INBOUND_CHAN") {
            Ok(EslEventType::InboundChan)
        } else if str_eq(k, "OUTBOUND_CHAN") {
            Ok(EslEventType::OutboundChan)
        } else if str_eq(k, "STARTUP") {
            Ok(EslEventType::Startup)
        } else if str_eq(k, "SHUTDOWN") {
            Ok(EslEventType::Shutdown)
        } else if str_eq(k, "PUBLISH") {
            Ok(EslEventType::Publish)
        } else if str_eq(k, "UNPUBLISH") {
            Ok(EslEventType::Unpublish)
        } else if str_eq(k, "TALK") {
            Ok(EslEventType::Talk)
        } else if str_eq(k, "NOTALK") {
            Ok(EslEventType::Notalk)
        } else if str_eq(k, "SESSION_CRASH") {
            Ok(EslEventType::SessionCrash)
        } else if str_eq(k, "MODULE_LOAD") {
            Ok(EslEventType::ModuleLoad)
        } else if str_eq(k, "MODULE_UNLOAD") {
            Ok(EslEventType::ModuleUnload)
        } else if str_eq(k, "DTMF") {
            Ok(EslEventType::Dtmf)
        } else if str_eq(k, "MESSAGE") {
            Ok(EslEventType::Message)
        } else if str_eq(k, "PRESENCE_IN") {
            Ok(EslEventType::PresenceIn)
        } else if str_eq(k, "NOTIFY_IN") {
            Ok(EslEventType::NotifyIn)
        } else if str_eq(k, "PRESENCE_OUT") {
            Ok(EslEventType::PresenceOut)
        } else if str_eq(k, "PRESENCE_PROBE") {
            Ok(EslEventType::PresenceProbe)
        } else if str_eq(k, "MESSAGE_WAITING") {
            Ok(EslEventType::MessageWaiting)
        } else if str_eq(k, "MESSAGE_QUERY") {
            Ok(EslEventType::MessageQuery)
        } else if str_eq(k, "ROSTER") {
            Ok(EslEventType::Roster)
        } else if str_eq(k, "CODEC") {
            Ok(EslEventType::Codec)
        } else if str_eq(k, "BACKGROUND_JOB") {
            Ok(EslEventType::BackgroundJob)
        } else if str_eq(k, "DETECTED_SPEECH") {
            Ok(EslEventType::DetectedSpeech)
        } else if str_eq(k, "DETECTED_TONE") {
            Ok(EslEventType::DetectedTone)
        } else if str_eq(k, "PRIVATE_COMMAND") {
            Ok(EslEventType::PrivateCommand)
        } else if str_eq(k, "HEARTBEAT") {
            Ok(EslEventType::Heartbeat)
        } else if str_eq(k, "TRAP") {
            Ok(EslEventType::Trap)
        } else if str_eq(k, "ADD_SCHEDULE") {
            Ok(EslEventType::AddSchedule)
        } else if str_eq(k, "DEL_SCHEDULE") {
            Ok(EslEventType::DelSchedule)
        } else if str_eq(k, "EXE_SCHEDULE") {
            Ok(EslEventType::ExeSchedule)
        } else if str_eq(k, "RE_SCHEDULE") {
            Ok(EslEventType::ReSchedule)
        } else if str_eq(k, "RELOADXML") {
            Ok(EslEventType::ReloadXml)
        } else if str_eq(k, "NOTIFY") {
            Ok(EslEventType::Notify)
        } else if str_eq(k, "PHONE_FEATURE") {
            Ok(EslEventType::PhoneFeature)
        } else if str_eq(k, "PHONE_FEATURE_SUBSCRIBE") {
            Ok(EslEventType::PhoneFeatureSubscribe)
        } else if str_eq(k, "SEND_MESSAGE") {
            Ok(EslEventType::SendMessage)
        } else if str_eq(k, "RECV_MESSAGE") {
            Ok(EslEventType::RecvMessage)
        } else if str_eq(k, "REQUEST_PARAMS") {
            Ok(EslEventType::RequestParams)
        } else if str_eq(k, "CHANNEL_DATA") {
            Ok(EslEventType::ChannelData)
        } else if str_eq(k, "GENERAL") {
            Ok(EslEventType::General)
        } else if str_eq(k, "COMMAND") {
            Ok(EslEventType::Command)
        } else if str_eq(k, "SESSION_HEARTBEAT") {
            Ok(EslEventType::SessionHeartbeat)
        } else if str_eq(k, "CLIENT_DISCONNECTED") {
            Ok(EslEventType::ClientDisconnected)
        } else if str_eq(k, "SERVER_DISCONNECTED") {
            Ok(EslEventType::ServerDisconnected)
        } else if str_eq(k, "SEND_INFO") {
            Ok(EslEventType::SendInfo)
        } else if str_eq(k, "RECV_INFO") {
            Ok(EslEventType::RecvInfo)
        } else if str_eq(k, "RECV_RTCP_MESSAGE") {
            Ok(EslEventType::RecvRtcpMessage)
        } else if str_eq(k, "SEND_RTCP_MESSAGE") {
            Ok(EslEventType::SendRtcpMessage)
        } else if str_eq(k, "CALL_SECURE") {
            Ok(EslEventType::CallSecure)
        } else if str_eq(k, "NAT") {
            Ok(EslEventType::Nat)
        } else if str_eq(k, "RECORD_START") {
            Ok(EslEventType::RecordStart)
        } else if str_eq(k, "RECORD_STOP") {
            Ok(EslEventType::RecordStop)
        } else if str_eq(k, "PLAYBACK_START") {
            Ok(EslEventType::PlaybackStart)
        } else if str_eq(k, "PLAYBACK_STOP") {
            Ok(EslEventType::PlaybackStop)
        } else if str_eq(k, "CALL_UPDATE") {
            Ok(EslEventType::CallUpdate)
        } else if str_eq(k, "FAILURE") {
            Ok(EslEventType::Failure)
        } else if str_eq(k, "SOCKET_DATA") {
            Ok(EslEventType::SocketData)
        } else if str_eq(k, "MEDIA_BUG_START") {
            Ok(EslEventType::MediaBugStart)
        } else if str_eq(k, "MEDIA_BUG_STOP") {
            Ok(EslEventType::MediaBugStop)
        } else if str_eq(k, "CONFERENCE_DATA_QUERY") {
            Ok(EslEventType::ConferenceDataQuery)
        } else if str_eq(k, "CONFERENCE_DATA") {
            Ok(EslEventType::ConferenceData)
        } else if str_eq(k, "CALL_SETUP_REQ") {
            Ok(EslEventType::CallSetupReq)
        } else if str_eq(k, "CALL_SETUP_RESULT") {
            Ok(EslEventType::CallSetupResult)
        } else if str_eq(k, "CALL_DETAIL") {
            Ok(EslEventType::CallDetail)
        } else if str_eq(k, "DEVICE_STATE") {
            Ok(EslEventType::DeviceState)
        } else if str_eq(k, "TEXT") {
            Ok(EslEventType::Text)
        } else if str_eq(k, "SHUTDOWN_REQUESTED") {
            Ok(EslEventType::ShutdownRequested)
        } else if str_eq(k, "ALL") {
            Ok(EslEventType::All)
        } else if str_eq(k, "START_RECORDING") {
            Ok(EslEventType::StartRecording)
        } else {
            Err(ParseEventTypeError(s.to_owned()))
        };
        proof {
            match r {
                Ok(v) => {
                    lemma_esl_event_type_name_round_trip(v);
                },
                Err(_) => {
                    assert forall|e: EslEventType| e.spec_name() != k@ by {}
                },
            }
        }
        r
    }
}

impl std::str::FromStr for EslEventType {
    type Err = ParseEventTypeError;

    /// The same as [`EslEventType::parse`].
    fn from_str(s: &str) -> (r: Result<EslEventType, ParseEventTypeError>)
        ensures
            match r {
                Ok(v) => EslEventType::from_name(unicode_upper(s@)) == Some(v),
                Err(e) => EslEventType::from_name(unicode_upper(s@)) is None && e.0@ == s@,
            },
            all_ascii(s@) ==> match r {
                Ok(v) => EslEventType::from_name(ascii_upper_seq(s@)) == Some(v),
                Err(_) => EslEventType::from_name(ascii_upper_seq(s@)) is None,
            },
    {
        EslEventType::parse(s)
    }
}

/// Each wire name has the fingerprint its variant lists.
proof fn lemma_esl_event_type_fingerprint(e: EslEventType)
    ensures
        name_fingerprint(e.spec_name()) == e.fingerprint(),
{
    match e {
        EslEventType::Custom => reveal_strlit("CUSTOM"),
        EslEventType::Clone => reveal_strlit("CLONE"),
        EslEventType::ChannelCreate => reveal_strlit("CHANNEL_CREATE"),
        EslEventType::ChannelDestroy => reveal_strlit("CHANNEL_DESTROY"),
        EslEventType::ChannelState => reveal_strlit("CHANNEL_STATE"),
        EslEventType::ChannelCallstate => reveal_strlit("CHANNEL_CALLSTATE"),
        EslEventType::ChannelAnswer => reveal_strlit("CHANNEL_ANSWER"),
        EslEventType::ChannelHangup => reveal_strlit("CHANNEL_HANGUP"),
        EslEventType::ChannelHangupComplete => reveal_strlit("CHANNEL_HANGUP_COMPLETE"),
        EslEventType::ChannelExecute => reveal_strlit("CHANNEL_EXECUTE"),
        EslEventType::ChannelExecuteComplete => reveal_strlit("CHANNEL_EXECUTE_COMPLETE"),
        EslEventType::ChannelHold => reveal_strlit("CHANNEL_HOLD"),
        EslEventType::ChannelUnhold => reveal_strlit("CHANNEL_UNHOLD"),
        EslEventType::ChannelBridge => reveal_strlit("CHANNEL_BRIDGE"),
        EslEventType::ChannelUnbridge => reveal_strlit("CHANNEL_UNBRIDGE"),
        EslEventType::ChannelProgress => reveal_strlit("CHANNEL_PROGRESS"),
        EslEventType::ChannelProgressMedia => reveal_strlit("CHANNEL_PROGRESS_MEDIA"),
        EslEventType::ChannelOutgoing => reveal_strlit("CHANNEL_OUTGOING"),
        EslEventType::ChannelPark => reveal_strlit("CHANNEL_PARK"),
        EslEventType::ChannelUnpark => reveal_strlit("CHANNEL_UNPARK"),
        EslEventType::ChannelApplication => reveal_strlit("CHANNEL_APPLICATION"),
        EslEventType::ChannelOriginate => reveal_strlit("CHANNEL_ORIGINATE"),
        EslEventType::ChannelUuid => reveal_strlit("CHANNEL_UUID"),
        EslEventType::Api => reveal_strlit("API"),
        EslEventType::Log => reveal_strlit("LOG"),
        EslEventType::InboundChan => reveal_strlit("INBOUND_CHAN"),
        EslEventType::OutboundChan => reveal_strlit("OUTBOUND_CHAN"),
        EslEventType::Startup => reveal_strlit("STARTUP"),
        EslEventType::Shutdown => reveal_strlit("SHUTDOWN"),
        EslEventType::Publish => reveal_strlit("PUBLISH"),
        EslEventType::Unpublish => reveal_strlit("UNPUBLISH"),
        EslEventType::Talk => reveal_strlit("TALK"),
        EslEventType::Notalk => reveal_strlit("NOTALK"),
        EslEventType::SessionCrash => reveal_strlit("SESSION_CRASH"),
        EslEventType::ModuleLoad => reveal_strlit("MODULE_LOAD"),
        EslEventType::ModuleUnload => reveal_strlit("MODULE_UNLOAD"),
        EslEventType::Dtmf => reveal_strlit("DTMF"),
        EslEventType::Message => reveal_strlit("MESSAGE"),
        EslEventType::PresenceIn => reveal_strlit("PRESENCE_IN"),
        EslEventType::NotifyIn => reveal_strlit("NOTIFY_IN"),
        EslEventType::PresenceOut => reveal_strlit("PRESENCE_OUT"),
        EslEventType::PresenceProbe => reveal_strlit("PRESENCE_PROBE"),
        EslEventType::MessageWaiting => reveal_strlit("MESSAGE_WAITING"),
        EslEventType::MessageQuery => reveal_strlit("MESSAGE_QUERY"),
        EslEventType::Roster => reveal_strlit("ROSTER"),
        EslEventType::Codec => reveal_strlit("CODEC"),
        EslEventType::BackgroundJob => reveal_strlit("BACKGROUND_JOB"),
        EslEventType::DetectedSpeech => reveal_strlit("DETECTED_SPEECH"),
        EslEventType::DetectedTone => reveal_strlit("DETECTED_TONE"),
        EslEventType::PrivateCommand => reveal_strlit("PRIVATE_COMMAND"),
        EslEventType::Heartbeat => reveal_strlit("HEARTBEAT"),
        EslEventType::Trap => reveal_strlit("TRAP"),
        EslEventType::AddSchedule => reveal_strlit("ADD_SCHEDULE"),
        EslEventType::DelSchedule => reveal_strlit("DEL_SCHEDULE"),
        EslEventType::ExeSchedule => reveal_strlit("EXE_SCHEDULE"),
        EslEventType::ReSchedule => reveal_strlit("RE_SCHEDULE"),
        EslEventType::ReloadXml => reveal_strlit("RELOADXML"),
        EslEventType::Notify => reveal_strlit("NOTIFY"),
        EslEventType::PhoneFeature => reveal_strlit("PHONE_FEATURE"),
        EslEventType::PhoneFeatureSubscribe => reveal_strlit("PHONE_FEATURE_SUBSCRIBE"),
        EslEventType::SendMessage => reveal_strlit("SEND_MESSAGE"),
        EslEventType::RecvMessage => reveal_strlit("RECV_MESSAGE"),
        EslEventType::RequestParams => reveal_strlit("REQUEST_PARAMS"),
        EslEventType::ChannelData => reveal_strlit("CHANNEL_DATA"),
        EslEventType::General => reveal_strlit("GENERAL"),
        EslEventType::Command => reveal_strlit("COMMAND"),
        EslEventType::SessionHeartbeat => reveal_strlit("SESSION_HEARTBEAT"),
        EslEventType::ClientDisconnected => reveal_strlit("CLIENT_DISCONNECTED"),
        EslEventType::ServerDisconnected => reveal_strlit("SERVER_DISCONNECTED"),
        EslEventType::SendInfo => reveal_strlit("SEND_INFO"),
        EslEventType::RecvInfo => reveal_strlit("RECV_INFO"),
        EslEventType::RecvRtcpMessage => reveal_strlit("RECV_RTCP_MESSAGE"),
        EslEventType::SendRtcpMessage => reveal_strlit("SEND_RTCP_MESSAGE"),
        EslEventType::CallSecure => reveal_strlit("CALL_SECURE"),
        EslEventType::Nat => reveal_strlit("NAT"),
        EslEventType::RecordStart => reveal_strlit("RECORD_START"),
        EslEventType::RecordStop => reveal_strlit("RECORD_STOP"),
        EslEventType::PlaybackStart => reveal_strlit("PLAYBACK_START"),
        EslEventType::PlaybackStop => reveal_strlit("PLAYBACK_STOP"),
        EslEventType::CallUpdate => reveal_strlit("CALL_UPDATE"),
        EslEventType::Failure => reveal_strlit("FAILURE"),
        EslEventType::SocketData => reveal_strlit("SOCKET_DATA"),
        EslEventType::MediaBugStart => reveal_strlit("MEDIA_BUG_START"),
        EslEventType::MediaBugStop => reveal_strlit("MEDIA_BUG_STOP"),
        EslEventType::ConferenceDataQuery => reveal_strlit("CONFERENCE_DATA_QUERY"),
        EslEventType::ConferenceData => reveal_strlit("CONFERENCE_DATA"),
        EslEventType::CallSetupReq => reveal_strlit("CALL_SETUP_REQ"),
        EslEventType::CallSetupResult => reveal_strlit("CALL_SETUP_RESULT"),
        EslEventType::CallDetail => reveal_strlit("CALL_DETAIL"),
        EslEventType::DeviceState => reveal_strlit("DEVICE_STATE"),
        EslEventType::Text => reveal_strlit("TEXT"),
        EslEventType::ShutdownRequested => reveal_strlit("SHUTDOWN_REQUESTED"),
        EslEventType::All => reveal_strlit("ALL"),
        EslEventType::StartRecording => reveal_strlit("START_RECORDING"),
    }
}

/// Two event types with the same wire name are the same event type.
pub proof fn lemma_esl_event_type_name_injective(a: EslEventType, b: EslEventType)
    requires
        a.spec_name() == b.spec_name(),
    ensures
        a == b,
{
    lemma_esl_event_type_fingerprint(a);
    lemma_esl_event_type_fingerprint(b);
}

/// Every [`EslEventType`] reads back from its own wire name: the name is ASCII
/// and already uppercase, so parsing what `to_string` wrote gives the variant back.
pub proof fn lemma_esl_event_type_name_round_trip(e: EslEventType)
    ensures
        all_ascii(e.spec_name()),
        EslEventType::from_name(e.spec_name()) == Some(e),
        ascii_upper_seq(e.spec_name()) == e.spec_name(),
{
    reveal_strlit("CUSTOM");
    reveal_strlit("CLONE");
    reveal_strlit("CHANNEL_CREATE");
    reveal_strlit("CHANNEL_DESTROY");
    reveal_strlit("CHANNEL_STATE");
    reveal_strlit("CHANNEL_CALLSTATE");
    reveal_strlit("CHANNEL_ANSWER");
    reveal_strlit("CHANNEL_HANGUP");
    reveal_strlit("CHANNEL_HANGUP_COMPLETE");
    reveal_strlit("CHANNEL_EXECUTE");
    reveal_strlit("CHANNEL_EXECUTE_COMPLETE");
    reveal_strlit("CHANNEL_HOLD");
    reveal_strlit("CHANNEL_UNHOLD");
    reveal_strlit("CHANNEL_BRIDGE");
    reveal_strlit("CHANNEL_UNBRIDGE");
    reveal_strlit("CHANNEL_PROGRESS");
    reveal_strlit("CHANNEL_PROGRESS_MEDIA");
    reveal_strlit("CHANNEL_OUTGOING");
    reveal_strlit("CHANNEL_PARK");
    reveal_strlit("CHANNEL_UNPARK");
    reveal_strlit("CHANNEL_APPLICATION");
    reveal_strlit("CHANNEL_ORIGINATE");
    reveal_strlit("CHANNEL_UUID");
    reveal_strlit("API");
    reveal_strlit("LOG");
    reveal_strlit("INBOUND_CHAN");
    reveal_strlit("OUTBOUND_CHAN");
    reveal_strlit("STARTUP");
    reveal_strlit("SHUTDOWN");
    reveal_strlit("PUBLISH");
    reveal_strlit("UNPUBLISH");
    reveal_strlit("TALK");
    reveal_strlit("NOTALK");
    reveal_strlit("SESSION_CRASH");
    reveal_strlit("MODULE_LOAD");
    reveal_strlit("MODULE_UNLOAD");
    reveal_strlit("DTMF");
    reveal_strlit("MESSAGE");
    reveal_strlit("PRESENCE_IN");
    reveal_strlit("NOTIFY_IN");
    reveal_strlit("PRESENCE_OUT");
    reveal_strlit("PRESENCE_PROBE");
    reveal_strlit("MESSAGE_WAITING");
    reveal_strlit("MESSAGE_QUERY");
    reveal_strlit("ROSTER");
    reveal_strlit("CODEC");
    reveal_strlit("BACKGROUND_JOB");
    reveal_strlit("DETECTED_SPEECH");
    reveal_strlit("DETECTED_TONE");
    reveal_strlit("PRIVATE_COMMAND");
    reveal_strlit("HEARTBEAT");
    reveal_strlit("TRAP");
    reveal_strlit("ADD_SCHEDULE");
    reveal_strlit("DEL_SCHEDULE");
    reveal_strlit("EXE_SCHEDULE");
    reveal_strlit("RE_SCHEDULE");
    reveal_strlit("RELOADXML");
    reveal_strlit("NOTIFY");
    reveal_strlit("PHONE_FEATURE");
    reveal_strlit("PHONE_FEATURE_SUBSCRIBE");
    reveal_strlit("SEND_MESSAGE");
    reveal_strlit("RECV_MESSAGE");
    reveal_strlit("REQUEST_PARAMS");
    reveal_strlit("CHANNEL_DATA");
    reveal_strlit("GENERAL");
    reveal_strlit("COMMAND");
    reveal_strlit("SESSION_HEARTBEAT");
    reveal_strlit("CLIENT_DISCONNECTED");
    reveal_strlit("SERVER_DISCONNECTED");
    reveal_strlit("SEND_INFO");
    reveal_strlit("RECV_INFO");
    reveal_strlit("RECV_RTCP_MESSAGE");
    reveal_strlit("SEND_RTCP_MESSAGE");
    reveal_strlit("CALL_SECURE");
    reveal_strlit("NAT");
    reveal_strlit("RECORD_START");
    reveal_strlit("RECORD_STOP");
    reveal_strlit("PLAYBACK_START");
    reveal_strlit("PLAYBACK_STOP");
    reveal_strlit("CALL_UPDATE");
    reveal_strlit("FAILURE");
    reveal_strlit("SOCKET_DATA");
    reveal_strlit("MEDIA_BUG_START");
    reveal_strlit("MEDIA_BUG_STOP");
    reveal_strlit("CONFERENCE_DATA_QUERY");
    reveal_strlit("CONFERENCE_DATA");
    reveal_strlit("CALL_SETUP_REQ");
    reveal_strlit("CALL_SETUP_RESULT");
    reveal_strlit("CALL_DETAIL");
    reveal_strlit("DEVICE_STATE");
    reveal_strlit("TEXT");
    reveal_strlit("SHUTDOWN_REQUESTED");
    reveal_strlit("ALL");
    reveal_strlit("START_RECORDING");
    assert(ascii_upper_seq(e.spec_name()) =~= e.spec_name());
    let c = choose|c: EslEventType| c.spec_name() == e.spec_name();
    lemma_esl_event_type_name_injective(c, e);
}

/// Event priority levels matching FreeSWITCH `esl_priority_t`.
#[derive(Debug, Clone, Copy, PartialEq, Eq, Hash, Structural)]
pub enum EslEventPriority {
    /// Default priority.
    Normal,
    /// Lower than normal.
    Low,
    /// Higher than normal.
    High,
}

/// Error for a string that names no [`EslEventPriority`].
#[derive(Debug, Clone, PartialEq, Eq)]
pub struct ParsePriorityError(pub String);

impl ParsePriorityError {
    /// Human-readable message: `unknown priority: <input>`.
    pub fn to_string(&self) -> (r: String)
        ensures
            r@ == "unknown priority: "@ + self.0@,
    {
        concat2("unknown priority: ", self.0.as_str())
    }
}

impl EslEventPriority {
    /// Wire name of the variant.
    pub open spec fn spec_name(self) -> Seq<char> {
        match self {
            EslEventPriority::Normal => "NORMAL"@,
            EslEventPriority::Low => "LOW"@,
            EslEventPriority::High => "HIGH"@,
        }
    }

    /// The variant whose wire name is exactly `s`.
    pub open spec fn from_name(s: Seq<char>) -> Option<EslEventPriority> {
        if s == "NORMAL"@ {
            Some(EslEventPriority::Normal)
        } else if s == "LOW"@ {
            Some(EslEventPriority::Low)
        } else if s == "HIGH"@ {
            Some(EslEventPriority::High)
        } else {
            None
        }
    }

    /// Wire name, as a static string.
    pub fn as_str(&self) -> (r: &'static str)
        ensures
            r@ == self.spec_name(),
    {
        match self {
            EslEventPriority::Normal => "NORMAL",
            EslEventPriority::Low => "LOW",
            EslEventPriority::High => "HIGH",
        }
    }

    /// Wire name, as an owned string.
    pub fn to_string(&self) -> (r: String)
        ensures
            r@ == self.spec_name(),
    {
        self.as_str().to_owned()
    }

    /// Parses a wire name, compared after Unicode uppercasing.
    pub fn parse(s: &str) -> (r: Result<EslEventPriority, ParsePriorityError>)
        ensures
            match r {
                Ok(v) => EslEventPriority::from_name(unicode_upper(s@)) == Some(v),
                Err(e) => EslEventPriority::from_name(unicode_upper(s@)) is None && e.0@ == s@,
            },
            all_ascii(s@) ==> match r {
                Ok(v) => EslEventPriority::from_name(ascii_upper_seq(s@)) == Some(v),
                Err(_) => EslEventPriority::from_name(ascii_upper_seq(s@)) is None,
            },
    {
        let u = to_uppercase(s);
        let k = u.as_str();
        if str_eq(k, "NORMAL") {
            Ok(EslEventPriority::Normal)
        } else if str_eq(k, "LOW") {
            Ok(EslEventPriority::Low)
        } else if str_eq(k, "HIGH") {
            Ok(EslEventPriority::High)
        } else {
            Err(ParsePriorityError(s.to_owned()))
        }
    }
}

impl std::str::FromStr for EslEventPriority {
    type Err = ParsePriorityError;

    /// The same as [`EslEventPriority::parse`].
    fn from_str(s: &str) -> (r: Result<EslEventPriority, ParsePriorityError>)
        ensures
            match r {
                Ok(v) => EslEventPriority::from_name(unicode_upper(s@)) == Some(v),
                Err(e) => EslEventPriority::from_name(unicode_upper(s@)) is None && e.0@ == s@,
            },
            all_ascii(s@) ==> match r {
                Ok(v) => EslEventPriority::from_name(ascii_upper_seq(s@)) == Some(v),
                Err(_) => EslEventPriority::from_name(ascii_upper_seq(s@)) is None,
            },
    {
        EslEventPriority::parse(s)
    }
}

/// Every [`EslEventPriority`] reads back from its own wire name: the name is ASCII
/// and already uppercase, so parsing what `to_string` wrote gives the variant back.
pub proof fn lemma_esl_event_priority_name_round_trip(e: EslEventPriority)
    ensures
        all_ascii(e.spec_name()),
        EslEventPriority::from_name(e.spec_name()) == Some(e),
        ascii_upper_seq(e.spec_name()) == e.spec_name(),
{
    reveal_strlit("NORMAL");
    reveal_strlit("LOW");
    reveal_strlit("HIGH");
    assert(ascii_upper_seq(e.spec_name()) =~= e.spec_name());
    match e {
        EslEventPriority::Normal => {
        },
        EslEventPriority::Low => {
            assert("LOW"@.len() != "NORMAL"@.len());
        },
        EslEventPriority::High => {
            assert("HIGH"@.len() != "NORMAL"@.len());
            assert("HIGH"@.len() != "LOW"@.len());
        },
    }
}
impl EventFormat {
    /// Format carried by a `Content-Type` value: `text/event-json` is JSON,
    /// `text/event-xml` is XML, anything else is plain.
    pub open spec fn spec_from_content_type(ct: Seq<char>) -> EventFormat {
        if ct == "text/event-json"@ {
            EventFormat::Json
        } else if ct == "text/event-xml"@ {
            EventFormat::Xml
        } else {
            EventFormat::Plain
        }
    }

    /// Determine event format from a Content-Type header value.
    pub fn from_content_type(ct: &str) -> (r: EventFormat)
        ensures
            r == EventFormat::spec_from_content_type(ct@),
    {
        if str_eq(ct, "text/event-json") {
            EventFormat::Json
        } else if str_eq(ct, "text/event-xml") {
            EventFormat::Xml
        } else {
            EventFormat::Plain
        }
    }
}

impl EslEventType {
    /// Parse event type from wire name (case-insensitive).
    pub fn parse_event_type(s: &str) -> (r: Option<EslEventType>)
        ensures
            r == EslEventType::from_name(unicode_upper(s@)),
            all_ascii(s@) ==> r == EslEventType::from_name(ascii_upper_seq(s@)),
    {
        match EslEventType::parse(s) {
            Ok(t) => Some(t),
            Err(_) => None,
        }
    }
}

// ---------------------------------------------------------------------------
// ARRAY:: multi-value headers (freeswitch_types::variables::EslArray)
// ---------------------------------------------------------------------------

/// Marker every `ARRAY::` header value starts with.
pub open spec fn array_prefix() -> Seq<char> {
    "ARRAY::"@
}

/// `items` joined by the `|:` array separator.
pub open spec fn join_array_items(items: Seq<Seq<char>>) -> Seq<char>
    decreases items.len(),
{
    if items.len() == 0 {
        Seq::empty()
    } else if items.len() == 1 {
        items[0]
    } else {
        join_array_items(items.drop_last()) + "|:"@ + items.last()
    }
}

/// What `EslArray`'s `Display` writes for `items`.
pub open spec fn array_text(items: Seq<Seq<char>>) -> Seq<char> {
    array_prefix() + join_array_items(items)
}

/// The array item separator, `|:`.
pub open spec fn array_separator() -> Seq<char> {
    seq!['|', ':']
}

/// `s` split at each `|:`, left to right (what `str::split` gives: an empty
/// text is one empty item).
pub open spec fn split_items(s: Seq<char>) -> Seq<Seq<char>>
    decreases s.len(),
{
    match crate::buffer::find_seq(s, array_separator()) {
        Some(i) => {
            proof {
                crate::buffer::lemma_find_seq_is_first(s, array_separator());
            }
            seq![s.take(i)] + split_items(s.skip(i + 2))
        },
        None => seq![s],
    }
}

/// Most items an `ARRAY::` value may hold.
pub open spec fn max_array_items() -> nat {
    4000
}

/// The items `EslArray::parse` reads from `s`: after the `ARRAY::` prefix,
/// the text split at each `|:`; `None` without the prefix or with more than
/// 4000 items.
pub open spec fn parsed_array_items(s: Seq<char>) -> Option<Seq<Seq<char>>> {
    if crate::text::starts_with(s, array_prefix()) {
        let items = split_items(s.skip(array_prefix().len() as int));
        if items.len() <= max_array_items() {
            Some(items)
        } else {
            None
        }
    } else {
        None
    }
}

/// The views of a vector of strings.
pub open spec fn strings_view(v: Seq<String>) -> Seq<Seq<char>> {
    v.map_values(|s: String| s@)
}

/// Calls `EslArray::parse` and hands out its items (see
/// [`parsed_array_items`]): the `ARRAY::` prefix stripped, the rest split at
/// each `|:`, refused without the prefix or above 4000 items.
#[verifier::external_body]
fn parse_array(s: &str) -> (r: Option<Vec<String>>)
    ensures
        match r {
            Some(v) => parsed_array_items(s@) == Some(strings_view(v@)),
            None => parsed_array_items(s@) is None,
        },
{
    match freeswitch_types::variables::EslArray::parse(s) {
        Ok(a) => Some(a.items().to_vec()),
        Err(_) => None,
    }
}

/// Calls `EslArray`'s `Display` on an array of `items`: the `ARRAY::` prefix,
/// then the items separated by `|:`.
#[verifier::external_body]
fn array_to_string(items: Vec<String>) -> (r: String)
    ensures
        r@ == array_text(strings_view(items@)),
{
    freeswitch_types::variables::EslArray::new(items).to_string()
}

/// The items a stacked header holds before a new one is added: its array
/// items when it is an `ARRAY::` value, else the plain value alone.
pub open spec fn existing_items(existing: Seq<char>) -> Seq<Seq<char>> {
    match parsed_array_items(existing) {
        Some(items) => items,
        None => seq![existing],
    }
}

/// Joining the items of a split text with `|:` gives the text back.
pub proof fn lemma_join_split_items(s: Seq<char>)
    ensures
        split_items(s).len() > 0,
        join_array_items(split_items(s)) == s,
    decreases s.len(),
{
    reveal_strlit("|:");
    match crate::buffer::find_seq(s, array_separator()) {
        Some(i) => {
            crate::buffer::lemma_find_seq_is_first(s, array_separator());
            let rest = s.skip(i + 2);
            lemma_join_split_items(rest);
            let r = split_items(rest);
            lemma_join_front(s.take(i), r);
            assert(s.subrange(i, i + 2) == array_separator());
            assert(s =~= s.take(i) + array_separator() + rest);
            assert("|:"@ =~= array_separator());
        },
        None => {},
    }
}

/// Joining `a` then `r` (not empty) is `a`, `|:`, then `r` joined.
proof fn lemma_join_front(a: Seq<char>, r: Seq<Seq<char>>)
    requires
        r.len() > 0,
    ensures
        join_array_items(seq![a] + r) == a + "|:"@ + join_array_items(r),
    decreases r.len(),
{
    let t = seq![a] + r;
    if r.len() == 1 {
        assert(t.drop_last() =~= seq![a]);
        assert(t.last() == r[0]);
        assert(join_array_items(seq![a]) == a);
        assert(join_array_items(r) == r[0]);
    } else {
        lemma_join_front(a, r.drop_last());
        assert(t.drop_last() =~= seq![a] + r.drop_last());
        assert(t.last() == r.last());
        assert(join_array_items(t) =~= a + "|:"@ + join_array_items(r));
    }
}

/// Stacking onto an `ARRAY::` value that parses: pushing appends `|:` and
/// the value to the text; unshifting puts the value and `|:` right after the
/// prefix.
pub proof fn lemma_stack_onto_array(existing: Seq<char>, value: Seq<char>)
    requires
        parsed_array_items(existing) is Some,
    ensures
        array_text(existing_items(existing).push(value)) == existing + "|:"@ + value,
        array_text(seq![value] + existing_items(existing)) == array_prefix() + value + "|:"@
            + existing.skip(array_prefix().len() as int),
{
    reveal_strlit("ARRAY::");
    let body = existing.skip(7);
    let items = split_items(body);
    lemma_join_split_items(body);
    assert(existing_items(existing) == items);
    assert(items.push(value).drop_last() =~= items);
    assert(existing =~= array_prefix() + body);
    lemma_join_front(value, items);
}

/// The header entries after stacking `value` onto `name` (push at the end,
/// or unshift at the front).
pub open spec fn stacked(e: Seq<Entry>, name: Seq<char>, value: Seq<char>, front: bool) -> Seq<Entry> {
    match lookup(e, name) {
        None => insert_entry(e, name, value),
        Some(existing) => {
            let items = existing_items(existing);
            let new_items = if front { seq![value] + items } else { items.push(value) };
            insert_entry(e, name, array_text(new_items))
        },
    }
}

// ---------------------------------------------------------------------------
// EslEvent
// ---------------------------------------------------------------------------

/// ESL event: an optional recognized type, a header map and an optional body.
#[derive(Debug)]
pub struct EslEvent {
    event_type: Option<EslEventType>,
    headers: HeaderMap,
    body: Option<String>,
}

impl EslEvent {
    /// Header keys never repeat.
    #[verifier::type_invariant]
    spec fn inv(self) -> bool {
        keys_distinct(map_entries(self.headers))
    }

    /// The header entries, in insertion order.
    pub closed spec fn header_entries(self) -> Seq<Entry> {
        map_entries(self.headers)
    }

    /// The body, as characters.
    pub closed spec fn body_view(self) -> Option<Seq<char>> {
        opt_view(self.body)
    }

    /// The recognized event type.
    pub closed spec fn type_view(self) -> Option<EslEventType> {
        self.event_type
    }

    /// The value of header `name`, as characters.
    pub open spec fn header_view(self, name: Seq<char>) -> Option<Seq<char>> {
        lookup(self.header_entries(), name)
    }

    /// Create a new empty event.
    pub fn new() -> (r: EslEvent)
        ensures
            r.header_entries() == Seq::<Entry>::empty(),
            r.body_view() is None,
            r.type_view() is None,
    {
        EslEvent { event_type: None, headers: map_new(), body: None }
    }

    /// Create an empty event with the given type.
    pub fn with_type(event_type: EslEventType) -> (r: EslEvent)
        ensures
            r.header_entries() == Seq::<Entry>::empty(),
            r.body_view() is None,
            r.type_view() == Some(event_type),
    {
        EslEvent { event_type: Some(event_type), headers: map_new(), body: None }
    }

    /// Parsed event type, if recognized.
    pub fn event_type(&self) -> (r: Option<EslEventType>)
        ensures
            r == self.type_view(),
    {
        self.event_type
    }

    /// Override the event type.
    pub fn set_event_type(&mut self, event_type: Option<EslEventType>)
        ensures
            final(self).type_view() == event_type,
            final(self).header_entries() == old(self).header_entries(),
            final(self).body_view() == old(self).body_view(),
    {
        proof {
            use_type_invariant(&*self);
        }
        self.event_type = event_type;
    }

    /// Look up a header by name (case-sensitive).
    pub fn header(&self, name: &str) -> (r: Option<&str>)
        ensures
            match r {
                Some(v) => self.header_view(name@) == Some(v@),
                None => self.header_view(name@) is None,
            },
    {
        map_get_str(&self.headers, name)
    }

    /// All headers as an ordered map.
    pub fn headers(&self) -> (r: &HeaderMap)
        ensures
            map_entries(*r) == self.header_entries(),
            keys_distinct(self.header_entries()),
    {
        proof {
            use_type_invariant(self);
        }
        &self.headers
    }

    /// Set or overwrite a header.
    pub fn set_header(&mut self, name: &str, value: &str)
        ensures
            final(self).header_entries() == insert_entry(old(self).header_entries(), name@, value@),
            final(self).body_view() == old(self).body_view(),
            final(self).type_view() == old(self).type_view(),
    {
        proof {
            use_type_invariant(&*self);
            lemma_insert_keeps_distinct(map_entries(self.headers), name@, value@);
        }
        let mut h = map_new();
        std::mem::swap(&mut h, &mut self.headers);
        map_insert(&mut h, name.to_owned(), value.to_owned());
        self.headers = h;
    }

    /// Set or overwrite a header, taking owned strings.
    pub fn set_header_owned(&mut self, name: String, value: String)
        ensures
            final(self).header_entries() == insert_entry(old(self).header_entries(), name@, value@),
            final(self).body_view() == old(self).body_view(),
            final(self).type_view() == old(self).type_view(),
    {
        proof {
            use_type_invariant(&*self);
            lemma_insert_keeps_distinct(map_entries(self.headers), name@, value@);
        }
        let mut h = map_new();
        std::mem::swap(&mut h, &mut self.headers);
        map_insert(&mut h, name, value);
        self.headers = h;
    }

    /// Remove a header, returning its value if it existed.
    pub fn del_header(&mut self, name: &str) -> (r: Option<String>)
        ensures
            final(self).header_entries() == remove_entry(old(self).header_entries(), name@),
            opt_view(r) == old(self).header_view(name@),
            final(self).header_view(name@) is None,
            final(self).body_view() == old(self).body_view(),
            final(self).type_view() == old(self).type_view(),
    {
        proof {
            use_type_invariant(&*self);
            lemma_remove(map_entries(self.headers), name@, name@);
        }
        let mut h = map_new();
        std::mem::swap(&mut h, &mut self.headers);
        let r = map_remove(&mut h, name);
        self.headers = h;
        r
    }

    /// Event body (the content after the blank line in plain-text events).
    pub fn body(&self) -> (r: Option<&str>)
        ensures
            match r {
                Some(b) => self.body_view() == Some(b@),
                None => self.body_view() is None,
            },
    {
        match &self.body {
            Some(b) => Some(b.as_str()),
            None => None,
        }
    }

    /// Set the event body.
    pub fn set_body(&mut self, body: String)
        ensures
            final(self).body_view() == Some(body@),
            final(self).header_entries() == old(self).header_entries(),
            final(self).type_view() == old(self).type_view(),
    {
        proof {
            use_type_invariant(&*self);
        }
        self.body = Some(body);
    }

    /// Sets the `priority` header carried on the event.
    pub fn set_priority(&mut self, priority: EslEventPriority)
        ensures
            final(self).header_entries() == insert_entry(
                old(self).header_entries(),
                "priority"@,
                priority.spec_name(),
            ),
            final(self).body_view() == old(self).body_view(),
            final(self).type_view() == old(self).type_view(),
    {
        self.set_header("priority", priority.as_str());
    }

    /// Parse the `priority` header value.
    pub fn priority(&self) -> (r: Option<EslEventPriority>)
        ensures
            match self.header_view("priority"@) {
                None => r is None,
                Some(v) => r == EslEventPriority::from_name(unicode_upper(v)),
            },
    {
        match self.header("priority") {
            Some(v) => match EslEventPriority::parse(v) {
                Ok(p) => Some(p),
                Err(_) => None,
            },
            None => None,
        }
    }

    /// Append a value to a multi-value header (PUSH semantics).
    ///
    /// If the header doesn't exist, sets it as a plain value. If it exists as
    /// a plain value, converts to `ARRAY::old|:new`. If it already has an
    /// `ARRAY::` prefix, appends the new value.
    pub fn push_header(&mut self, name: &str, value: &str)
        ensures
            final(self).header_entries() == stacked(old(self).header_entries(), name@, value@, false),
            final(self).body_view() == old(self).body_view(),
            final(self).type_view() == old(self).type_view(),
    {
        self.stack_header(name, value, false);
    }

    /// Prepend a value to a multi-value header (UNSHIFT semantics).
    ///
    /// Same conversion rules as `push_header()`, but inserts at the front.
    pub fn unshift_header(&mut self, name: &str, value: &str)
        ensures
            final(self).header_entries() == stacked(old(self).header_entries(), name@, value@, true),
            final(self).body_view() == old(self).body_view(),
            final(self).type_view() == old(self).type_view(),
    {
        self.stack_header(name, value, true);
    }

    fn stack_header(&mut self, name: &str, value: &str, front: bool)
        ensures
            final(self).header_entries() == stacked(old(self).header_entries(), name@, value@, front),
            final(self).body_view() == old(self).body_view(),
            final(self).type_view() == old(self).type_view(),
    {
        let existing: Option<String> = match self.header(name) {
            Some(v) => Some(v.to_owned()),
            None => None,
        };
        match existing {
            None => {
                self.set_header(name, value);
            },
            Some(existing) => {
                let mut items = match parse_array(existing.as_str()) {
                    Some(items) => items,
                    None => {
                        let mut v: Vec<String> = Vec::new();
                        v.push(existing.clone());
                        assert(strings_view(v@) =~= seq![existing@]);
                        v
                    },
                };
                let ghost old_items = strings_view(items@);
                if front {
                    items.insert(0, value.to_owned());
                    assert(strings_view(items@) =~= seq![value@] + old_items);
                } else {
                    items.push(value.to_owned());
                    assert(strings_view(items@) =~= old_items.push(value@));
                }
                let text = array_to_string(items);
                self.set_header(name, text.as_str());
            },
        }
    }

    /// `Unique-ID` header, falling back to `Caller-Unique-ID`.
    pub fn unique_id(&self) -> (r: Option<&str>)
        ensures
            match r {
                Some(v) => self.header_view("Unique-ID"@) == Some(v@) || (self.header_view(
                    "Unique-ID"@,
                ) is None && self.header_view("Caller-Unique-ID"@) == Some(v@)),
                None => self.header_view("Unique-ID"@) is None && self.header_view(
                    "Caller-Unique-ID"@,
                ) is None,
            },
    {
        match self.header("Unique-ID") {
            Some(v) => Some(v),
            None => self.header("Caller-Unique-ID"),
        }
    }

    /// `Job-UUID` header from `bgapi` `BACKGROUND_JOB` events.
    pub fn job_uuid(&self) -> (r: Option<&str>)
        ensures
            opt_str_view(r) == self.header_view("Job-UUID"@),
    {
        self.header("Job-UUID")
    }

    /// `Channel-Name` header (e.g. `sofia/internal/1000@domain`).
    pub fn channel_name(&self) -> (r: Option<&str>)
        ensures
            opt_str_view(r) == self.header_view("Channel-Name"@),
    {
        self.header("Channel-Name")
    }

    /// `Caller-Caller-ID-Number` header.
    pub fn caller_id_number(&self) -> (r: Option<&str>)
        ensures
            opt_str_view(r) == self.header_view("Caller-Caller-ID-Number"@),
    {
        self.header("Caller-Caller-ID-Number")
    }

    /// `Caller-Caller-ID-Name` header.
    pub fn caller_id_name(&self) -> (r: Option<&str>)
        ensures
            opt_str_view(r) == self.header_view("Caller-Caller-ID-Name"@),
    {
        self.header("Caller-Caller-ID-Name")
    }

    /// `Hangup-Cause` header (e.g. `NORMAL_CLEARING`, `USER_BUSY`).
    pub fn hangup_cause(&self) -> (r: Option<&str>)
        ensures
            opt_str_view(r) == self.header_view("Hangup-Cause"@),
    {
        self.header("Hangup-Cause")
    }

    /// `Event-Subclass` header for `CUSTOM` events (e.g. `sofia::register`).
    pub fn event_subclass(&self) -> (r: Option<&str>)
        ensures
            opt_str_view(r) == self.header_view("Event-Subclass"@),
    {
        self.header("Event-Subclass")
    }

    /// Parse the `Channel-State` header into a [`ChannelState`].
    pub fn channel_state(&self) -> (r: Option<ChannelState>)
        ensures
            match self.header_view("Channel-State"@) {
                None => r is None,
                Some(v) => r == ChannelState::from_name(crate::text::unicode_upper(v)),
            },
    {
        match self.header("Channel-State") {
            Some(v) => match ChannelState::parse(v) {
                Ok(s) => Some(s),
                Err(_) => None,
            },
            None => None,
        }
    }

    /// Parse the `Channel-State-Number` header into a [`ChannelState`].
    pub fn channel_state_number(&self) -> (r: Option<ChannelState>)
        ensures
            match self.header_view("Channel-State-Number"@) {
                None => r is None,
                Some(v) => match r {
                    Some(s) => parse_unsigned(v) == Some(s.spec_number() as int),
                    None => !(parse_unsigned(v) matches Some(n) && n <= 13),
                },
            },
    {
        match self.header("Channel-State-Number") {
            Some(v) => match parse_u8(v) {
                Some(n) => ChannelState::from_number(n),
                None => None,
            },
            None => None,
        }
    }

    /// Parse the `Channel-Call-State` header into a [`CallState`].
    pub fn call_state(&self) -> (r: Option<CallState>)
        ensures
            match self.header_view("Channel-Call-State"@) {
                None => r is None,
                Some(v) => r == CallState::from_name(crate::text::unicode_upper(v)),
            },
    {
        match self.header("Channel-Call-State") {
            Some(v) => match CallState::parse(v) {
                Ok(s) => Some(s),
                Err(_) => None,
            },
            None => None,
        }
    }

    /// Parse the `Answer-State` header into an [`AnswerState`].
    pub fn answer_state(&self) -> (r: Option<AnswerState>)
        ensures
            match self.header_view("Answer-State"@) {
                None => r is None,
                Some(v) => r == AnswerState::from_name(crate::text::unicode_lower(v)),
            },
    {
        match self.header("Answer-State") {
            Some(v) => match AnswerState::parse(v) {
                Ok(s) => Some(s),
                Err(_) => None,
            },
            None => None,
        }
    }

    /// Parse the `Call-Direction` header into a [`CallDirection`].
    pub fn call_direction(&self) -> (r: Option<CallDirection>)
        ensures
            match self.header_view("Call-Direction"@) {
                None => r is None,
                Some(v) => r == CallDirection::from_name(crate::text::unicode_lower(v)),
            },
    {
        match self.header("Call-Direction") {
            Some(v) => match CallDirection::parse(v) {
                Ok(s) => Some(s),
                Err(_) => None,
            },
            None => None,
        }
    }

    /// Extract the timetable from the `{prefix}-*-Time` headers.
    ///
    /// `Ok(None)` if none of them is present; `Err` for the first that is
    /// present and not an `i64`.
    pub fn timetable(&self, prefix: &str) -> (r: Result<Option<ChannelTimetable>, ParseTimetableError>)
        ensures
            ChannelTimetable::spec_from_values(
                prefix@,
                Seq::new(11, |i: int| self.header_view(timetable_header(prefix@, i))),
                r,
            ),
    {
        let mut vals: Vec<Option<String>> = Vec::new();
        let mut i: usize = 0;
        while i < 11
            invariant
                i <= 11,
                vals.len() == i,
                forall|j: int| 0 <= j < i ==> opt_view(#[trigger] vals@[j]) == self.header_view(
                    timetable_header(prefix@, j),
                ),
            decreases 11 - i,
        {
            let h = timetable_header_name(prefix, i);
            let v: Option<String> = match self.header(h.as_str()) {
                Some(s) => Some(s.to_owned()),
                None => None,
            };
            vals.push(v);
            i += 1;
        }
        let r = ChannelTimetable::from_values(prefix, &vals);
        assert(vals@.map_values(|v: Option<String>| opt_view(v)) =~= Seq::new(
            11,
            |i: int| self.header_view(timetable_header(prefix@, i)),
        ));
        r
    }

    /// Caller-leg channel timetable (`Caller-*-Time` headers).
    pub fn caller_timetable(&self) -> (r: Result<Option<ChannelTimetable>, ParseTimetableError>)
        ensures
            ChannelTimetable::spec_from_values(
                "Caller"@,
                Seq::new(11, |i: int| self.header_view(timetable_header("Caller"@, i))),
                r,
            ),
    {
        self.timetable("Caller")
    }

    /// Other-leg channel timetable (`Other-Leg-*-Time` headers).
    pub fn other_leg_timetable(&self) -> (r: Result<Option<ChannelTimetable>, ParseTimetableError>)
        ensures
            ChannelTimetable::spec_from_values(
                "Other-Leg"@,
                Seq::new(11, |i: int| self.header_view(timetable_header("Other-Leg"@, i))),
                r,
            ),
    {
        self.timetable("Other-Leg")
    }

    /// Look up a channel variable: the `variable_{name}` header.
    pub fn variable(&self, name: &str) -> (r: Option<&str>)
        ensures
            opt_str_view(r) == self.header_view("variable_"@ + name@),
    {
        let key = concat2("variable_", name);
        self.header(key.as_str())
    }

    /// Serializes the event in the `text/event-plain` wire format: each
    /// header but `Content-Length` as `name: value` with the value
    /// percent-encoded, in order, then a blank line, or `Content-Length`, a
    /// blank line and the body.
    pub fn to_plain_format(&self) -> (r: String)
        ensures
            r@ == plain_text(self.header_entries(), self.body_view()),
    {
        let ghost e = self.header_entries();
        let mut result = String::new();
        let n = map_len(&self.headers);
        let mut i: usize = 0;
        while i < n
            invariant
                e == self.header_entries(),
                e == map_entries(self.headers),
                n == e.len(),
                i <= n,
                result@ == plain_lines(e.take(i as int)),
            decreases n - i,
        {
            let (k, v) = map_get_index(&self.headers, i);
            proof {
                reveal_strlit("Content-Length");
                reveal_strlit(": ");
                reveal_strlit("\n");
                assert(e.take(i + 1).drop_last() =~= e.take(i as int));
                assert(e.take(i + 1).last() == (k@, v@));
            }
            if !str_eq(k.as_str(), "Content-Length") {
                push_str(&mut result, k.as_str());
                push_str(&mut result, ": ");
                let enc = percent_encode_text(v.as_str());
                push_str(&mut result, enc.as_str());
                push_char(&mut result, '\n');
            }
            assert(result@ =~= plain_lines(e.take(i + 1)));
            i = i + 1;
        }
        proof {
            assert(e.take(n as int) =~= e);
        }
        let ghost mid = result@;
        match &self.body {
            Some(b) => {
                push_str(&mut result, "Content-Length: ");
                let len = usize_to_string(b.as_str().as_bytes().len());
                push_str(&mut result, len.as_str());
                push_str(&mut result, "\n\n");
                push_str(&mut result, b.as_str());
                proof {
                    reveal_strlit("Content-Length: ");
                    reveal_strlit("\n\n");
                    reveal_strlit("\n");
                    assert("\n\n"@ =~= "\n"@ + "\n"@);
                    assert(result@ =~= mid + ("Content-Length: "@ + decimal(utf8_len(b@)) + "\n"@ + "\n"@ + b@));
                }
            },
            None => {
                push_char(&mut result, '\n');
                proof {
                    reveal_strlit("\n");
                    assert(result@ =~= mid + "\n"@);
                }
            },
        }
        result
    }

    /// Check whether this event matches the given type.
    pub fn is_event_type(&self, event_type: EslEventType) -> (r: bool)
        ensures
            r == (self.type_view() == Some(event_type)),
    {
        match self.event_type {
            Some(t) => t == event_type,
            None => false,
        }
    }
}

impl Default for EslEvent {
    /// An empty event: no type, no headers, no body.
    fn default() -> (r: EslEvent)
        ensures
            r.header_entries() == Seq::<Entry>::empty(),
            r.body_view() is None,
            r.type_view() is None,
    {
        EslEvent::new()
    }
}

impl Clone for EslEvent {
    /// A copy with the same type, headers and body.
    fn clone(&self) -> (r: EslEvent)
        ensures
            r.header_entries() == self.header_entries(),
            r.body_view() == self.body_view(),
            r.type_view() == self.type_view(),
    {
        proof {
            use_type_invariant(self);
        }
        let body = match &self.body {
            Some(b) => Some(b.clone()),
            None => None,
        };
        EslEvent { event_type: self.event_type, headers: map_copy(&self.headers), body }
    }
}

/// The view of an optional string slice.
pub open spec fn opt_str_view(v: Option<&str>) -> Option<Seq<char>> {
    match v {
        Some(s) => Some(s@),
        None => None,
    }
}

/// Setting a header and reading it back gives the value set, and leaves every
/// other header as it was.
pub proof fn lemma_set_then_get(e: Seq<Entry>, name: Seq<char>, value: Seq<char>, other: Seq<char>)
    requires
        keys_distinct(e),
    ensures
        lookup(insert_entry(e, name, value), name) == Some(value),
        other != name ==> lookup(insert_entry(e, name, value), other) == lookup(e, other),
{
    lemma_insert_keeps_distinct(e, name, value);
    if other != name {
        lemma_insert_other(e, name, value, other);
    }
}

/// Deleting a header makes it absent and leaves every other header as it was.
pub proof fn lemma_del_then_get(e: Seq<Entry>, name: Seq<char>, other: Seq<char>)
    requires
        keys_distinct(e),
    ensures
        lookup(remove_entry(e, name), name) is None,
        other != name ==> lookup(remove_entry(e, name), other) == lookup(e, other),
{
    lemma_remove(e, name, other);
}

/// Each field of a timetable read from an event comes from its own header
/// `{prefix}-{suffix}`: `profile_created` from `Profile-Created-Time`,
/// `created` from `Channel-Created-Time`, ..., `last_hold` from
/// `Channel-Last-Hold` and `hold_accum` from `Channel-Hold-Accum`; and an
/// error names a header of the event that holds the refused value.
pub proof fn lemma_timetable_fields(
    e: EslEvent,
    prefix: Seq<char>,
    r: Result<Option<ChannelTimetable>, ParseTimetableError>,
)
    requires
        ChannelTimetable::spec_from_values(
            prefix,
            Seq::new(11, |i: int| e.header_view(timetable_header(prefix, i))),
            r,
        ),
    ensures
            r matches Ok(Some(tt)) ==> tt.profile_created == crate::channel::parsed_value(e.header_view(prefix + "-"@ + "Profile-Created-Time"@)),
            r matches Ok(Some(tt)) ==> tt.created == crate::channel::parsed_value(e.header_view(prefix + "-"@ + "Channel-Created-Time"@)),
            r matches Ok(Some(tt)) ==> tt.answered == crate::channel::parsed_value(e.header_view(prefix + "-"@ + "Channel-Answered-Time"@)),
            r matches Ok(Some(tt)) ==> tt.progress == crate::channel::parsed_value(e.header_view(prefix + "-"@ + "Channel-Progress-Time"@)),
            r matches Ok(Some(tt)) ==> tt.progress_media == crate::channel::parsed_value(e.header_view(prefix + "-"@ + "Channel-Progress-Media-Time"@)),
            r matches Ok(Some(tt)) ==> tt.hungup == crate::channel::parsed_value(e.header_view(prefix + "-"@ + "Channel-Hangup-Time"@)),
            r matches Ok(Some(tt)) ==> tt.transferred == crate::channel::parsed_value(e.header_view(prefix + "-"@ + "Channel-Transfer-Time"@)),
            r matches Ok(Some(tt)) ==> tt.resurrected == crate::channel::parsed_value(e.header_view(prefix + "-"@ + "Channel-Resurrect-Time"@)),
            r matches Ok(Some(tt)) ==> tt.bridged == crate::channel::parsed_value(e.header_view(prefix + "-"@ + "Channel-Bridged-Time"@)),
            r matches Ok(Some(tt)) ==> tt.last_hold == crate::channel::parsed_value(e.header_view(prefix + "-"@ + "Channel-Last-Hold"@)),
            r matches Ok(Some(tt)) ==> tt.hold_accum == crate::channel::parsed_value(e.header_view(prefix + "-"@ + "Channel-Hold-Accum"@)),
        r matches Err(x) ==> e.header_view(x.header@) == Some(x.value@),
{
    let vals = Seq::new(11, |i: int| e.header_view(timetable_header(prefix, i)));
    match r {
        Ok(Some(tt)) => {
            assert forall|i: int| 0 <= i < 11 implies tt.fields()[i] == crate::channel::parsed_value(
                vals[i],
            ) by {}
            assert(tt.fields()[0] == tt.profile_created);
            assert(tt.fields()[9] == tt.last_hold);
            assert(tt.fields()[10] == tt.hold_accum);
        },
        _ => {},
    }
}

} // verus!
