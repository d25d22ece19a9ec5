//! Typed event header names for FreeSWITCH ESL events.

use crate::text::{all_ascii, ascii_lower_seq, concat2, eq_ignore_ascii_case, str_eq_ignore_ascii_case};
use vstd::prelude::*;

verus! {

broadcast use vstd::string::group_string_axioms;

/// Top-level header names that appear in FreeSWITCH ESL events (not protocol
/// framing headers like `Content-Type`).
#[derive(Debug, Clone, Copy, PartialEq, Eq, Hash, Structural)]
pub enum EventHeader {
    /// `Event-Name` on the wire.
    EventName,
    /// `Event-Subclass` on the wire.
    EventSubclass,
    /// `Unique-ID` on the wire.
    UniqueId,
    /// `Caller-Unique-ID` on the wire.
    CallerUniqueId,
    /// `Other-Leg-Unique-ID` on the wire.
    OtherLegUniqueId,
    /// `Channel-Call-UUID` on the wire.
    ChannelCallUuid,
    /// `Job-UUID` on the wire.
    JobUuid,
    /// `Channel-Name` on the wire.
    ChannelName,
    /// `Channel-State` on the wire.
    ChannelState,
    /// `Channel-State-Number` on the wire.
    ChannelStateNumber,
    /// `Channel-Call-State` on the wire.
    ChannelCallState,
    /// `Answer-State` on the wire.
    AnswerState,
    /// `Call-Direction` on the wire.
    CallDirection,
    /// `Hangup-Cause` on the wire.
    HangupCause,
    /// `Caller-Caller-ID-Name` on the wire.
    CallerCallerIdName,
    /// `Caller-Caller-ID-Number` on the wire.
    CallerCallerIdNumber,
    /// `Caller-Orig-Caller-ID-Name` on the wire.
    CallerOrigCallerIdName,
    /// `Caller-Orig-Caller-ID-Number` on the wire.
    CallerOrigCallerIdNumber,
    /// `Caller-Callee-ID-Name` on the wire.
    CallerCalleeIdName,
    /// `Caller-Callee-ID-Number` on the wire.
    CallerCalleeIdNumber,
    /// `Caller-Destination-Number` on the wire.
    CallerDestinationNumber,
    /// `Caller-Context` on the wire.
    CallerContext,
    /// `Caller-Direction` on the wire.
    CallerDirection,
    /// `Caller-Network-Addr` on the wire.
    CallerNetworkAddr,
    /// `Core-UUID` on the wire.
    CoreUuid,
    /// `priority` on the wire.
    Priority,
}

/// Error for a string that names no [`EventHeader`].
#[derive(Debug, Clone, PartialEq, Eq)]
pub struct ParseEventHeaderError(pub String);

impl ParseEventHeaderError {
    /// Human-readable message: `unknown event header: <input>`.
    pub fn to_string(&self) -> (r: String)
        ensures
            r@ == "unknown event header: "@ + self.0@,
    {
        concat2("unknown event header: ", self.0.as_str())
    }
}

impl EventHeader {
    /// Wire name of the variant.
    pub open spec fn spec_name(self) -> Seq<char> {
        match self {
            EventHeader::EventName => "Event-Name"@,
            EventHeader::EventSubclass => "Event-Subclass"@,
            EventHeader::UniqueId => "Unique-ID"@,
            EventHeader::CallerUniqueId => "Caller-Unique-ID"@,
            EventHeader::OtherLegUniqueId => "Other-Leg-Unique-ID"@,
            EventHeader::ChannelCallUuid => "Channel-Call-UUID"@,
            EventHeader::JobUuid => "Job-UUID"@,
            EventHeader::ChannelName => "Channel-Name"@,
            EventHeader::ChannelState => "Channel-State"@,
            EventHeader::ChannelStateNumber => "Channel-State-Number"@,
            EventHeader::ChannelCallState => "Channel-Call-State"@,
            EventHeader::AnswerState => "Answer-State"@,
            EventHeader::CallDirection => "Call-Direction"@,
            EventHeader::HangupCause => "Hangup-Cause"@,
            EventHeader::CallerCallerIdName => "Caller-Caller-ID-Name"@,
            EventHeader::CallerCallerIdNumber => "Caller-Caller-ID-Number"@,
            EventHeader::CallerOrigCallerIdName => "Caller-Orig-Caller-ID-Name"@,
            EventHeader::CallerOrigCallerIdNumber => "Caller-Orig-Caller-ID-Number"@,
            EventHeader::CallerCalleeIdName => "Caller-Callee-ID-Name"@,
            EventHeader::CallerCalleeIdNumber => "Caller-Callee-ID-Number"@,
            EventHeader::CallerDestinationNumber => "Caller-Destination-Number"@,
            EventHeader::CallerContext => "Caller-Context"@,
            EventHeader::CallerDirection => "Caller-Direction"@,
            EventHeader::CallerNetworkAddr => "Caller-Network-Addr"@,
            EventHeader::CoreUuid => "Core-UUID"@,
            EventHeader::Priority => "priority"@,
        }
    }

    /// The variant whose wire name is exactly `s`.
    pub open spec fn from_name(s: Seq<char>) -> Option<EventHeader> {
        if s == "Event-Name"@ {
            Some(EventHeader::EventName)
        } else if s == "Event-Subclass"@ {
            Some(EventHeader::EventSubclass)
        } else if s == "Unique-ID"@ {
            Some(EventHeader::UniqueId)
        } else if s == "Caller-Unique-ID"@ {
            Some(EventHeader::CallerUniqueId)
        } else if s == "Other-Leg-Unique-ID"@ {
            Some(EventHeader::OtherLegUniqueId)
        } else if s == "Channel-Call-UUID"@ {
            Some(EventHeader::ChannelCallUuid)
        } else if s == "Job-UUID"@ {
            Some(EventHeader::JobUuid)
        } else if s == "Channel-Name"@ {
            Some(EventHeader::ChannelName)
        } else if s == "Channel-State"@ {
            Some(EventHeader::ChannelState)
        } else if s == "Channel-State-Number"@ {
            Some(EventHeader::ChannelStateNumber)
        } else if s == "Channel-Call-State"@ {
            Some(EventHeader::ChannelCallState)
        } else if s == "Answer-State"@ {
            Some(EventHeader::AnswerState)
        } else if s == "Call-Direction"@ {
            Some(EventHeader::CallDirection)
        } else if s == "Hangup-Cause"@ {
            Some(EventHeader::HangupCause)
        } else if s == "Caller-Caller-ID-Name"@ {
            Some(EventHeader::CallerCallerIdName)
        } else if s == "Caller-Caller-ID-Number"@ {
            Some(EventHeader::CallerCallerIdNumber)
        } else if s == "Caller-Orig-Caller-ID-Name"@ {
            Some(EventHeader::CallerOrigCallerIdName)
        } else if s == "Caller-Orig-Caller-ID-Number"@ {
            Some(EventHeader::CallerOrigCallerIdNumber)
        } else if s == "Caller-Callee-ID-Name"@ {
            Some(EventHeader::CallerCalleeIdName)
        } else if s == "Caller-Callee-ID-Number"@ {
            Some(EventHeader::CallerCalleeIdNumber)
        } else if s == "Caller-Destination-Number"@ {
            Some(EventHeader::CallerDestinationNumber)
        } else if s == "Caller-Context"@ {
            Some(EventHeader::CallerContext)
        } else if s == "Caller-Direction"@ {
            Some(EventHeader::CallerDirection)
        } else if s == "Caller-Network-Addr"@ {
            Some(EventHeader::CallerNetworkAddr)
        } else if s == "Core-UUID"@ {
            Some(EventHeader::CoreUuid)
        } else if s == "priority"@ {
            Some(EventHeader::Priority)
        } else {
            None
        }
    }

    /// Wire name, as a static string.
    pub fn as_str(&self) -> (r: &'static str)
        ensures
            r@ == self.spec_name(),
    {
        match self {
            EventHeader::EventName => "Event-Name",
            EventHeader::EventSubclass => "Event-Subclass",
            EventHeader::UniqueId => "Unique-ID",
            EventHeader::CallerUniqueId => "Caller-Unique-ID",
            EventHeader::OtherLegUniqueId => "Other-Leg-Unique-ID",
            EventHeader::ChannelCallUuid => "Channel-Call-UUID",
            EventHeader::JobUuid => "Job-UUID",
            EventHeader::ChannelName => "Channel-Name",
            EventHeader::ChannelState => "Channel-State",
            EventHeader::ChannelStateNumber => "Channel-State-Number",
            EventHeader::ChannelCallState => "Channel-Call-State",
            EventHeader::AnswerState => "Answer-State",
            EventHeader::CallDirection => "Call-Direction",
            EventHeader::HangupCause => "Hangup-Cause",
            EventHeader::CallerCallerIdName => "Caller-Caller-ID-Name",
            EventHeader::CallerCallerIdNumber => "Caller-Caller-ID-Number",
            EventHeader::CallerOrigCallerIdName => "Caller-Orig-Caller-ID-Name",
            EventHeader::CallerOrigCallerIdNumber => "Caller-Orig-Caller-ID-Number",
            EventHeader::CallerCalleeIdName => "Caller-Callee-ID-Name",
            EventHeader::CallerCalleeIdNumber => "Caller-Callee-ID-Number",
            EventHeader::CallerDestinationNumber => "Caller-Destination-Number",
            EventHeader::CallerContext => "Caller-Context",
            EventHeader::CallerDirection => "Caller-Direction",
            EventHeader::CallerNetworkAddr => "Caller-Network-Addr",
            EventHeader::CoreUuid => "Core-UUID",
            EventHeader::Priority => "priority",
        }
    }

    /// Wire name, as an owned string.
    pub fn to_string(&self) -> (r: String)
        ensures
            r@ == self.spec_name(),
    {
        self.as_str().to_owned()
    }

    /// The variant whose wire name equals `s` ignoring ASCII case.
    pub open spec fn from_name_ignore_case(s: Seq<char>) -> Option<EventHeader> {
        if eq_ignore_ascii_case(s, "Event-Name"@) {
            Some(EventHeader::EventName)
        } else if eq_ignore_ascii_case(s, "Event-Subclass"@) {
            Some(EventHeader::EventSubclass)
        } else if eq_ignore_ascii_case(s, "Unique-ID"@) {
            Some(EventHeader::UniqueId)
        } else if eq_ignore_ascii_case(s, "Caller-Unique-ID"@) {
            Some(EventHeader::CallerUniqueId)
        } else if eq_ignore_ascii_case(s, "Other-Leg-Unique-ID"@) {
            Some(EventHeader::OtherLegUniqueId)
        } else if eq_ignore_ascii_case(s, "Channel-Call-UUID"@) {
            Some(EventHeader::ChannelCallUuid)
        } else if eq_ignore_ascii_case(s, "Job-UUID"@) {
            Some(EventHeader::JobUuid)
        } else if eq_ignore_ascii_case(s, "Channel-Name"@) {
            Some(EventHeader::ChannelName)
        } else if eq_ignore_ascii_case(s, "Channel-State"@) {
            Some(EventHeader::ChannelState)
        } else if eq_ignore_ascii_case(s, "Channel-State-Number"@) {
            Some(EventHeader::ChannelStateNumber)
        } else if eq_ignore_ascii_case(s, "Channel-Call-State"@) {
            Some(EventHeader::ChannelCallState)
        } else if eq_ignore_ascii_case(s, "Answer-State"@) {
            Some(EventHeader::AnswerState)
        } else if eq_ignore_ascii_case(s, "Call-Direction"@) {
            Some(EventHeader::CallDirection)
        } else if eq_ignore_ascii_case(s, "Hangup-Cause"@) {
            Some(EventHeader::HangupCause)
        } else if eq_ignore_ascii_case(s, "Caller-Caller-ID-Name"@) {
            Some(EventHeader::CallerCallerIdName)
        } else if eq_ignore_ascii_case(s, "Caller-Caller-ID-Number"@) {
            Some(EventHeader::CallerCallerIdNumber)
        } else if eq_ignore_ascii_case(s, "Caller-Orig-Caller-ID-Name"@) {
            Some(EventHeader::CallerOrigCallerIdName)
        } else if eq_ignore_ascii_case(s, "Caller-Orig-Caller-ID-Number"@) {
            Some(EventHeader::CallerOrigCallerIdNumber)
        } else if eq_ignore_ascii_case(s, "Caller-Callee-ID-Name"@) {
            Some(EventHeader::CallerCalleeIdName)
        } else if eq_ignore_ascii_case(s, "Caller-Callee-ID-Number"@) {
            Some(EventHeader::CallerCalleeIdNumber)
        } else if eq_ignore_ascii_case(s, "Caller-Destination-Number"@) {
            Some(EventHeader::CallerDestinationNumber)
        } else if eq_ignore_ascii_case(s, "Caller-Context"@) {
            Some(EventHeader::CallerContext)
        } else if eq_ignore_ascii_case(s, "Caller-Direction"@) {
            Some(EventHeader::CallerDirection)
        } else if eq_ignore_ascii_case(s, "Caller-Network-Addr"@) {
            Some(EventHeader::CallerNetworkAddr)
        } else if eq_ignore_ascii_case(s, "Core-UUID"@) {
            Some(EventHeader::CoreUuid)
        } else if eq_ignore_ascii_case(s, "priority"@) {
            Some(EventHeader::Priority)
        } else {
            None
        }
    }

    /// Parses a wire name, compared ignoring ASCII case.
    pub fn parse(s: &str) -> (r: Result<EventHeader, ParseEventHeaderError>)
        ensures
            match r {
                Ok(v) => EventHeader::from_name_ignore_case(s@) == Some(v),
                Err(e) => EventHeader::from_name_ignore_case(s@) is None && e.0@ == s@,
            },
    {
        if str_eq_ignore_ascii_case(s, "Event-Name") {
            Ok(EventHeader::EventName)
        } else if str_eq_ignore_ascii_case(s, "Event-Subclass") {
            Ok(EventHeader::EventSubclass)
        } else if str_eq_ignore_ascii_case(s, "Unique-ID") {
            Ok(EventHeader::UniqueId)
        } else if str_eq_ignore_ascii_case(s, "Caller-Unique-ID") {
            Ok(EventHeader::CallerUniqueId)
        } else if str_eq_ignore_ascii_case(s, "Other-Leg-Unique-ID") {
            Ok(EventHeader::OtherLegUniqueId)
        } else if str_eq_ignore_ascii_case(s, "Channel-Call-UUID") {
            Ok(EventHeader::ChannelCallUuid)
        } else if str_eq_ignore_ascii_case(s, "Job-UUID") {
            Ok(EventHeader::JobUuid)
        } else if str_eq_ignore_ascii_case(s, "Channel-Name") {
            Ok(EventHeader::ChannelName)
        } else if str_eq_ignore_ascii_case(s, "Channel-State") {
            Ok(EventHeader::ChannelState)
        } else if str_eq_ignore_ascii_case(s, "Channel-State-Number") {
            Ok(EventHeader::ChannelStateNumber)
        } else if str_eq_ignore_ascii_case(s, "Channel-Call-State") {
            Ok(EventHeader::ChannelCallState)
        } else if str_eq_ignore_ascii_case(s, "Answer-State") {
            Ok(EventHeader::AnswerState)
        } else if str_eq_ignore_ascii_case(s, "Call-Direction") {
            Ok(EventHeader::CallDirection)
        } else if str_eq_ignore_ascii_case(s, "Hangup-Cause") {
            Ok(EventHeader::HangupCause)
        } else if str_eq_ignore_ascii_case(s, "Caller-Caller-ID-Name") {
            Ok(EventHeader::CallerCallerIdName)
        } else if str_eq_ignore_ascii_case(s, "Caller-Caller-ID-Number") {
            Ok(EventHeader::CallerCallerIdNumber)
        } else if str_eq_ignore_ascii_case(s, "Caller-Orig-Caller-ID-Name") {
            Ok(EventHeader::CallerOrigCallerIdName)
        } else if str_eq_ignore_ascii_case(s, "Caller-Orig-Caller-ID-Number") {
            Ok(EventHeader::CallerOrigCallerIdNumber)
        } else if str_eq_ignore_ascii_case(s, "Caller-Callee-ID-Name") {
            Ok(EventHeader::CallerCalleeIdName)
        } else if str_eq_ignore_ascii_case(s, "Caller-Callee-ID-Number") {
            Ok(EventHeader::CallerCalleeIdNumber)
        } else if str_eq_ignore_ascii_case(s, "Caller-Destination-Number") {
            Ok(EventHeader::CallerDestinationNumber)
        } else if str_eq_ignore_ascii_case(s, "Caller-Context") {
            Ok(EventHeader::CallerContext)
        } else if str_eq_ignore_ascii_case(s, "Caller-Direction") {
            Ok(EventHeader::CallerDirection)
        } else if str_eq_ignore_ascii_case(s, "Caller-Network-Addr") {
            Ok(EventHeader::CallerNetworkAddr)
        } else if str_eq_ignore_ascii_case(s, "Core-UUID") {
            Ok(EventHeader::CoreUuid)
        } else if str_eq_ignore_ascii_case(s, "priority") {
            Ok(EventHeader::Priority)
        } else {
            Err(ParseEventHeaderError(s.to_owned()))
        }
    }
}

impl std::str::FromStr for EventHeader {
    type Err = ParseEventHeaderError;

    /// The same as [`EventHeader::parse`].
    fn from_str(s: &str) -> (r: Result<EventHeader, ParseEventHeaderError>)
        ensures
            match r {
                Ok(v) => EventHeader::from_name_ignore_case(s@) == Some(v),
                Err(e) => EventHeader::from_name_ignore_case(s@) is None && e.0@ == s@,
            },
    {
        EventHeader::parse(s)
    }
}

/// Every [`EventHeader`] reads back from its own wire name: the name is ASCII
/// and compared ignoring ASCII case, so parsing what `to_string` wrote gives the variant back.
pub proof fn lemma_event_header_name_round_trip(e: EventHeader)
    ensures
        all_ascii(e.spec_name()),
        EventHeader::from_name_ignore_case(e.spec_name()) == Some(e),
{
    reveal_strlit("Event-Name");
    reveal_strlit("Event-Subclass");
    reveal_strlit("Unique-ID");
    reveal_strlit("Caller-Unique-ID");
    reveal_strlit("Other-Leg-Unique-ID");
    reveal_strlit("Channel-Call-UUID");
    reveal_strlit("Job-UUID");
    reveal_strlit("Channel-Name");
    reveal_strlit("Channel-State");
    reveal_strlit("Channel-State-Number");
    reveal_strlit("Channel-Call-State");
    reveal_strlit("Answer-State");
    reveal_strlit("Call-Direction");
    reveal_strlit("Hangup-Cause");
    reveal_strlit("Caller-Caller-ID-Name");
    reveal_strlit("Caller-Caller-ID-Number");
    reveal_strlit("Caller-Orig-Caller-ID-Name");
    reveal_strlit("Caller-Orig-Caller-ID-Number");
    reveal_strlit("Caller-Callee-ID-Name");
    reveal_strlit("Caller-Callee-ID-Number");
    reveal_strlit("Caller-Destination-Number");
    reveal_strlit("Caller-Context");
    reveal_strlit("Caller-Direction");
    reveal_strlit("Caller-Network-Addr");
    reveal_strlit("Core-UUID");
    reveal_strlit("priority");
    match e {
        EventHeader::EventName => {
        },
        EventHeader::EventSubclass => {
            assert(ascii_lower_seq("Event-Subclass"@).len() != ascii_lower_seq("Event-Name"@).len());
        },
        EventHeader::UniqueId => {
            assert(ascii_lower_seq("Unique-ID"@).len() != ascii_lower_seq("Event-Name"@).len());
            assert(ascii_lower_seq("Unique-ID"@).len() != ascii_lower_seq("Event-Subclass"@).len());
        },
        EventHeader::CallerUniqueId => {
            assert(ascii_lower_seq("Caller-Unique-ID"@).len() != ascii_lower_seq("Event-Name"@).len());
            assert(ascii_lower_seq("Caller-Unique-ID"@).len() != ascii_lower_seq("Event-Subclass"@).len());
            assert(ascii_lower_seq("Caller-Unique-ID"@).len() != ascii_lower_seq("Unique-ID"@).len());
        },
        EventHeader::OtherLegUniqueId => {
            assert(ascii_lower_seq("Other-Leg-Unique-ID"@).len() != ascii_lower_seq("Event-Name"@).len());
            assert(ascii_lower_seq("Other-Leg-Unique-ID"@).len() != ascii_lower_seq("Event-Subclass"@).len());
            assert(ascii_lower_seq("Other-Leg-Unique-ID"@).len() != ascii_lower_seq("Unique-ID"@).len());
            assert(ascii_lower_seq("Other-Leg-Unique-ID"@).len() != ascii_lower_seq("Caller-Unique-ID"@).len());
        },
        EventHeader::ChannelCallUuid => {
            assert(ascii_lower_seq("Channel-Call-UUID"@).len() != ascii_lower_seq("Event-Name"@).len());
            assert(ascii_lower_seq("Channel-Call-UUID"@).len() != ascii_lower_seq("Event-Subclass"@).len());
            assert(ascii_lower_seq("Channel-Call-UUID"@).len() != ascii_lower_seq("Unique-ID"@).len());
            assert(ascii_lower_seq("Channel-Call-UUID"@).len() != ascii_lower_seq("Caller-Unique-ID"@).len());
            assert(ascii_lower_seq("Channel-Call-UUID"@).len() != ascii_lower_seq("Other-Leg-Unique-ID"@).len());
        },
        EventHeader::JobUuid => {
            assert(ascii_lower_seq("Job-UUID"@).len() != ascii_lower_seq("Event-Name"@).len());
            assert(ascii_lower_seq("Job-UUID"@).len() != ascii_lower_seq("Event-Subclass"@).len());
            assert(ascii_lower_seq("Job-UUID"@).len() != ascii_lower_seq("Unique-ID"@).len());
            assert(ascii_lower_seq("Job-UUID"@).len() != ascii_lower_seq("Caller-Unique-ID"@).len());
            assert(ascii_lower_seq("Job-UUID"@).len() != ascii_lower_seq("Other-Leg-Unique-ID"@).len());
            assert(ascii_lower_seq("Job-UUID"@).len() != ascii_lower_seq("Channel-Call-UUID"@).len());
        },
        EventHeader::ChannelName => {
            assert(ascii_lower_seq("Channel-Name"@).len() != ascii_lower_seq("Event-Name"@).len());
            assert(ascii_lower_seq("Channel-Name"@).len() != ascii_lower_seq("Event-Subclass"@).len());
            assert(ascii_lower_seq("Channel-Name"@).len() != ascii_lower_seq("Unique-ID"@).len());
            assert(ascii_lower_seq("Channel-Name"@).len() != ascii_lower_seq("Caller-Unique-ID"@).len());
            assert(ascii_lower_seq("Channel-Name"@).len() != ascii_lower_seq("Other-Leg-Unique-ID"@).len());
            assert(ascii_lower_seq("Channel-Name"@).len() != ascii_lower_seq("Channel-Call-UUID"@).len());
            assert(ascii_lower_seq("Channel-Name"@).len() != ascii_lower_seq("Job-UUID"@).len());
        },
        EventHeader::ChannelState => {
            assert(ascii_lower_seq("Channel-State"@).len() != ascii_lower_seq("Event-Name"@).len());
            assert(ascii_lower_seq("Channel-State"@).len() != ascii_lower_seq("Event-Subclass"@).len());
            assert(ascii_lower_seq("Channel-State"@).len() != ascii_lower_seq("Unique-ID"@).len());
            assert(ascii_lower_seq("Channel-State"@).len() != ascii_lower_seq("Caller-Unique-ID"@).len());
            assert(ascii_lower_seq("Channel-State"@).len() != ascii_lower_seq("Other-Leg-Unique-ID"@).len());
            assert(ascii_lower_seq("Channel-State"@).len() != ascii_lower_seq("Channel-Call-UUID"@).len());
            assert(ascii_lower_seq("Channel-State"@).len() != ascii_lower_seq("Job-UUID"@).len());
            assert(ascii_lower_seq("Channel-State"@).len() != ascii_lower_seq("Channel-Name"@).len());
        },
        EventHeader::ChannelStateNumber => {
            assert(ascii_lower_seq("Channel-State-Number"@).len() != ascii_lower_seq("Event-Name"@).len());
            assert(ascii_lower_seq("Channel-State-Number"@).len() != ascii_lower_seq("Event-Subclass"@).len());
            assert(ascii_lower_seq("Channel-State-Number"@).len() != ascii_lower_seq("Unique-ID"@).len());
            assert(ascii_lower_seq("Channel-State-Number"@).len() != ascii_lower_seq("Caller-Unique-ID"@).len());
            assert(ascii_lower_seq("Channel-State-Number"@).len() != ascii_lower_seq("Other-Leg-Unique-ID"@).len());
            assert(ascii_lower_seq("Channel-State-Number"@).len() != ascii_lower_seq("Channel-Call-UUID"@).len());
            assert(ascii_lower_seq("Channel-State-Number"@).len() != ascii_lower_seq("Job-UUID"@).len());
            assert(ascii_lower_seq("Channel-State-Number"@).len() != ascii_lower_seq("Channel-Name"@).len());
            assert(ascii_lower_seq("Channel-State-Number"@).len() != ascii_lower_seq("Channel-State"@).len());
        },
        EventHeader::ChannelCallState => {
            assert(ascii_lower_seq("Channel-Call-State"@).len() != ascii_lower_seq("Event-Name"@).len());
            assert(ascii_lower_seq("Channel-Call-State"@).len() != ascii_lower_seq("Event-Subclass"@).len());
            assert(ascii_lower_seq("Channel-Call-State"@).len() != ascii_lower_seq("Unique-ID"@).len());
            assert(ascii_lower_seq("Channel-Call-State"@).len() != ascii_lower_seq("Caller-Unique-ID"@).len());
            assert(ascii_lower_seq("Channel-Call-State"@).len() != ascii_lower_seq("Other-Leg-Unique-ID"@).len());
            assert(ascii_lower_seq("Channel-Call-State"@).len() != ascii_lower_seq("Channel-Call-UUID"@).len());
            assert(ascii_lower_seq("Channel-Call-State"@).len() != ascii_lower_seq("Job-UUID"@).len());
            assert(ascii_lower_seq("Channel-Call-State"@).len() != ascii_lower_seq("Channel-Name"@).len());
            assert(ascii_lower_seq("Channel-Call-State"@).len() != ascii_lower_seq("Channel-State"@).len());
            assert(ascii_lower_seq("Channel-Call-State"@).len() != ascii_lower_seq("Channel-State-Number"@).len());
        },
        EventHeader::AnswerState => {
            assert(ascii_lower_seq("Answer-State"@).len() != ascii_lower_seq("Event-Name"@).len());
            assert(ascii_lower_seq("Answer-State"@).len() != ascii_lower_seq("Event-Subclass"@).len());
            assert(ascii_lower_seq("Answer-State"@).len() != ascii_lower_seq("Unique-ID"@).len());
            assert(ascii_lower_seq("Answer-State"@).len() != ascii_lower_seq("Caller-Unique-ID"@).len());
            assert(ascii_lower_seq("Answer-State"@).len() != ascii_lower_seq("Other-Leg-Unique-ID"@).len());
            assert(ascii_lower_seq("Answer-State"@).len() != ascii_lower_seq("Channel-Call-UUID"@).len());
            assert(ascii_lower_seq("Answer-State"@).len() != ascii_lower_seq("Job-UUID"@).len());
            assert(ascii_lower_seq("Answer-State"@)[0] != ascii_lower_seq("Channel-Name"@)[0]);
            assert(ascii_lower_seq("Answer-State"@).len() != ascii_lower_seq("Channel-State"@).len());
            assert(ascii_lower_seq("Answer-State"@).len() != ascii_lower_seq("Channel-State-Number"@).len());
            assert(ascii_lower_seq("Answer-State"@).len() != ascii_lower_seq("Channel-Call-State"@).len());
        },
        EventHeader::CallDirection => {
            assert(ascii_lower_seq("Call-Direction"@).len() != ascii_lower_seq("Event-Name"@).len());
            assert(ascii_lower_seq("Call-Direction"@)[0] != ascii_lower_seq("Event-Subclass"@)[0]);
            assert(ascii_lower_seq("Call-Direction"@).len() != ascii_lower_seq("Unique-ID"@).len());
            assert(ascii_lower_seq("Call-Direction"@).len() != ascii_lower_seq("Caller-Unique-ID"@).len());
            assert(ascii_lower_seq("Call-Direction"@).len() != ascii_lower_seq("Other-Leg-Unique-ID"@).len());
            assert(ascii_lower_seq("Call-Direction"@).len() != ascii_lower_seq("Channel-Call-UUID"@).len());
            assert(ascii_lower_seq("Call-Direction"@).len() != ascii_lower_seq("Job-UUID"@).len());
            assert(ascii_lower_seq("Call-Direction"@).len() != ascii_lower_seq("Channel-Name"@).len());
            assert(ascii_lower_seq("Call-Direction"@).len() != ascii_lower_seq("Channel-State"@).len());
            assert(ascii_lower_seq("Call-Direction"@).len() != ascii_lower_seq("Channel-State-Number"@).len());
            assert(ascii_lower_seq("Call-Direction"@).len() != ascii_lower_seq("Channel-Call-State"@).len());
            assert(ascii_lower_seq("Call-Direction"@).len() != ascii_lower_seq("Answer-State"@).len());
        },
        EventHeader::HangupCause => {
            assert(ascii_lower_seq("Hangup-Cause"@).len() != ascii_lower_seq("Event-Name"@).len());
            assert(ascii_lower_seq("Hangup-Cause"@).len() != ascii_lower_seq("Event-Subclass"@).len());
            assert(ascii_lower_seq("Hangup-Cause"@).len() != ascii_lower_seq("Unique-ID"@).len());
            assert(ascii_lower_seq("Hangup-Cause"@).len() != ascii_lower_seq("Caller-Unique-ID"@).len());
            assert(ascii_lower_seq("Hangup-Cause"@).len() != ascii_lower_seq("Other-Leg-Unique-ID"@).len());
            assert(ascii_lower_seq("Hangup-Cause"@).len() != ascii_lower_seq("Channel-Call-UUID"@).len());
            assert(ascii_lower_seq("Hangup-Cause"@).len() != ascii_lower_seq("Job-UUID"@).len());
            assert(ascii_lower_seq("Hangup-Cause"@)[0] != ascii_lower_seq("Channel-Name"@)[0]);
            assert(ascii_lower_seq("Hangup-Cause"@).len() != ascii_lower_seq("Channel-State"@).len());
            assert(ascii_lower_seq("Hangup-Cause"@).len() != ascii_lower_seq("Channel-State-Number"@).len());
            assert(ascii_lower_seq("Hangup-Cause"@).len() != ascii_lower_seq("Channel-Call-State"@).len());
            assert(ascii_lower_seq("Hangup-Cause"@)[0] != ascii_lower_seq("Answer-State"@)[0]);
            assert(ascii_lower_seq("Hangup-Cause"@).len() != ascii_lower_seq("Call-Direction"@).len());
        },
        EventHeader::CallerCallerIdName => {
            assert(ascii_lower_seq("Caller-Caller-ID-Name"@).len() != ascii_lower_seq("Event-Name"@).len());
            assert(ascii_lower_seq("Caller-Caller-ID-Name"@).len() != ascii_lower_seq("Event-Subclass"@).len());
            assert(ascii_lower_seq("Caller-Caller-ID-Name"@).len() != ascii_lower_seq("Unique-ID"@).len());
            assert(ascii_lower_seq("Caller-Caller-ID-Name"@).len() != ascii_lower_seq("Caller-Unique-ID"@).len());
            assert(ascii_lower_seq("Caller-Caller-ID-Name"@).len() != ascii_lower_seq("Other-Leg-Unique-ID"@).len());
            assert(ascii_lower_seq("Caller-Caller-ID-Name"@).len() != ascii_lower_seq("Channel-Call-UUID"@).len());
            assert(ascii_lower_seq("Caller-Caller-ID-Name"@).len() != ascii_lower_seq("Job-UUID"@).len());
            assert(ascii_lower_seq("Caller-Caller-ID-Name"@).len() != ascii_lower_seq("Channel-Name"@).len());
            assert(ascii_lower_seq("Caller-Caller-ID-Name"@).len() != ascii_lower_seq("Channel-State"@).len());
            assert(ascii_lower_seq("Caller-Caller-ID-Name"@).len() != ascii_lower_seq("Channel-State-Number"@).len());
            assert(ascii_lower_seq("Caller-Caller-ID-Name"@).len() != ascii_lower_seq("Channel-Call-State"@).len());
            assert(ascii_lower_seq("Caller-Caller-ID-Name"@).len() != ascii_lower_seq("Answer-State"@).len());
            assert(ascii_lower_seq("Caller-Caller-ID-Name"@).len() != ascii_lower_seq("Call-Direction"@).len());
            assert(ascii_lower_seq("Caller-Caller-ID-Name"@).len() != ascii_lower_seq("Hangup-Cause"@).len());
        },
        EventHeader::CallerCallerIdNumber => {
            assert(ascii_lower_seq("Caller-Caller-ID-Number"@).len() != ascii_lower_seq("Event-Name"@).len());
            assert(ascii_lower_seq("Caller-Caller-ID-Number"@).len() != ascii_lower_seq("Event-Subclass"@).len());
            assert(ascii_lower_seq("Caller-Caller-ID-Number"@).len() != ascii_lower_seq("Unique-ID"@).len());
            assert(ascii_lower_seq("Caller-Caller-ID-Number"@).len() != ascii_lower_seq("Caller-Unique-ID"@).len());
            assert(ascii_lower_seq("Caller-Caller-ID-Number"@).len() != ascii_lower_seq("Other-Leg-Unique-ID"@).len());
            assert(ascii_lower_seq("Caller-Caller-ID-Number"@).len() != ascii_lower_seq("Channel-Call-UUID"@).len());
            assert(ascii_lower_seq("Caller-Caller-ID-Number"@).len() != ascii_lower_seq("Job-UUID"@).len());
            assert(ascii_lower_seq("Caller-Caller-ID-Number"@).len() != ascii_lower_seq("Channel-Name"@).len());
            assert(ascii_lower_seq("Caller-Caller-ID-Number"@).len() != ascii_lower_seq("Channel-State"@).len());
            assert(ascii_lower_seq("Caller-Caller-ID-Number"@).len() != ascii_lower_seq("Channel-State-Number"@).len());
            assert(ascii_lower_seq("Caller-Caller-ID-Number"@).len() != ascii_lower_seq("Channel-Call-State"@).len());
            assert(ascii_lower_seq("Caller-Caller-ID-Number"@).len() != ascii_lower_seq("Answer-State"@).len());
            assert(ascii_lower_seq("Caller-Caller-ID-Number"@).len() != ascii_lower_seq("Call-Direction"@).len());
            assert(ascii_lower_seq("Caller-Caller-ID-Number"@).len() != ascii_lower_seq("Hangup-Cause"@).len());
            assert(ascii_lower_seq("Caller-Caller-ID-Number"@).len() != ascii_lower_seq("Caller-Caller-ID-Name"@).len());
        },
        EventHeader::CallerOrigCallerIdName => {
            assert(ascii_lower_seq("Caller-Orig-Caller-ID-Name"@).len() != ascii_lower_seq("Event-Name"@).len());
            assert(ascii_lower_seq("Caller-Orig-Caller-ID-Name"@).len() != ascii_lower_seq("Event-Subclass"@).len());
            assert(ascii_lower_seq("Caller-Orig-Caller-ID-Name"@).len() != ascii_lower_seq("Unique-ID"@).len());
            assert(ascii_lower_seq("Caller-Orig-Caller-ID-Name"@).len() != ascii_lower_seq("Caller-Unique-ID"@).len());
            assert(ascii_lower_seq("Caller-Orig-Caller-ID-Name"@).len() != ascii_lower_seq("Other-Leg-Unique-ID"@).len());
            assert(ascii_lower_seq("Caller-Orig-Caller-ID-Name"@).len() != ascii_lower_seq("Channel-Call-UUID"@).len());
            assert(ascii_lower_seq("Caller-Orig-Caller-ID-Name"@).len() != ascii_lower_seq("Job-UUID"@).len());
            assert(ascii_lower_seq("Caller-Orig-Caller-ID-Name"@).len() != ascii_lower_seq("Channel-Name"@).len());
            assert(ascii_lower_seq("Caller-Orig-Caller-ID-Name"@).len() != ascii_lower_seq("Channel-State"@).len());
            assert(ascii_lower_seq("Caller-Orig-Caller-ID-Name"@).len() != ascii_lower_seq("Channel-State-Number"@).len());
            assert(ascii_lower_seq("Caller-Orig-Caller-ID-Name"@).len() != ascii_lower_seq("Channel-Call-State"@).len());
            assert(ascii_lower_seq("Caller-Orig-Caller-ID-Name"@).len() != ascii_lower_seq("Answer-State"@).len());
            assert(ascii_lower_seq("Caller-Orig-Caller-ID-Name"@).len() != ascii_lower_seq("Call-Direction"@).len());
            assert(ascii_lower_seq("Caller-Orig-Caller-ID-Name"@).len() != ascii_lower_seq("Hangup-Cause"@).len());
            assert(ascii_lower_seq("Caller-Orig-Caller-ID-Name"@).len() != ascii_lower_seq("Caller-Caller-ID-Name"@).len());
            assert(ascii_lower_seq("Caller-Orig-Caller-ID-Name"@).len() != ascii_lower_seq("Caller-Caller-ID-Number"@).len());
        },
        EventHeader::CallerOrigCallerIdNumber => {
            assert(ascii_lower_seq("Caller-Orig-Caller-ID-Number"@).len() != ascii_lower_seq("Event-Name"@).len());
            assert(ascii_lower_seq("Caller-Orig-Caller-ID-Number"@).len() != ascii_lower_seq("Event-Subclass"@).len());
            assert(ascii_lower_seq("Caller-Orig-Caller-ID-Number"@).len() != ascii_lower_seq("Unique-ID"@).len());
            assert(ascii_lower_seq("Caller-Orig-Caller-ID-Number"@).len() != ascii_lower_seq("Caller-Unique-ID"@).len());
            assert(ascii_lower_seq("Caller-Orig-Caller-ID-Number"@).len() != ascii_lower_seq("Other-Leg-Unique-ID"@).len());
            assert(ascii_lower_seq("Caller-Orig-Caller-ID-Number"@).len() != ascii_lower_seq("Channel-Call-UUID"@).len());
            assert(ascii_lower_seq("Caller-Orig-Caller-ID-Number"@).len() != ascii_lower_seq("Job-UUID"@).len());
            assert(ascii_lower_seq("Caller-Orig-Caller-ID-Number"@).len() != ascii_lower_seq("Channel-Name"@).len());
            assert(ascii_lower_seq("Caller-Orig-Caller-ID-Number"@).len() != ascii_lower_seq("Channel-State"@).len());
            assert(ascii_lower_seq("Caller-Orig-Caller-ID-Number"@).len() != ascii_lower_seq("Channel-State-Number"@).len());
            assert(ascii_lower_seq("Caller-Orig-Caller-ID-Number"@).len() != ascii_lower_seq("Channel-Call-State"@).len());
            assert(ascii_lower_seq("Caller-Orig-Caller-ID-Number"@).len() != ascii_lower_seq("Answer-State"@).len());
            assert(ascii_lower_seq("Caller-Orig-Caller-ID-Number"@).len() != ascii_lower_seq("Call-Direction"@).len());
            assert(ascii_lower_seq("Caller-Orig-Caller-ID-Number"@).len() != ascii_lower_seq("Hangup-Cause"@).len());
            assert(ascii_lower_seq("Caller-Orig-Caller-ID-Number"@).len() != ascii_lower_seq("Caller-Caller-ID-Name"@).len());
            assert(ascii_lower_seq("Caller-Orig-Caller-ID-Number"@).len() != ascii_lower_seq("Caller-Caller-ID-Number"@).len());
            assert(ascii_lower_seq("Caller-Orig-Caller-ID-Number"@).len() != ascii_lower_seq("Caller-Orig-Caller-ID-Name"@).len());
        },
        EventHeader::CallerCalleeIdName => {
            assert(ascii_lower_seq("Caller-Callee-ID-Name"@).len() != ascii_lower_seq("Event-Name"@).len());
            assert(ascii_lower_seq("Caller-Callee-ID-Name"@).len() != ascii_lower_seq("Event-Subclass"@).len());
            assert(ascii_lower_seq("Caller-Callee-ID-Name"@).len() != ascii_lower_seq("Unique-ID"@).len());
            assert(ascii_lower_seq("Caller-Callee-ID-Name"@).len() != ascii_lower_seq("Caller-Unique-ID"@).len());
            assert(ascii_lower_seq("Caller-Callee-ID-Name"@).len() != ascii_lower_seq("Other-Leg-Unique-ID"@).len());
            assert(ascii_lower_seq("Caller-Callee-ID-Name"@).len() != ascii_lower_seq("Channel-Call-UUID"@).len());
            assert(ascii_lower_seq("Caller-Callee-ID-Name"@).len() != ascii_lower_seq("Job-UUID"@).len());
            assert(ascii_lower_seq("Caller-Callee-ID-Name"@).len() != ascii_lower_seq("Channel-Name"@).len());
            assert(ascii_lower_seq("Caller-Callee-ID-Name"@).len() != ascii_lower_seq("Channel-State"@).len());
            assert(ascii_lower_seq("Caller-Callee-ID-Name"@).len() != ascii_lower_seq("Channel-State-Number"@).len());
            assert(ascii_lower_seq("Caller-Callee-ID-Name"@).len() != ascii_lower_seq("Channel-Call-State"@).len());
            assert(ascii_lower_seq("Caller-Callee-ID-Name"@).len() != ascii_lower_seq("Answer-State"@).len());
            assert(ascii_lower_seq("Caller-Callee-ID-Name"@).len() != ascii_lower_seq("Call-Direction"@).len());
            assert(ascii_lower_seq("Caller-Callee-ID-Name"@).len() != ascii_lower_seq("Hangup-Cause"@).len());
            assert(ascii_lower_seq("Caller-Callee-ID-Name"@)[12] != ascii_lower_seq("Caller-Caller-ID-Name"@)[12]);
            assert(ascii_lower_seq("Caller-Callee-ID-Name"@).len() != ascii_lower_seq("Caller-Caller-ID-Number"@).len());
            assert(ascii_lower_seq("Caller-Callee-ID-Name"@).len() != ascii_lower_seq("Caller-Orig-Caller-ID-Name"@).len());
            assert(ascii_lower_seq("Caller-Callee-ID-Name"@).len() != ascii_lower_seq("Caller-Orig-Caller-ID-Number"@).len());
        },
        EventHeader::CallerCalleeIdNumber => {
            assert(ascii_lower_seq("Caller-Callee-ID-Number"@).len() != ascii_lower_seq("Event-Name"@).len());
            assert(ascii_lower_seq("Caller-Callee-ID-Number"@).len() != ascii_lower_seq("Event-Subclass"@).len());
            assert(ascii_lower_seq("Caller-Callee-ID-Number"@).len() != ascii_lower_seq("Unique-ID"@).len());
            assert(ascii_lower_seq("Caller-Callee-ID-Number"@).len() != ascii_lower_seq("Caller-Unique-ID"@).len());
            assert(ascii_lower_seq("Caller-Callee-ID-Number"@).len() != ascii_lower_seq("Other-Leg-Unique-ID"@).len());
            assert(ascii_lower_seq("Caller-Callee-ID-Number"@).len() != ascii_lower_seq("Channel-Call-UUID"@).len());
            assert(ascii_lower_seq("Caller-Callee-ID-Number"@).len() != ascii_lower_seq("Job-UUID"@).len());
            assert(ascii_lower_seq("Caller-Callee-ID-Number"@).len() != ascii_lower_seq("Channel-Name"@).len());
            assert(ascii_lower_seq("Caller-Callee-ID-Number"@).len() != ascii_lower_seq("Channel-State"@).len());
            assert(ascii_lower_seq("Caller-Callee-ID-Number"@).len() != ascii_lower_seq("Channel-State-Number"@).len());
            assert(ascii_lower_seq("Caller-Callee-ID-Number"@).len() != ascii_lower_seq("Channel-Call-State"@).len());
            assert(ascii_lower_seq("Caller-Callee-ID-Number"@).len() != ascii_lower_seq("Answer-State"@).len());
            assert(ascii_lower_seq("Caller-Callee-ID-Number"@).len() != ascii_lower_seq("Call-Direction"@).len());
            assert(ascii_lower_seq("Caller-Callee-ID-Number"@).len() != ascii_lower_seq("Hangup-Cause"@).len());
            assert(ascii_lower_seq("Caller-Callee-ID-Number"@).len() != ascii_lower_seq("Caller-Caller-ID-Name"@).len());
            assert(ascii_lower_seq("Caller-Callee-ID-Number"@)[12] != ascii_lower_seq("Caller-Caller-ID-Number"@)[12]);
            assert(ascii_lower_seq("Caller-Callee-ID-Number"@).len() != ascii_lower_seq("Caller-Orig-Caller-ID-Name"@).len());
            assert(ascii_lower_seq("Caller-Callee-ID-Number"@).len() != ascii_lower_seq("Caller-Orig-Caller-ID-Number"@).len());
            assert(ascii_lower_seq("Caller-Callee-ID-Number"@).len() != ascii_lower_seq("Caller-Callee-ID-Name"@).len());
        },
        EventHeader::CallerDestinationNumber => {
            assert(ascii_lower_seq("Caller-Destination-Number"@).len() != ascii_lower_seq("Event-Name"@).len());
            assert(ascii_lower_seq("Caller-Destination-Number"@).len() != ascii_lower_seq("Event-Subclass"@).len());
            assert(ascii_lower_seq("Caller-Destination-Number"@).len() != ascii_lower_seq("Unique-ID"@).len());
            assert(ascii_lower_seq("Caller-Destination-Number"@).len() != ascii_lower_seq("Caller-Unique-ID"@).len());
            assert(ascii_lower_seq("Caller-Destination-Number"@).len() != ascii_lower_seq("Other-Leg-Unique-ID"@).len());
            assert(ascii_lower_seq("Caller-Destination-Number"@).len() != ascii_lower_seq("Channel-Call-UUID"@).len());
            assert(ascii_lower_seq("Caller-Destination-Number"@).len() != ascii_lower_seq("Job-UUID"@).len());
            assert(ascii_lower_seq("Caller-Destination-Number"@).len() != ascii_lower_seq("Channel-Name"@).len());
            assert(ascii_lower_seq("Caller-Destination-Number"@).len() != ascii_lower_seq("Channel-State"@).len());
            assert(ascii_lower_seq("Caller-Destination-Number"@).len() != ascii_lower_seq("Channel-State-Number"@).len());
            assert(ascii_lower_seq("Caller-Destination-Number"@).len() != ascii_lower_seq("Channel-Call-State"@).len());
            assert(ascii_lower_seq("Caller-Destination-Number"@).len() != ascii_lower_seq("Answer-State"@).len());
            assert(ascii_lower_seq("Caller-Destination-Number"@).len() != ascii_lower_seq("Call-Direction"@).len());
            assert(ascii_lower_seq("Caller-Destination-Number"@).len() != ascii_lower_seq("Hangup-Cause"@).len());
            assert(ascii_lower_seq("Caller-Destination-Number"@).len() != ascii_lower_seq("Caller-Caller-ID-Name"@).len());
            assert(ascii_lower_seq("Caller-Destination-Number"@).len() != ascii_lower_seq("Caller-Caller-ID-Number"@).len());
            assert(ascii_lower_seq("Caller-Destination-Number"@).len() != ascii_lower_seq("Caller-Orig-Caller-ID-Name"@).len());
            assert(ascii_lower_seq("Caller-Destination-Number"@).len() != ascii_lower_seq("Caller-Orig-Caller-ID-Number"@).len());
            assert(ascii_lower_seq("Caller-Destination-Number"@).len() != ascii_lower_seq("Caller-Callee-ID-Name"@).len());
            assert(ascii_lower_seq("Caller-Destination-Number"@).len() != ascii_lower_seq("Caller-Callee-ID-Number"@).len());
        },
        EventHeader::CallerContext => {
            assert(ascii_lower_seq("Caller-Context"@).len() != ascii_lower_seq("Event-Name"@).len());
            assert(ascii_lower_seq("Caller-Context"@)[0] != ascii_lower_seq("Event-Subclass"@)[0]);
            assert(ascii_lower_seq("Caller-Context"@).len() != ascii_lower_seq("Unique-ID"@).len());
            assert(ascii_lower_seq("Caller-Context"@).len() != ascii_lower_seq("Caller-Unique-ID"@).len());
            assert(ascii_lower_seq("Caller-Context"@).len() != ascii_lower_seq("Other-Leg-Unique-ID"@).len());
            assert(ascii_lower_seq("Caller-Context"@).len() != ascii_lower_seq("Channel-Call-UUID"@).len());
            assert(ascii_lower_seq("Caller-Context"@).len() != ascii_lower_seq("Job-UUID"@).len());
            assert(ascii_lower_seq("Caller-Context"@).len() != ascii_lower_seq("Channel-Name"@).len());
            assert(ascii_lower_seq("Caller-Context"@).len() != ascii_lower_seq("Channel-State"@).len());
            assert(ascii_lower_seq("Caller-Context"@).len() != ascii_lower_seq("Channel-State-Number"@).len());
            assert(ascii_lower_seq("Caller-Context"@).len() != ascii_lower_seq("Channel-Call-State"@).len());
            assert(ascii_lower_seq("Caller-Context"@).len() != ascii_lower_seq("Answer-State"@).len());
            assert(ascii_lower_seq("Caller-Context"@)[4] != ascii_lower_seq("Call-Direction"@)[4]);
            assert(ascii_lower_seq("Caller-Context"@).len() != ascii_lower_seq("Hangup-Cause"@).len());
            assert(ascii_lower_seq("Caller-Context"@).len() != ascii_lower_seq("Caller-Caller-ID-Name"@).len());
            assert(ascii_lower_seq("Caller-Context"@).len() != ascii_lower_seq("Caller-Caller-ID-Number"@).len());
            assert(ascii_lower_seq("Caller-Context"@).len() != ascii_lower_seq("Caller-Orig-Caller-ID-Name"@).len());
            assert(ascii_lower_seq("Caller-Context"@).len() != ascii_lower_seq("Caller-Orig-Caller-ID-Number"@).len());
            assert(ascii_lower_seq("Caller-Context"@).len() != ascii_lower_seq("Caller-Callee-ID-Name"@).len());
            assert(ascii_lower_seq("Caller-Context"@).len() != ascii_lower_seq("Caller-Callee-ID-Number"@).len());
            assert(ascii_lower_seq("Caller-Context"@).len() != ascii_lower_seq("Caller-Destination-Number"@).len());
        },
        EventHeader::CallerDirection => {
            assert(ascii_lower_seq("Caller-Direction"@).len() != ascii_lower_seq("Event-Name"@).len());
            assert(ascii_lower_seq("Caller-Direction"@).len() != ascii_lower_seq("Event-Subclass"@).len());
            assert(ascii_lower_seq("Caller-Direction"@).len() != ascii_lower_seq("Unique-ID"@).len());
            assert(ascii_lower_seq("Caller-Direction"@)[7] != ascii_lower_seq("Caller-Unique-ID"@)[7]);
            assert(ascii_lower_seq("Caller-Direction"@).len() != ascii_lower_seq("Other-Leg-Unique-ID"@).len());
            assert(ascii_lower_seq("Caller-Direction"@).len() != ascii_lower_seq("Channel-Call-UUID"@).len());
            assert(ascii_lower_seq("Caller-Direction"@).len() != ascii_lower_seq("Job-UUID"@).len());
            assert(ascii_lower_seq("Caller-Direction"@).len() != ascii_lower_seq("Channel-Name"@).len());
            assert(ascii_lower_seq("Caller-Direction"@).len() != ascii_lower_seq("Channel-State"@).len());
            assert(ascii_lower_seq("Caller-Direction"@).len() != ascii_lower_seq("Channel-State-Number"@).len());
            assert(ascii_lower_seq("Caller-Direction"@).len() != ascii_lower_seq("Channel-Call-State"@).len());
            assert(ascii_lower_seq("Caller-Direction"@).len() != ascii_lower_seq("Answer-State"@).len());
            assert(ascii_lower_seq("Caller-Direction"@).len() != ascii_lower_seq("Call-Direction"@).len());
            assert(ascii_lower_seq("Caller-Direction"@).len() != ascii_lower_seq("Hangup-Cause"@).len());
            assert(ascii_lower_seq("Caller-Direction"@).len() != ascii_lower_seq("Caller-Caller-ID-Name"@).len());
            assert(ascii_lower_seq("Caller-Direction"@).len() != ascii_lower_seq("Caller-Caller-ID-Number"@).len());
            assert(ascii_lower_seq("Caller-Direction"@).len() != ascii_lower_seq("Caller-Orig-Caller-ID-Name"@).len());
            assert(ascii_lower_seq("Caller-Direction"@).len() != ascii_lower_seq("Caller-Orig-Caller-ID-Number"@).len());
            assert(ascii_lower_seq("Caller-Direction"@).len() != ascii_lower_seq("Caller-Callee-ID-Name"@).len());
            assert(ascii_lower_seq("Caller-Direction"@).len() != ascii_lower_seq("Caller-Callee-ID-Number"@).len());
            assert(ascii_lower_seq("Caller-Direction"@).len() != ascii_lower_seq("Caller-Destination-Number"@).len());
            assert(ascii_lower_seq("Caller-Direction"@).len() != ascii_lower_seq("Caller-Context"@).len());
        },
        EventHeader::CallerNetworkAddr => {
            assert(ascii_lower_seq("Caller-Network-Addr"@).len() != ascii_lower_seq("Event-Name"@).len());
            assert(ascii_lower_seq("Caller-Network-Addr"@).len() != ascii_lower_seq("Event-Subclass"@).len());
            assert(ascii_lower_seq("Caller-Network-Addr"@).len() != ascii_lower_seq("Unique-ID"@).len());
            assert(ascii_lower_seq("Caller-Network-Addr"@).len() != ascii_lower_seq("Caller-Unique-ID"@).len());
            assert(ascii_lower_seq("Caller-Network-Addr"@)[0] != ascii_lower_seq("Other-Leg-Unique-ID"@)[0]);
            assert(ascii_lower_seq("Caller-Network-Addr"@).len() != ascii_lower_seq("Channel-Call-UUID"@).len());
            assert(ascii_lower_seq("Caller-Network-Addr"@).len() != ascii_lower_seq("Job-UUID"@).len());
            assert(ascii_lower_seq("Caller-Network-Addr"@).len() != ascii_lower_seq("Channel-Name"@).len());
            assert(ascii_lower_seq("Caller-Network-Addr"@).len() != ascii_lower_seq("Channel-State"@).len());
            assert(ascii_lower_seq("Caller-Network-Addr"@).len() != ascii_lower_seq("Channel-State-Number"@).len());
            assert(ascii_lower_seq("Caller-Network-Addr"@).len() != ascii_lower_seq("Channel-Call-State"@).len());
            assert(ascii_lower_seq("Caller-Network-Addr"@).len() != ascii_lower_seq("Answer-State"@).len());
            assert(ascii_lower_seq("Caller-Network-Addr"@).len() != ascii_lower_seq("Call-Direction"@).len());
            assert(ascii_lower_seq("Caller-Network-Addr"@).len() != ascii_lower_seq("Hangup-Cause"@).len());
            assert(ascii_lower_seq("Caller-Network-Addr"@).len() != ascii_lower_seq("Caller-Caller-ID-Name"@).len());
            assert(ascii_lower_seq("Caller-Network-Addr"@).len() != ascii_lower_seq("Caller-Caller-ID-Number"@).len());
            assert(ascii_lower_seq("Caller-Network-Addr"@).len() != ascii_lower_seq("Caller-Orig-Caller-ID-Name"@).len());
            assert(ascii_lower_seq("Caller-Network-Addr"@).len() != ascii_lower_seq("Caller-Orig-Caller-ID-Number"@).len());
            assert(ascii_lower_seq("Caller-Network-Addr"@).len() != ascii_lower_seq("Caller-Callee-ID-Name"@).len());
            assert(ascii_lower_seq("Caller-Network-Addr"@).len() != ascii_lower_seq("Caller-Callee-ID-Number"@).len());
            assert(ascii_lower_seq("Caller-Network-Addr"@).len() != ascii_lower_seq("Caller-Destination-Number"@).len());
            assert(ascii_lower_seq("Caller-Network-Addr"@).len() != ascii_lower_seq("Caller-Context"@).len());
            assert(ascii_lower_seq("Caller-Network-Addr"@).len() != ascii_lower_seq("Caller-Direction"@).len());
        },
        EventHeader::CoreUuid => {
            assert(ascii_lower_seq("Core-UUID"@).len() != ascii_lower_seq("Event-Name"@).len());
            assert(ascii_lower_seq("Core-UUID"@).len() != ascii_lower_seq("Event-Subclass"@).len());
            assert(ascii_lower_seq("Core-UUID"@)[0] != ascii_lower_seq("Unique-ID"@)[0]);
            assert(ascii_lower_seq("Core-UUID"@).len() != ascii_lower_seq("Caller-Unique-ID"@).len());
            assert(ascii_lower_seq("Core-UUID"@).len() != ascii_lower_seq("Other-Leg-Unique-ID"@).len());
            assert(ascii_lower_seq("Core-UUID"@).len() != ascii_lower_seq("Channel-Call-UUID"@).len());
            assert(ascii_lower_seq("Core-UUID"@).len() != ascii_lower_seq("Job-UUID"@).len());
            assert(ascii_lower_seq("Core-UUID"@).len() != ascii_lower_seq("Channel-Name"@).len());
            assert(ascii_lower_seq("Core-UUID"@).len() != ascii_lower_seq("Channel-State"@).len());
            assert(ascii_lower_seq("Core-UUID"@).len() != ascii_lower_seq("Channel-State-Number"@).len());
            assert(ascii_lower_seq("Core-UUID"@).len() != ascii_lower_seq("Channel-Call-State"@).len());
            assert(ascii_lower_seq("Core-UUID"@).len() != ascii_lower_seq("Answer-State"@).len());
            assert(ascii_lower_seq("Core-UUID"@).len() != ascii_lower_seq("Call-Direction"@).len());
            assert(ascii_lower_seq("Core-UUID"@).len() != ascii_lower_seq("Hangup-Cause"@).len());
            assert(ascii_lower_seq("Core-UUID"@).len() != ascii_lower_seq("Caller-Caller-ID-Name"@).len());
            assert(ascii_lower_seq("Core-UUID"@).len() != ascii_lower_seq("Caller-Caller-ID-Number"@).len());
            assert(ascii_lower_seq("Core-UUID"@).len() != ascii_lower_seq("Caller-Orig-Caller-ID-Name"@).len());
            assert(ascii_lower_seq("Core-UUID"@).len() != ascii_lower_seq("Caller-Orig-Caller-ID-Number"@).len());
            assert(ascii_lower_seq("Core-UUID"@).len() != ascii_lower_seq("Caller-Callee-ID-Name"@).len());
            assert(ascii_lower_seq("Core-UUID"@).len() != ascii_lower_seq("Caller-Callee-ID-Number"@).len());
            assert(ascii_lower_seq("Core-UUID"@).len() != ascii_lower_seq("Caller-Destination-Number"@).len());
            assert(ascii_lower_seq("Core-UUID"@).len() != ascii_lower_seq("Caller-Context"@).len());
            assert(ascii_lower_seq("Core-UUID"@).len() != ascii_lower_seq("Caller-Direction"@).len());
            assert(ascii_lower_seq("Core-UUID"@).len() != ascii_lower_seq("Caller-Network-Addr"@).len());
        },
        EventHeader::Priority => {
            assert(ascii_lower_seq("priority"@).len() != ascii_lower_seq("Event-Name"@).len());
            assert(ascii_lower_seq("priority"@).len() != ascii_lower_seq("Event-Subclass"@).len());
            assert(ascii_lower_seq("priority"@).len() != ascii_lower_seq("Unique-ID"@).len());
            assert(ascii_lower_seq("priority"@).len() != ascii_lower_seq("Caller-Unique-ID"@).len());
            assert(ascii_lower_seq("priority"@).len() != ascii_lower_seq("Other-Leg-Unique-ID"@).len());
            assert(ascii_lower_seq("priority"@).len() != ascii_lower_seq("Channel-Call-UUID"@).len());
            assert(ascii_lower_seq("priority"@)[0] != ascii_lower_seq("Job-UUID"@)[0]);
            assert(ascii_lower_seq("priority"@).len() != ascii_lower_seq("Channel-Name"@).len());
            assert(ascii_lower_seq("priority"@).len() != ascii_lower_seq("Channel-State"@).len());
            assert(ascii_lower_seq("priority"@).len() != ascii_lower_seq("Channel-State-Number"@).len());
            assert(ascii_lower_seq("priority"@).len() != ascii_lower_seq("Channel-Call-State"@).len());
            assert(ascii_lower_seq("priority"@).len() != ascii_lower_seq("Answer-State"@).len());
            assert(ascii_lower_seq("priority"@).len() != ascii_lower_seq("Call-Direction"@).len());
            assert(ascii_lower_seq("priority"@).len() != ascii_lower_seq("Hangup-Cause"@).len());
            assert(ascii_lower_seq("priority"@).len() != ascii_lower_seq("Caller-Caller-ID-Name"@).len());
            assert(ascii_lower_seq("priority"@).len() != ascii_lower_seq("Caller-Caller-ID-Number"@).len());
            assert(ascii_lower_seq("priority"@).len() != ascii_lower_seq("Caller-Orig-Caller-ID-Name"@).len());
            assert(ascii_lower_seq("priority"@).len() != ascii_lower_seq("Caller-Orig-Caller-ID-Number"@).len());
            assert(ascii_lower_seq("priority"@).len() != ascii_lower_seq("Caller-Callee-ID-Name"@).len());
            assert(ascii_lower_seq("priority"@).len() != ascii_lower_seq("Caller-Callee-ID-Number"@).len());
            assert(ascii_lower_seq("priority"@).len() != ascii_lower_seq("Caller-Destination-Number"@).len());
            assert(ascii_lower_seq("priority"@).len() != ascii_lower_seq("Caller-Context"@).len());
            assert(ascii_lower_seq("priority"@).len() != ascii_lower_seq("Caller-Direction"@).len());
            assert(ascii_lower_seq("priority"@).len() != ascii_lower_seq("Caller-Network-Addr"@).len());
            assert(ascii_lower_seq("priority"@).len() != ascii_lower_seq("Core-UUID"@).len());
        },
    }
}

impl AsRef<str> for EventHeader {
    /// The wire name (see [`EventHeader::as_str`]).
    fn as_ref(&self) -> (r: &str)
        ensures
            r@ == self.spec_name(),
    {
        self.as_str()
    }
}

} // verus!
