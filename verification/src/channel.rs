//! Channel-related data types read from ESL event headers.

use crate::numeric::spec_parse_i64;
use crate::numeric::parse_i64;
use crate::text::{
    all_ascii, ascii_lower_seq, ascii_upper_seq, concat2, concat3, str_eq, to_lowercase,
    to_uppercase, unicode_lower, unicode_upper,
};
use vstd::prelude::*;

verus! {

broadcast use vstd::string::group_string_axioms;

/// Channel state from `switch_channel_state_t`, carried in the `Channel-State` header as a
/// name (`CS_ROUTING`) and in `Channel-State-Number` as an integer.
#[derive(Debug, Clone, Copy, PartialEq, Eq, Hash, Structural)]
pub enum ChannelState {
    /// `CS_NEW` on the wire.
    CsNew,
    /// `CS_INIT` on the wire.
    CsInit,
    /// `CS_ROUTING` on the wire.
    CsRouting,
    /// `CS_SOFT_EXECUTE` on the wire.
    CsSoftExecute,
    /// `CS_EXECUTE` on the wire.
    CsExecute,
    /// `CS_EXCHANGE_MEDIA` on the wire.
    CsExchangeMedia,
    /// `CS_PARK` on the wire.
    CsPark,
    /// `CS_CONSUME_MEDIA` on the wire.
    CsConsumeMedia,
    /// `CS_HIBERNATE` on the wire.
    CsHibernate,
    /// `CS_RESET` on the wire.
    CsReset,
    /// `CS_HANGUP` on the wire.
    CsHangup,
    /// `CS_REPORTING` on the wire.
    CsReporting,
    /// `CS_DESTROY` on the wire.
    CsDestroy,
    /// `CS_NONE` on the wire.
    CsNone,
}

/// Error for a string that names no [`ChannelState`].
#[derive(Debug, Clone, PartialEq, Eq)]
pub struct ParseChannelStateError(pub String);

impl ParseChannelStateError {
    /// Human-readable message: `unknown channel state: <input>`.
    pub fn to_string(&self) -> (r: String)
        ensures
            r@ == "unknown channel state: "@ + self.0@,
    {
        concat2("unknown channel state: ", self.0.as_str())
    }
}

impl ChannelState {
    /// Wire name of the variant.
    pub open spec fn spec_name(self) -> Seq<char> {
        match self {
            ChannelState::CsNew => "CS_NEW"@,
            ChannelState::CsInit => "CS_INIT"@,
            ChannelState::CsRouting => "CS_ROUTING"@,
            ChannelState::CsSoftExecute => "CS_SOFT_EXECUTE"@,
            ChannelState::CsExecute => "CS_EXECUTE"@,
            ChannelState::CsExchangeMedia => "CS_EXCHANGE_MEDIA"@,
            ChannelState::CsPark => "CS_PARK"@,
            ChannelState::CsConsumeMedia => "CS_CONSUME_MEDIA"@,
            ChannelState::CsHibernate => "CS_HIBERNATE"@,
            ChannelState::CsReset => "CS_RESET"@,
            ChannelState::CsHangup => "CS_HANGUP"@,
            ChannelState::CsReporting => "CS_REPORTING"@,
            ChannelState::CsDestroy => "CS_DESTROY"@,
            ChannelState::CsNone => "CS_NONE"@,
        }
    }

    /// The variant whose wire name is exactly `s`.
    pub open spec fn from_name(s: Seq<char>) -> Option<ChannelState> {
        if s == "CS_NEW"@ {
            Some(ChannelState::CsNew)
        } else if s == "CS_INIT"@ {
            Some(ChannelState::CsInit)
        } else if s == "CS_ROUTING"@ {
            Some(ChannelState::CsRouting)
        } else if s == "CS_SOFT_EXECUTE"@ {
            Some(ChannelState::CsSoftExecute)
        } else if s == "CS_EXECUTE"@ {
            Some(ChannelState::CsExecute)
        } else if s == "CS_EXCHANGE_MEDIA"@ {
            Some(ChannelState::CsExchangeMedia)
        } else if s == "CS_PARK"@ {
            Some(ChannelState::CsPark)
        } else if s == "CS_CONSUME_MEDIA"@ {
            Some(ChannelState::CsConsumeMedia)
        } else if s == "CS_HIBERNATE"@ {
            Some(ChannelState::CsHibernate)
        } else if s == "CS_RESET"@ {
            Some(ChannelState::CsReset)
        } else if s == "CS_HANGUP"@ {
            Some(ChannelState::CsHangup)
        } else if s == "CS_REPORTING"@ {
            Some(ChannelState::CsReporting)
        } else if s == "CS_DESTROY"@ {
            Some(ChannelState::CsDestroy)
        } else if s == "CS_NONE"@ {
            Some(ChannelState::CsNone)
        } else {
            None
        }
    }

    /// Wire name, as a static string.
    pub fn as_str(&self) -> (r: &'static str)
        ensures
            r@ == self.spec_name(),
    {
        match self {
            ChannelState::CsNew => "CS_NEW",
            ChannelState::CsInit => "CS_INIT",
            ChannelState::CsRouting => "CS_ROUTING",
            ChannelState::CsSoftExecute => "CS_SOFT_EXECUTE",
            ChannelState::CsExecute => "CS_EXECUTE",
            ChannelState::CsExchangeMedia => "CS_EXCHANGE_MEDIA",
            ChannelState::CsPark => "CS_PARK",
            ChannelState::CsConsumeMedia => "CS_CONSUME_MEDIA",
            ChannelState::CsHibernate => "CS_HIBERNATE",
            ChannelState::CsReset => "CS_RESET",
            ChannelState::CsHangup => "CS_HANGUP",
            ChannelState::CsReporting => "CS_REPORTING",
            ChannelState::CsDestroy => "CS_DESTROY",
            ChannelState::CsNone => "CS_NONE",
        }
    }

    /// Wire name, as an owned string.
    pub fn to_string(&self) -> (r: String)
        ensures
            r@ == self.spec_name(),
    {
        self.as_str().to_owned()
    }

    /// Parses a wire name, compared after Unicode uppercasing.
    pub fn parse(s: &str) -> (r: Result<ChannelState, ParseChannelStateError>)
        ensures
            match r {
                Ok(v) => ChannelState::from_name(unicode_upper(s@)) == Some(v),
                Err(e) => ChannelState::from_name(unicode_upper(s@)) is None && e.0@ == s@,
            },
            all_ascii(s@) ==> match r {
                Ok(v) => ChannelState::from_name(ascii_upper_seq(s@)) == Some(v),
                Err(_) => ChannelState::from_name(ascii_upper_seq(s@)) is None,
            },
    {
        let u = to_uppercase(s);
        let k = u.as_str();
        if str_eq(k, "CS_NEW") {
            Ok(ChannelState::CsNew)
        } else if str_eq(k, "CS_INIT") {
            Ok(ChannelState::CsInit)
        } else if str_eq(k, "CS_ROUTING") {
            Ok(ChannelState::CsRouting)
        } else if str_eq(k, "CS_SOFT_EXECUTE") {
            Ok(ChannelState::CsSoftExecute)
        } else if str_eq(k, "CS_EXECUTE") {
            Ok(ChannelState::CsExecute)
        } else if str_eq(k, "CS_EXCHANGE_MEDIA") {
            Ok(ChannelState::CsExchangeMedia)
        } else if str_eq(k, "CS_PARK") {
            Ok(ChannelState::CsPark)
        } else if str_eq(k, "CS_CONSUME_MEDIA") {
            Ok(ChannelState::CsConsumeMedia)
        } else if str_eq(k, "CS_HIBERNATE") {
            Ok(ChannelState::CsHibernate)
        } else if str_eq(k, "CS_RESET") {
            Ok(ChannelState::CsReset)
        } else if str_eq(k, "CS_HANGUP") {
            Ok(ChannelState::CsHangup)
        } else if str_eq(k, "CS_REPORTING") {
            Ok(ChannelState::CsReporting)
        } else if str_eq(k, "CS_DESTROY") {
            Ok(ChannelState::CsDestroy)
        } else if str_eq(k, "CS_NONE") {
            Ok(ChannelState::CsNone)
        } else {
            Err(ParseChannelStateError(s.to_owned()))
        }
    }
}

impl std::str::FromStr for ChannelState {
    type Err = ParseChannelStateError;

    /// The same as [`ChannelState::parse`].
    fn from_str(s: &str) -> (r: Result<ChannelState, ParseChannelStateError>)
        ensures
            match r {
                Ok(v) => ChannelState::from_name(unicode_upper(s@)) == Some(v),
                Err(e) => ChannelState::from_name(unicode_upper(s@)) is None && e.0@ == s@,
            },
            all_ascii(s@) ==> match r {
                Ok(v) => ChannelState::from_name(ascii_upper_seq(s@)) == Some(v),
                Err(_) => ChannelState::from_name(ascii_upper_seq(s@)) is None,
            },
    {
        ChannelState::parse(s)
    }
}

/// Every [`ChannelState`] reads back from its own wire name: the name is ASCII
/// and already uppercase, so parsing what `to_string` wrote gives the variant back.
pub proof fn lemma_channel_state_name_round_trip(e: ChannelState)
    ensures
        all_ascii(e.spec_name()),
        ChannelState::from_name(e.spec_name()) == Some(e),
        ascii_upper_seq(e.spec_name()) == e.spec_name(),
{
    reveal_strlit("CS_NEW");
    reveal_strlit("CS_INIT");
    reveal_strlit("CS_ROUTING");
    reveal_strlit("CS_SOFT_EXECUTE");
    reveal_strlit("CS_EXECUTE");
    reveal_strlit("CS_EXCHANGE_MEDIA");
    reveal_strlit("CS_PARK");
    reveal_strlit("CS_CONSUME_MEDIA");
    reveal_strlit("CS_HIBERNATE");
    reveal_strlit("CS_RESET");
    reveal_strlit("CS_HANGUP");
    reveal_strlit("CS_REPORTING");
    reveal_strlit("CS_DESTROY");
    reveal_strlit("CS_NONE");
    assert(ascii_upper_seq(e.spec_name()) =~= e.spec_name());
    match e {
        ChannelState::CsNew => {
        },
        ChannelState::CsInit => {
            assert("CS_INIT"@.len() != "CS_NEW"@.len());
        },
        ChannelState::CsRouting => {
            assert("CS_ROUTING"@.len() != "CS_NEW"@.len());
            assert("CS_ROUTING"@.len() != "CS_INIT"@.len());
        },
        ChannelState::CsSoftExecute => {
            assert("CS_SOFT_EXECUTE"@.len() != "CS_NEW"@.len());
            assert("CS_SOFT_EXECUTE"@.len() != "CS_INIT"@.len());
            assert("CS_SOFT_EXECUTE"@.len() != "CS_ROUTING"@.len());
        },
        ChannelState::CsExecute => {
            assert("CS_EXECUTE"@.len() != "CS_NEW"@.len());
            assert("CS_EXECUTE"@.len() != "CS_INIT"@.len());
            assert("CS_EXECUTE"@[3] != "CS_ROUTING"@[3]);
            assert("CS_EXECUTE"@.len() != "CS_SOFT_EXECUTE"@.len());
        },
        ChannelState::CsExchangeMedia => {
            assert("CS_EXCHANGE_MEDIA"@.len() != "CS_NEW"@.len());
            assert("CS_EXCHANGE_MEDIA"@.len() != "CS_INIT"@.len());
            assert("CS_EXCHANGE_MEDIA"@.len() != "CS_ROUTING"@.len());
            assert("CS_EXCHANGE_MEDIA"@.len() != "CS_SOFT_EXECUTE"@.len());
            assert("CS_EXCHANGE_MEDIA"@.len() != "CS_EXECUTE"@.len());
        },
        ChannelState::CsPark => {
            assert("CS_PARK"@.len() != "CS_NEW"@.len());
            assert("CS_PARK"@[3] != "CS_INIT"@[3]);
            assert("CS_PARK"@.len() != "CS_ROUTING"@.len());
            assert("CS_PARK"@.len() != "CS_SOFT_EXECUTE"@.len());
            assert("CS_PARK"@.len() != "CS_EXECUTE"@.len());
            assert("CS_PARK"@.len() != "CS_EXCHANGE_MEDIA"@.len());
        },
        ChannelState::CsConsumeMedia => {
            assert("CS_CONSUME_MEDIA"@.len() != "CS_NEW"@.len());
            assert("CS_CONSUME_MEDIA"@.len() != "CS_INIT"@.len());
            assert("CS_CONSUME_MEDIA"@.len() != "CS_ROUTING"@.len());
            assert("CS_CONSUME_MEDIA"@.len() != "CS_SOFT_EXECUTE"@.len());
            assert("CS_CONSUME_MEDIA"@.len() != "CS_EXECUTE"@.len());
            assert("CS_CONSUME_MEDIA"@.len() != "CS_EXCHANGE_MEDIA"@.len());
            assert("CS_CONSUME_MEDIA"@.len() != "CS_PARK"@.len());
        },
        ChannelState::CsHibernate => {
            assert("CS_HIBERNATE"@.len() != "CS_NEW"@.len());
            assert("CS_HIBERNATE"@.len() != "CS_INIT"@.len());
            assert("CS_HIBERNATE"@.len() != "CS_ROUTING"@.len());
            assert("CS_HIBERNATE"@.len() != "CS_SOFT_EXECUTE"@.len());
            assert("CS_HIBERNATE"@.len() != "CS_EXECUTE"@.len());
            assert("CS_HIBERNATE"@.len() != "CS_EXCHANGE_MEDIA"@.len());
            assert("CS_HIBERNATE"@.len() != "CS_PARK"@.len());
            assert("CS_HIBERNATE"@.len() != "CS_CONSUME_MEDIA"@.len());
        },
        ChannelState::CsReset => {
            assert("CS_RESET"@.len() != "CS_NEW"@.len());
            assert("CS_RESET"@.len() != "CS_INIT"@.len());
            assert("CS_RESET"@.len() != "CS_ROUTING"@.len());
            assert("CS_RESET"@.len() != "CS_SOFT_EXECUTE"@.len());
            assert("CS_RESET"@.len() != "CS_EXECUTE"@.len());
            assert("CS_RESET"@.len() != "CS_EXCHANGE_MEDIA"@.len());
            assert("CS_RESET"@.len() != "CS_PARK"@.len());
            assert("CS_RESET"@.len() != "CS_CONSUME_MEDIA"@.len());
            assert("CS_RESET"@.len() != "CS_HIBERNATE"@.len());
        },
        ChannelState::CsHangup => {
            assert("CS_HANGUP"@.len() != "CS_NEW"@.len());
            assert("CS_HANGUP"@.len() != "CS_INIT"@.len());
            assert("CS_HANGUP"@.len() != "CS_ROUTING"@.len());
            assert("CS_HANGUP"@.len() != "CS_SOFT_EXECUTE"@.len());
            assert("CS_HANGUP"@.len() != "CS_EXECUTE"@.len());
            assert("CS_HANGUP"@.len() != "CS_EXCHANGE_MEDIA"@.len());
            assert("CS_HANGUP"@.len() != "CS_PARK"@.len());
            assert("CS_HANGUP"@.len() != "CS_CONSUME_MEDIA"@.len());
            assert("CS_HANGUP"@.len() != "CS_HIBERNATE"@.len());
            assert("CS_HANGUP"@.len() != "CS_RESET"@.len());
        },
        ChannelState::CsReporting => {
            assert("CS_REPORTING"@.len() != "CS_NEW"@.len());
            assert("CS_REPORTING"@.len() != "CS_INIT"@.len());
            assert("CS_REPORTING"@.len() != "CS_ROUTING"@.len());
            assert("CS_REPORTING"@.len() != "CS_SOFT_EXECUTE"@.len());
            assert("CS_REPORTING"@.len() != "CS_EXECUTE"@.len());
            assert("CS_REPORTING"@.len() != "CS_EXCHANGE_MEDIA"@.len());
            assert("CS_REPORTING"@.len() != "CS_PARK"@.len());
            assert("CS_REPORTING"@.len() != "CS_CONSUME_MEDIA"@.len());
            assert("CS_REPORTING"@[3] != "CS_HIBERNATE"@[3]);
            assert("CS_REPORTING"@.len() != "CS_RESET"@.len());
            assert("CS_REPORTING"@.len() != "CS_HANGUP"@.len());
        },
        ChannelState::CsDestroy => {
            assert("CS_DESTROY"@.len() != "CS_NEW"@.len());
            assert("CS_DESTROY"@.len() != "CS_INIT"@.len());
            assert("CS_DESTROY"@[3] != "CS_ROUTING"@[3]);
            assert("CS_DESTROY"@.len() != "CS_SOFT_EXECUTE"@.len());
            assert("CS_DESTROY"@[3] != "CS_EXECUTE"@[3]);
            assert("CS_DESTROY"@.len() != "CS_EXCHANGE_MEDIA"@.len());
            assert("CS_DESTROY"@.len() != "CS_PARK"@.len());
            assert("CS_DESTROY"@.len() != "CS_CONSUME_MEDIA"@.len());
            assert("CS_DESTROY"@.len() != "CS_HIBERNATE"@.len());
            assert("CS_DESTROY"@.len() != "CS_RESET"@.len());
            assert("CS_DESTROY"@.len() != "CS_HANGUP"@.len());
            assert("CS_DESTROY"@.len() != "CS_REPORTING"@.len());
        },
        ChannelState::CsNone => {
            assert("CS_NONE"@.len() != "CS_NEW"@.len());
            assert("CS_NONE"@[3] != "CS_INIT"@[3]);
            assert("CS_NONE"@.len() != "CS_ROUTING"@.len());
            assert("CS_NONE"@.len() != "CS_SOFT_EXECUTE"@.len());
            assert("CS_NONE"@.len() != "CS_EXECUTE"@.len());
            assert("CS_NONE"@.len() != "CS_EXCHANGE_MEDIA"@.len());
            assert("CS_NONE"@[3] != "CS_PARK"@[3]);
            assert("CS_NONE"@.len() != "CS_CONSUME_MEDIA"@.len());
            assert("CS_NONE"@.len() != "CS_HIBERNATE"@.len());
            assert("CS_NONE"@.len() != "CS_RESET"@.len());
            assert("CS_NONE"@.len() != "CS_HANGUP"@.len());
            assert("CS_NONE"@.len() != "CS_REPORTING"@.len());
            assert("CS_NONE"@.len() != "CS_DESTROY"@.len());
        },
    }
}

/// Call state from `switch_channel_callstate_t`, carried in the `Channel-Call-State` header.
#[derive(Debug, Clone, Copy, PartialEq, Eq, Hash, Structural)]
pub enum CallState {
    /// `DOWN` on the wire.
    Down,
    /// `DIALING` on the wire.
    Dialing,
    /// `RINGING` on the wire.
    Ringing,
    /// `EARLY` on the wire.
    Early,
    /// `ACTIVE` on the wire.
    Active,
    /// `HELD` on the wire.
    Held,
    /// `RING_WAIT` on the wire.
    RingWait,
    /// `HANGUP` on the wire.
    Hangup,
    /// `UNHELD` on the wire.
    Unheld,
}

/// Error for a string that names no [`CallState`].
#[derive(Debug, Clone, PartialEq, Eq)]
pub struct ParseCallStateError(pub String);

impl ParseCallStateError {
    /// Human-readable message: `unknown call state: <input>`.
    pub fn to_string(&self) -> (r: String)
        ensures
            r@ == "unknown call state: "@ + self.0@,
    {
        concat2("unknown call state: ", self.0.as_str())
    }
}

impl CallState {
    /// Wire name of the variant.
    pub open spec fn spec_name(self) -> Seq<char> {
        match self {
            CallState::Down => "DOWN"@,
            CallState::Dialing => "DIALING"@,
            CallState::Ringing => "RINGING"@,
            CallState::Early => "EARLY"@,
            CallState::Active => "ACTIVE"@,
            CallState::Held => "HELD"@,
            CallState::RingWait => "RING_WAIT"@,
            CallState::Hangup => "HANGUP"@,
            CallState::Unheld => "UNHELD"@,
        }
    }

    /// The variant whose wire name is exactly `s`.
    pub open spec fn from_name(s: Seq<char>) -> Option<CallState> {
        if s == "DOWN"@ {
            Some(CallState::Down)
        } else if s == "DIALING"@ {
            Some(CallState::Dialing)
        } else if s == "RINGING"@ {
            Some(CallState::Ringing)
        } else if s == "EARLY"@ {
            Some(CallState::Early)
        } else if s == "ACTIVE"@ {
            Some(CallState::Active)
        } else if s == "HELD"@ {
            Some(CallState::Held)
        } else if s == "RING_WAIT"@ {
            Some(CallState::RingWait)
        } else if s == "HANGUP"@ {
            Some(CallState::Hangup)
        } else if s == "UNHELD"@ {
            Some(CallState::Unheld)
        } else {
            None
        }
    }

    /// Wire name, as a static string.
    pub fn as_str(&self) -> (r: &'static str)
        ensures
            r@ == self.spec_name(),
    {
        match self {
            CallState::Down => "DOWN",
            CallState::Dialing => "DIALING",
            CallState::Ringing => "RINGING",
            CallState::Early => "EARLY",
            CallState::Active => "ACTIVE",
            CallState::Held => "HELD",
            CallState::RingWait => "RING_WAIT",
            CallState::Hangup => "HANGUP",
            CallState::Unheld => "UNHELD",
        }
    }

    /// Wire name, as an owned string.
    pub fn to_string(&self) -> (r: String)
        ensures
            r@ == self.spec_name(),
    {
        self.as_str().to_owned()
    }

    /// Parses a wire name, compared after Unicode uppercasing.
    pub fn parse(s: &str) -> (r: Result<CallState, ParseCallStateError>)
        ensures
            match r {
                Ok(v) => CallState::from_name(unicode_upper(s@)) == Some(v),
                Err(e) => CallState::from_name(unicode_upper(s@)) is None && e.0@ == s@,
            },
            all_ascii(s@) ==> match r {
                Ok(v) => CallState::from_name(ascii_upper_seq(s@)) == Some(v),
                Err(_) => CallState::from_name(ascii_upper_seq(s@)) is None,
            },
    {
        let u = to_uppercase(s);
        let k = u.as_str();
        if str_eq(k, "DOWN") {
            Ok(CallState::Down)
        } else if str_eq(k, "DIALING") {
            Ok(CallState::Dialing)
        } else if str_eq(k, "RINGING") {
            Ok(CallState::Ringing)
        } else if str_eq(k, "EARLY") {
            Ok(CallState::Early)
        } else if str_eq(k, "ACTIVE") {
            Ok(CallState::Active)
        } else if str_eq(k, "HELD") {
            Ok(CallState::Held)
        } else if str_eq(k, "RING_WAIT") {
            Ok(CallState::RingWait)
        } else if str_eq(k, "HANGUP") {
            Ok(CallState::Hangup)
        } else if str_eq(k, "UNHELD") {
            Ok(CallState::Unheld)
        } else {
            Err(ParseCallStateError(s.to_owned()))
        }
    }
}

impl std::str::FromStr for CallState {
    type Err = ParseCallStateError;

    /// The same as [`CallState::parse`].
    fn from_str(s: &str) -> (r: Result<CallState, ParseCallStateError>)
        ensures
            match r {
                Ok(v) => CallState::from_name(unicode_upper(s@)) == Some(v),
                Err(e) => CallState::from_name(unicode_upper(s@)) is None && e.0@ == s@,
            },
            all_ascii(s@) ==> match r {
                Ok(v) => CallState::from_name(ascii_upper_seq(s@)) == Some(v),
                Err(_) => CallState::from_name(ascii_upper_seq(s@)) is None,
            },
    {
        CallState::parse(s)
    }
}

/// Every [`CallState`] reads back from its own wire name: the name is ASCII
/// and already uppercase, so parsing what `to_string` wrote gives the variant back.
pub proof fn lemma_call_state_name_round_trip(e: CallState)
    ensures
        all_ascii(e.spec_name()),
        CallState::from_name(e.spec_name()) == Some(e),
        ascii_upper_seq(e.spec_name()) == e.spec_name(),
{
    reveal_strlit("DOWN");
    reveal_strlit("DIALING");
    reveal_strlit("RINGING");
    reveal_strlit("EARLY");
    reveal_strlit("ACTIVE");
    reveal_strlit("HELD");
    reveal_strlit("RING_WAIT");
    reveal_strlit("HANGUP");
    reveal_strlit("UNHELD");
    assert(ascii_upper_seq(e.spec_name()) =~= e.spec_name());
    match e {
        CallState::Down => {
        },
        CallState::Dialing => {
            assert("DIALING"@.len() != "DOWN"@.len());
        },
        CallState::Ringing => {
            assert("RINGING"@.len() != "DOWN"@.len());
            assert("RINGING"@[0] != "DIALING"@[0]);
        },
        CallState::Early => {
            assert("EARLY"@.len() != "DOWN"@.len());
            assert("EARLY"@.len() != "DIALING"@.len());
            assert("EARLY"@.len() != "RINGING"@.len());
        },
        CallState::Active => {
            assert("ACTIVE"@.len() != "DOWN"@.len());
            assert("ACTIVE"@.len() != "DIALING"@.len());
            assert("ACTIVE"@.len() != "RINGING"@.len());
            assert("ACTIVE"@.len() != "EARLY"@.len());
        },
        CallState::Held => {
            assert("HELD"@[0] != "DOWN"@[0]);
            assert("HELD"@.len() != "DIALING"@.len());
            assert("HELD"@.len() != "RINGING"@.len());
            assert("HELD"@.len() != "EARLY"@.len());
            assert("HELD"@.len() != "ACTIVE"@.len());
        },
        CallState::RingWait => {
            assert("RING_WAIT"@.len() != "DOWN"@.len());
            assert("RING_WAIT"@.len() != "DIALING"@.len());
            assert("RING_WAIT"@.len() != "RINGING"@.len());
            assert("RING_WAIT"@.len() != "EARLY"@.len());
            assert("RING_WAIT"@.len() != "ACTIVE"@.len());
            assert("RING_WAIT"@.len() != "HELD"@.len());
        },
        CallState::Hangup => {
            assert("HANGUP"@.len() != "DOWN"@.len());
            assert("HANGUP"@.len() != "DIALING"@.len());
            assert("HANGUP"@.len() != "RINGING"@.len());
            assert("HANGUP"@.len() != "EARLY"@.len());
            assert("HANGUP"@[0] != "ACTIVE"@[0]);
            assert("HANGUP"@.len() != "HELD"@.len());
            assert("HANGUP"@.len() != "RING_WAIT"@.len());
        },
        CallState::Unheld => {
            assert("UNHELD"@.len() != "DOWN"@.len());
            assert("UNHELD"@.len() != "DIALING"@.len());
            assert("UNHELD"@.len() != "RINGING"@.len());
            assert("UNHELD"@.len() != "EARLY"@.len());
            assert("UNHELD"@[0] != "ACTIVE"@[0]);
            assert("UNHELD"@.len() != "HELD"@.len());
            assert("UNHELD"@.len() != "RING_WAIT"@.len());
            assert("UNHELD"@[0] != "HANGUP"@[0]);
        },
    }
}

/// Answer state from the `Answer-State` header. Wire format is lowercase.
#[derive(Debug, Clone, Copy, PartialEq, Eq, Hash, Structural)]
pub enum AnswerState {
    /// `hangup` on the wire.
    Hangup,
    /// `answered` on the wire.
    Answered,
    /// `early` on the wire.
    Early,
    /// `ringing` on the wire.
    Ringing,
}

/// Error for a string that names no [`AnswerState`].
#[derive(Debug, Clone, PartialEq, Eq)]
pub struct ParseAnswerStateError(pub String);

impl ParseAnswerStateError {
    /// Human-readable message: `unknown answer state: <input>`.
    pub fn to_string(&self) -> (r: String)
        ensures
            r@ == "unknown answer state: "@ + self.0@,
    {
        concat2("unknown answer state: ", self.0.as_str())
    }
}

impl AnswerState {
    /// Wire name of the variant.
    pub open spec fn spec_name(self) -> Seq<char> {
        match self {
            AnswerState::Hangup => "hangup"@,
            AnswerState::Answered => "answered"@,
            AnswerState::Early => "early"@,
            AnswerState::Ringing => "ringing"@,
        }
    }

    /// The variant whose wire name is exactly `s`.
    pub open spec fn from_name(s: Seq<char>) -> Option<AnswerState> {
        if s == "hangup"@ {
            Some(AnswerState::Hangup)
        } else if s == "answered"@ {
            Some(AnswerState::Answered)
        } else if s == "early"@ {
            Some(AnswerState::Early)
        } else if s == "ringing"@ {
            Some(AnswerState::Ringing)
        } else {
            None
        }
    }

    /// Wire name, as a static string.
    pub fn as_str(&self) -> (r: &'static str)
        ensures
            r@ == self.spec_name(),
    {
        match self {
            AnswerState::Hangup => "hangup",
            AnswerState::Answered => "answered",
            AnswerState::Early => "early",
            AnswerState::Ringing => "ringing",
        }
    }

    /// Wire name, as an owned string.
    pub fn to_string(&self) -> (r: String)
        ensures
            r@ == self.spec_name(),
    {
        self.as_str().to_owned()
    }

    /// Parses a wire name, compared after Unicode lowercasing.
    pub fn parse(s: &str) -> (r: Result<AnswerState, ParseAnswerStateError>)
        ensures
            match r {
                Ok(v) => AnswerState::from_name(unicode_lower(s@)) == Some(v),
                Err(e) => AnswerState::from_name(unicode_lower(s@)) is None && e.0@ == s@,
            },
            all_ascii(s@) ==> match r {
                Ok(v) => AnswerState::from_name(ascii_lower_seq(s@)) == Some(v),
                Err(_) => AnswerState::from_name(ascii_lower_seq(s@)) is None,
            },
    {
        let u = to_lowercase(s);
        let k = u.as_str();
        if str_eq(k, "hangup") {
            Ok(AnswerState::Hangup)
        } else if str_eq(k, "answered") {
            Ok(AnswerState::Answered)
        } else if str_eq(k, "early") {
            Ok(AnswerState::Early)
        } else if str_eq(k, "ringing") {
            Ok(AnswerState::Ringing)
        } else {
            Err(ParseAnswerStateError(s.to_owned()))
        }
    }
}

impl std::str::FromStr for AnswerState {
    type Err = ParseAnswerStateError;

    /// The same as [`AnswerState::parse`].
    fn from_str(s: &str) -> (r: Result<AnswerState, ParseAnswerStateError>)
        ensures
            match r {
                Ok(v) => AnswerState::from_name(unicode_lower(s@)) == Some(v),
                Err(e) => AnswerState::from_name(unicode_lower(s@)) is None && e.0@ == s@,
            },
            all_ascii(s@) ==> match r {
                Ok(v) => AnswerState::from_name(ascii_lower_seq(s@)) == Some(v),
                Err(_) => AnswerState::from_name(ascii_lower_seq(s@)) is None,
            },
    {
        AnswerState::parse(s)
    }
}

/// Every [`AnswerState`] reads back from its own wire name: the name is ASCII
/// and already lowercase, so parsing what `to_string` wrote gives the variant back.
pub proof fn lemma_answer_state_name_round_trip(e: AnswerState)
    ensures
        all_ascii(e.spec_name()),
        AnswerState::from_name(e.spec_name()) == Some(e),
        ascii_lower_seq(e.spec_name()) == e.spec_name(),
{
    reveal_strlit("hangup");
    reveal_strlit("answered");
    reveal_strlit("early");
    reveal_strlit("ringing");
    assert(ascii_lower_seq(e.spec_name()) =~= e.spec_name());
    match e {
        AnswerState::Hangup => {
        },
        AnswerState::Answered => {
            assert("answered"@.len() != "hangup"@.len());
        },
        AnswerState::Early => {
            assert("early"@.len() != "hangup"@.len());
            assert("early"@.len() != "answered"@.len());
        },
        AnswerState::Ringing => {
            assert("ringing"@.len() != "hangup"@.len());
            assert("ringing"@.len() != "answered"@.len());
            assert("ringing"@.len() != "early"@.len());
        },
    }
}

/// Call direction from the `Call-Direction` header. Wire format is lowercase.
#[derive(Debug, Clone, Copy, PartialEq, Eq, Hash, Structural)]
pub enum CallDirection {
    /// `inbound` on the wire.
    Inbound,
    /// `outbound` on the wire.
    Outbound,
}

/// Error for a string that names no [`CallDirection`].
#[derive(Debug, Clone, PartialEq, Eq)]
pub struct ParseCallDirectionError(pub String);

impl ParseCallDirectionError {
    /// Human-readable message: `unknown call direction: <input>`.
    pub fn to_string(&self) -> (r: String)
        ensures
            r@ == "unknown call direction: "@ + self.0@,
    {
        concat2("unknown call direction: ", self.0.as_str())
    }
}

impl CallDirection {
    /// Wire name of the variant.
    pub open spec fn spec_name(self) -> Seq<char> {
        match self {
            CallDirection::Inbound => "inbound"@,
            CallDirection::Outbound => "outbound"@,
        }
    }

    /// The variant whose wire name is exactly `s`.
    pub open spec fn from_name(s: Seq<char>) -> Option<CallDirection> {
        if s == "inbound"@ {
            Some(CallDirection::Inbound)
        } else if s == "outbound"@ {
            Some(CallDirection::Outbound)
        } else {
            None
        }
    }

    /// Wire name, as a static string.
    pub fn as_str(&self) -> (r: &'static str)
        ensures
            r@ == self.spec_name(),
    {
        match self {
            CallDirection::Inbound => "inbound",
            CallDirection::Outbound => "outbound",
        }
    }

    /// Wire name, as an owned string.
    pub fn to_string(&self) -> (r: String)
        ensures
            r@ == self.spec_name(),
    {
        self.as_str().to_owned()
    }

    /// Parses a wire name, compared after Unicode lowercasing.
    pub fn parse(s: &str) -> (r: Result<CallDirection, ParseCallDirectionError>)
        ensures
            match r {
                Ok(v) => CallDirection::from_name(unicode_lower(s@)) == Some(v),
                Err(e) => CallDirection::from_name(unicode_lower(s@)) is None && e.0@ == s@,
            },
            all_ascii(s@) ==> match r {
                Ok(v) => CallDirection::from_name(ascii_lower_seq(s@)) == Some(v),
                Err(_) => CallDirection::from_name(ascii_lower_seq(s@)) is None,
            },
    {
        let u = to_lowercase(s);
        let k = u.as_str();
        if str_eq(k, "inbound") {
            Ok(CallDirection::Inbound)
        } else if str_eq(k, "outbound") {
            Ok(CallDirection::Outbound)
        } else {
            Err(ParseCallDirectionError(s.to_owned()))
        }
    }
}

impl std::str::FromStr for CallDirection {
    type Err = ParseCallDirectionError;

    /// The same as [`CallDirection::parse`].
    fn from_str(s: &str) -> (r: Result<CallDirection, ParseCallDirectionError>)
        ensures
            match r {
                Ok(v) => CallDirection::from_name(unicode_lower(s@)) == Some(v),
                Err(e) => CallDirection::from_name(unicode_lower(s@)) is None && e.0@ == s@,
            },
            all_ascii(s@) ==> match r {
                Ok(v) => CallDirection::from_name(ascii_lower_seq(s@)) == Some(v),
                Err(_) => CallDirection::from_name(ascii_lower_seq(s@)) is None,
            },
    {
        CallDirection::parse(s)
    }
}

/// Every [`CallDirection`] reads back from its own wire name: the name is ASCII
/// and already lowercase, so parsing what `to_string` wrote gives the variant back.
pub proof fn lemma_call_direction_name_round_trip(e: CallDirection)
    ensures
        all_ascii(e.spec_name()),
        CallDirection::from_name(e.spec_name()) == Some(e),
        ascii_lower_seq(e.spec_name()) == e.spec_name(),
{
    reveal_strlit("inbound");
    reveal_strlit("outbound");
    assert(ascii_lower_seq(e.spec_name()) =~= e.spec_name());
    match e {
        CallDirection::Inbound => {
        },
        CallDirection::Outbound => {
            assert("outbound"@.len() != "inbound"@.len());
        },
    }
}
impl ChannelState {
    /// Integer value of the state in `switch_channel_state_t`.
    pub open spec fn spec_number(self) -> u8 {
        match self {
            ChannelState::CsNew => 0,
            ChannelState::CsInit => 1,
            ChannelState::CsRouting => 2,
            ChannelState::CsSoftExecute => 3,
            ChannelState::CsExecute => 4,
            ChannelState::CsExchangeMedia => 5,
            ChannelState::CsPark => 6,
            ChannelState::CsConsumeMedia => 7,
            ChannelState::CsHibernate => 8,
            ChannelState::CsReset => 9,
            ChannelState::CsHangup => 10,
            ChannelState::CsReporting => 11,
            ChannelState::CsDestroy => 12,
            ChannelState::CsNone => 13,
        }
    }

    /// Parse from the `Channel-State-Number` integer header value.
    pub fn from_number(n: u8) -> (r: Option<ChannelState>)
        ensures
            match r {
                Some(s) => s.spec_number() == n,
                None => n > 13,
            },
    {
        match n {
            0 => Some(ChannelState::CsNew),
            1 => Some(ChannelState::CsInit),
            2 => Some(ChannelState::CsRouting),
            3 => Some(ChannelState::CsSoftExecute),
            4 => Some(ChannelState::CsExecute),
            5 => Some(ChannelState::CsExchangeMedia),
            6 => Some(ChannelState::CsPark),
            7 => Some(ChannelState::CsConsumeMedia),
            8 => Some(ChannelState::CsHibernate),
            9 => Some(ChannelState::CsReset),
            10 => Some(ChannelState::CsHangup),
            11 => Some(ChannelState::CsReporting),
            12 => Some(ChannelState::CsDestroy),
            13 => Some(ChannelState::CsNone),
            _ => None,
        }
    }

    /// Integer discriminant matching `switch_channel_state_t`.
    pub fn as_number(&self) -> (n: u8)
        ensures
            n == self.spec_number(),
            n <= 13,
    {
        match self {
            ChannelState::CsNew => 0,
            ChannelState::CsInit => 1,
            ChannelState::CsRouting => 2,
            ChannelState::CsSoftExecute => 3,
            ChannelState::CsExecute => 4,
            ChannelState::CsExchangeMedia => 5,
            ChannelState::CsPark => 6,
            ChannelState::CsConsumeMedia => 7,
            ChannelState::CsHibernate => 8,
            ChannelState::CsReset => 9,
            ChannelState::CsHangup => 10,
            ChannelState::CsReporting => 11,
            ChannelState::CsDestroy => 12,
            ChannelState::CsNone => 13,
        }
    }
}

/// The number of a state reads back as that state, and every number a state
/// can have is below 14: `from_number` and `as_number` are inverse.
pub proof fn lemma_channel_state_number_round_trip(s: ChannelState, n: u8)
    ensures
        s.spec_number() <= 13,
        n <= 13 ==> exists|t: ChannelState| t.spec_number() == n,
        forall|t: ChannelState| t.spec_number() == s.spec_number() ==> t == s,
{
    if n <= 13 {
        let t = match n {
            0 => ChannelState::CsNew,
            1 => ChannelState::CsInit,
            2 => ChannelState::CsRouting,
            3 => ChannelState::CsSoftExecute,
            4 => ChannelState::CsExecute,
            5 => ChannelState::CsExchangeMedia,
            6 => ChannelState::CsPark,
            7 => ChannelState::CsConsumeMedia,
            8 => ChannelState::CsHibernate,
            9 => ChannelState::CsReset,
            10 => ChannelState::CsHangup,
            11 => ChannelState::CsReporting,
            12 => ChannelState::CsDestroy,
            _ => ChannelState::CsNone,
        };
        assert(t.spec_number() == n);
    }
}

/// Channel timing data from FreeSWITCH's `switch_channel_timetable_t`.
///
/// Timestamps are epoch microseconds. A value of `0` means the event never
/// occurred; `None` means the header was absent.
#[derive(Debug, Clone, Copy, PartialEq, Eq, Default)]
pub struct ChannelTimetable {
    /// When the caller profile was created.
    pub profile_created: Option<i64>,
    /// When the channel was created.
    pub created: Option<i64>,
    /// When the channel was answered.
    pub answered: Option<i64>,
    /// When early media (183) was received.
    pub progress: Option<i64>,
    /// When media-bearing early media arrived.
    pub progress_media: Option<i64>,
    /// When the channel hung up.
    pub hungup: Option<i64>,
    /// When the channel was transferred.
    pub transferred: Option<i64>,
    /// When the channel was resurrected.
    pub resurrected: Option<i64>,
    /// When the channel was bridged.
    pub bridged: Option<i64>,
    /// Timestamp of the last hold event.
    pub last_hold: Option<i64>,
    /// Accumulated hold time in microseconds.
    pub hold_accum: Option<i64>,
}

/// Error returned when a timetable header is present but not a valid `i64`.
#[derive(Debug, Clone, PartialEq, Eq)]
pub struct ParseTimetableError {
    /// Full header name (e.g. `Caller-Channel-Created-Time`).
    pub header: String,
    /// The unparseable value found in the header.
    pub value: String,
}

/// Number of timestamp fields in a timetable.
pub const TIMETABLE_FIELDS: usize = 11;

/// Header suffix of timetable field `i`, in field order.
pub open spec fn timetable_suffix(i: int) -> Seq<char> {
    if i == 0 {
        "Profile-Created-Time"@
    } else if i == 1 {
        "Channel-Created-Time"@
    } else if i == 2 {
        "Channel-Answered-Time"@
    } else if i == 3 {
        "Channel-Progress-Time"@
    } else if i == 4 {
        "Channel-Progress-Media-Time"@
    } else if i == 5 {
        "Channel-Hangup-Time"@
    } else if i == 6 {
        "Channel-Transfer-Time"@
    } else if i == 7 {
        "Channel-Resurrect-Time"@
    } else if i == 8 {
        "Channel-Bridged-Time"@
    } else if i == 9 {
        "Channel-Last-Hold"@
    } else {
        "Channel-Hold-Accum"@
    }
}

/// Full header name of timetable field `i`: `{prefix}-{suffix}`.
pub open spec fn timetable_header(prefix: Seq<char>, i: int) -> Seq<char> {
    prefix + "-"@ + timetable_suffix(i)
}

/// Whether raw value `v` is present but not an `i64`.
pub open spec fn is_bad_value(v: Option<Seq<char>>) -> bool {
    v matches Some(raw) && spec_parse_i64(raw) is None
}

/// The parsed value of a raw header value.
pub open spec fn parsed_value(v: Option<Seq<char>>) -> Option<i64> {
    match v {
        Some(raw) => spec_parse_i64(raw),
        None => None,
    }
}

impl ChannelTimetable {
    /// The fields, in header order.
    pub open spec fn fields(self) -> Seq<Option<i64>> {
        seq![
            self.profile_created,
            self.created,
            self.answered,
            self.progress,
            self.progress_media,
            self.hungup,
            self.transferred,
            self.resurrected,
            self.bridged,
            self.last_hold,
            self.hold_accum,
        ]
    }

    /// What a timetable built from raw values `vals` (one per field, in field
    /// order) is: the first value that is present and not an `i64` is an
    /// error naming its header; otherwise `None` when no value is present,
    /// and each field parsed from its value when one is.
    pub open spec fn spec_from_values(
        prefix: Seq<char>,
        vals: Seq<Option<Seq<char>>>,
        r: Result<Option<ChannelTimetable>, ParseTimetableError>,
    ) -> bool {
        match r {
            Err(e) => exists|i: int|
                0 <= i < 11 && is_bad_value(vals[i]) && (forall|j: int|
                    0 <= j < i ==> !is_bad_value(#[trigger] vals[j])) && e.header@
                    == timetable_header(prefix, i) && Some(e.value@) == vals[i],
            Ok(None) => forall|i: int| 0 <= i < 11 ==> vals[i] is None,
            Ok(Some(tt)) => (forall|i: int| 0 <= i < 11 ==> !is_bad_value(#[trigger] vals[i])) && (
            exists|i: int| 0 <= i < 11 && vals[i] is Some) && forall|i: int|
                0 <= i < 11 ==> tt.fields()[i] == parsed_value(#[trigger] vals[i]),
        }
    }

    /// Builds a timetable from what `lookup` finds under each of the eleven
    /// header names `{prefix}-{suffix}`, in field order (see
    /// [`ChannelTimetable::from_values`]); it stops asking at the first value
    /// that is not an `i64`.
    pub fn from_lookup<F: Fn(&str) -> Option<String>>(prefix: &str, lookup: F) -> (r: Result<
        Option<ChannelTimetable>,
        ParseTimetableError,
    >)
        requires
            forall|k: &str| #[trigger] lookup.requires((k,)),
        ensures
            exists|vals: Seq<Option<String>>, n: int|
                #[trigger] lookup_run(lookup, prefix@, vals, n) && (r is Ok ==> n == 11)
                    && ChannelTimetable::spec_from_values(
                    prefix@,
                    vals.map_values(|v: Option<String>| opt_view(v)),
                    r,
                ),
    {
        let mut vals: Vec<Option<String>> = Vec::new();
        let mut i: usize = 0;
        while i < 11
            invariant
                i <= 11,
                vals.len() == i,
                forall|k: &str| #[trigger] lookup.requires((k,)),
                forall|j: int|
                    0 <= j < i ==> #[trigger] looked_up(lookup, timetable_header(prefix@, j), vals@[j]),
            decreases 11 - i,
        {
            let h = timetable_header_name(prefix, i);
            let hs = h.as_str();
            let v = lookup(hs);
            let bad = match &v {
                Some(x) => parse_i64(x.as_str()).is_none(),
                None => false,
            };
            let ghost before = vals@;
            vals.push(v);
            proof {
                assert forall|j: int| 0 <= j < i + 1 implies #[trigger] looked_up(
                    lookup,
                    timetable_header(prefix@, j),
                    vals@[j],
                ) by {
                    if j < i {
                        assert(vals@[j] == before[j]);
                    } else {
                        assert(lookup.ensures((hs,), vals@[j]));
                    }
                }
            }
            i += 1;
            if bad {
                let ghost n = i as int;
                while vals.len() < 11
                    invariant
                        1 <= n <= vals.len() <= 11,
                        forall|j: int| 0 <= j < n ==> #[trigger] looked_up(lookup, timetable_header(prefix@, j), vals@[j]),
                        forall|j: int| n <= j < vals.len() ==> #[trigger] vals@[j] is None,
                        is_bad_value(opt_view(vals@[n - 1])),
                    decreases 11 - vals.len(),
                {
                    let ghost before = vals@;
                    vals.push(None);
                    proof {
                        assert(vals@ == before.push(None));
                        assert(vals@[n - 1] == before[n - 1]);
                        assert forall|j: int| n <= j < vals.len() implies #[trigger] vals@[j] is None by {
                            if j < before.len() {
                                assert(vals@[j] == before[j]);
                            }
                        }
                        assert forall|j: int| 0 <= j < n implies #[trigger] looked_up(
                            lookup,
                            timetable_header(prefix@, j),
                            vals@[j],
                        ) by {
                            assert(vals@[j] == before[j]);
                        }
                    }
                }
                let r = ChannelTimetable::from_values(prefix, &vals);
                proof {
                    let vv = vals@.map_values(|v: Option<String>| opt_view(v));
                    assert(is_bad_value(vv[n - 1]));
                    assert(r is Err) by {
                        if r is Ok {
                            assert(!is_bad_value(vv[n - 1]));
                        }
                    }
                    assert(vals@.len() == 11);
                    assert(lookup_run(lookup, prefix@, vals@, n));
                }
                return r;
            }
        }
        let r = ChannelTimetable::from_values(prefix, &vals);
        proof {
            assert(lookup_run(lookup, prefix@, vals@, 11));
        }
        r
    }

    /// Builds a timetable from the raw values of its eleven headers, given in
    /// field order (see [`timetable_header`]).
    pub fn from_values(prefix: &str, vals: &Vec<Option<String>>) -> (r: Result<
        Option<ChannelTimetable>,
        ParseTimetableError,
    >)
        requires
            vals.len() == 11,
        ensures
            ChannelTimetable::spec_from_values(
                prefix@,
                vals@.map_values(|v: Option<String>| opt_view(v)),
                r,
            ),
    {
        let ghost vv = vals@.map_values(|v: Option<String>| opt_view(v));
        let mut out: Vec<Option<i64>> = Vec::new();
        let mut found = false;
        let mut i: usize = 0;
        while i < 11
            invariant
                vals.len() == 11,
                vv == vals@.map_values(|v: Option<String>| opt_view(v)),
                i <= 11,
                out.len() == i,
                forall|j: int| 0 <= j < i ==> !is_bad_value(#[trigger] vv[j]),
                forall|j: int| 0 <= j < i ==> out@[j] == parsed_value(#[trigger] vv[j]),
                found <==> exists|j: int| 0 <= j < i && vv[j] is Some,
            decreases 11 - i,
        {
            match &vals[i] {
                Some(raw) => {
                    match parse_i64(raw.as_str()) {
                        Some(v) => {
                            out.push(Some(v));
                            found = true;
                        },
                        None => {
                            let header = timetable_header_name(prefix, i);
                            assert(is_bad_value(vv[i as int]));
                            return Err(ParseTimetableError { header, value: raw.clone() });
                        },
                    }
                },
                None => {
                    out.push(None);
                },
            }
            i += 1;
        }
        if !found {
            return Ok(None);
        }
        let tt = ChannelTimetable {
            profile_created: out[0],
            created: out[1],
            answered: out[2],
            progress: out[3],
            progress_media: out[4],
            hungup: out[5],
            transferred: out[6],
            resurrected: out[7],
            bridged: out[8],
            last_hold: out[9],
            hold_accum: out[10],
        };
        assert forall|j: int| 0 <= j < 11 implies tt.fields()[j] == parsed_value(#[trigger] vv[j]) by {
            assert(tt.fields()[j] == out@[j]);
        }
        Ok(Some(tt))
    }
}

/// The view of an optional string.
pub open spec fn opt_view(v: Option<String>) -> Option<Seq<char>> {
    match v {
        Some(s) => Some(s@),
        None => None,
    }
}

/// Header suffix of timetable field `i`.
pub fn timetable_suffix_str(i: usize) -> (r: &'static str)
    requires
        i < 11,
    ensures
        r@ == timetable_suffix(i as int),
{
    if i == 0 {
        "Profile-Created-Time"
    } else if i == 1 {
        "Channel-Created-Time"
    } else if i == 2 {
        "Channel-Answered-Time"
    } else if i == 3 {
        "Channel-Progress-Time"
    } else if i == 4 {
        "Channel-Progress-Media-Time"
    } else if i == 5 {
        "Channel-Hangup-Time"
    } else if i == 6 {
        "Channel-Transfer-Time"
    } else if i == 7 {
        "Channel-Resurrect-Time"
    } else if i == 8 {
        "Channel-Bridged-Time"
    } else if i == 9 {
        "Channel-Last-Hold"
    } else {
        "Channel-Hold-Accum"
    }
}

/// `vals` are the values of the eleven timetable headers when `lookup` was
/// asked for the first `n` of them (in field order) and not for the rest.
pub open spec fn lookup_run<F: Fn(&str) -> Option<String>>(
    lookup: F,
    prefix: Seq<char>,
    vals: Seq<Option<String>>,
    n: int,
) -> bool {
    &&& vals.len() == 11
    &&& 0 <= n <= 11
    &&& forall|i: int| 0 <= i < n ==> #[trigger] looked_up(lookup, timetable_header(prefix, i), vals[i])
    &&& forall|i: int| n <= i < 11 ==> #[trigger] vals[i] is None
}

/// `v` is a value that `lookup` can give back for the header named `name`.
pub open spec fn looked_up<F: Fn(&str) -> Option<String>>(
    lookup: F,
    name: Seq<char>,
    v: Option<String>,
) -> bool {
    exists|k: &str| k@ == name && #[trigger] lookup.ensures((k,), v)
}

/// Full header name of timetable field `i`.
pub fn timetable_header_name(prefix: &str, i: usize) -> (r: String)
    requires
        i < 11,
    ensures
        r@ == timetable_header(prefix@, i as int),
{
    concat3(prefix, "-", timetable_suffix_str(i))
}

} // verus!
