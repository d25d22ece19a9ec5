//! Builders for `uuid_*` API commands that target a specific channel by UUID.

use crate::text::{concat2, owned, push_str};
use vstd::prelude::*;

verus! {

broadcast use vstd::string::group_string_axioms;

/// Answer a channel: `uuid_answer <uuid>`.
#[derive(Debug, Clone, PartialEq, Eq)]
pub struct UuidAnswer {
    /// Channel UUID.
    pub uuid: String,
}

impl UuidAnswer {
    /// Create a new uuid_answer command.
    pub fn new(uuid: &str) -> (r: UuidAnswer)
        ensures
            r.uuid@ == uuid@,
    {
        UuidAnswer { uuid: owned(uuid) }
    }

    /// The command text: `uuid_answer ...`.
    pub fn to_string(&self) -> (r: String)
        ensures
            r@ == "uuid_answer "@ + self.uuid@,
    {
        let mut r = concat2("uuid_answer ", self.uuid.as_str());

        r
    }
}
/// Bridge two channels: `uuid_bridge <uuid> <other_uuid>`.
#[derive(Debug, Clone, PartialEq, Eq)]
pub struct UuidBridge {
    /// Channel UUID.
    pub uuid: String,
    /// UUID of the channel to bridge to.
    pub other: String,
}

impl UuidBridge {
    /// Create a new uuid_bridge command.
    pub fn new(uuid: &str, other: &str) -> (r: UuidBridge)
        ensures
            r.uuid@ == uuid@,
            r.other@ == other@,
    {
        UuidBridge { uuid: owned(uuid), other: owned(other) }
    }

    /// The command text: `uuid_bridge ...`.
    pub fn to_string(&self) -> (r: String)
        ensures
            r@ == "uuid_bridge "@ + self.uuid@ + " "@ + self.other@,
    {
        let mut r = concat2("uuid_bridge ", self.uuid.as_str());
        push_str(&mut r, " ");
        push_str(&mut r, self.other.as_str());
        r
    }
}
/// Deflect (redirect) a channel to a new SIP URI with a SIP REFER: `uuid_deflect <uuid> <uri>`.
#[derive(Debug, Clone, PartialEq, Eq)]
pub struct UuidDeflect {
    /// Channel UUID.
    pub uuid: String,
    /// SIP URI to redirect to (e.g. `sip:user@host`).
    pub uri: String,
}

impl UuidDeflect {
    /// Create a new uuid_deflect command.
    pub fn new(uuid: &str, uri: &str) -> (r: UuidDeflect)
        ensures
            r.uuid@ == uuid@,
            r.uri@ == uri@,
    {
        UuidDeflect { uuid: owned(uuid), uri: owned(uri) }
    }

    /// The command text: `uuid_deflect ...`.
    pub fn to_string(&self) -> (r: String)
        ensures
            r@ == "uuid_deflect "@ + self.uuid@ + " "@ + self.uri@,
    {
        let mut r = concat2("uuid_deflect ", self.uuid.as_str());
        push_str(&mut r, " ");
        push_str(&mut r, self.uri.as_str());
        r
    }
}
/// Get a channel variable: `uuid_getvar <uuid> <key>`. FreeSWITCH answers with the bare value, which classifies as `ReplyStatus::Other`.
#[derive(Debug, Clone, PartialEq, Eq)]
pub struct UuidGetVar {
    /// Channel UUID.
    pub uuid: String,
    /// Variable name to read.
    pub key: String,
}

impl UuidGetVar {
    /// Create a new uuid_getvar command.
    pub fn new(uuid: &str, key: &str) -> (r: UuidGetVar)
        ensures
            r.uuid@ == uuid@,
            r.key@ == key@,
    {
        UuidGetVar { uuid: owned(uuid), key: owned(key) }
    }

    /// The command text: `uuid_getvar ...`.
    pub fn to_string(&self) -> (r: String)
        ensures
            r@ == "uuid_getvar "@ + self.uuid@ + " "@ + self.key@,
    {
        let mut r = concat2("uuid_getvar ", self.uuid.as_str());
        push_str(&mut r, " ");
        push_str(&mut r, self.key.as_str());
        r
    }
}
/// Set a channel variable: `uuid_setvar <uuid> <key> <value>`.
#[derive(Debug, Clone, PartialEq, Eq)]
pub struct UuidSetVar {
    /// Channel UUID.
    pub uuid: String,
    /// Variable name to set.
    pub key: String,
    /// Variable value.
    pub value: String,
}

impl UuidSetVar {
    /// Create a new uuid_setvar command.
    pub fn new(uuid: &str, key: &str, value: &str) -> (r: UuidSetVar)
        ensures
            r.uuid@ == uuid@,
            r.key@ == key@,
            r.value@ == value@,
    {
        UuidSetVar { uuid: owned(uuid), key: owned(key), value: owned(value) }
    }

    /// The command text: `uuid_setvar ...`.
    pub fn to_string(&self) -> (r: String)
        ensures
            r@ == "uuid_setvar "@ + self.uuid@ + " "@ + self.key@ + " "@ + self.value@,
    {
        let mut r = concat2("uuid_setvar ", self.uuid.as_str());
        push_str(&mut r, " ");
        push_str(&mut r, self.key.as_str());
        push_str(&mut r, " ");
        push_str(&mut r, self.value.as_str());
        r
    }
}
/// Send DTMF digits to a channel: `uuid_send_dtmf <uuid> <digits>`.
#[derive(Debug, Clone, PartialEq, Eq)]
pub struct UuidSendDtmf {
    /// Channel UUID.
    pub uuid: String,
    /// DTMF digit string (e.g. `"1234#"`).
    pub dtmf: String,
}

impl UuidSendDtmf {
    /// Create a new uuid_send_dtmf command.
    pub fn new(uuid: &str, dtmf: &str) -> (r: UuidSendDtmf)
        ensures
            r.uuid@ == uuid@,
            r.dtmf@ == dtmf@,
    {
        UuidSendDtmf { uuid: owned(uuid), dtmf: owned(dtmf) }
    }

    /// The command text: `uuid_send_dtmf ...`.
    pub fn to_string(&self) -> (r: String)
        ensures
            r@ == "uuid_send_dtmf "@ + self.uuid@ + " "@ + self.dtmf@,
    {
        let mut r = concat2("uuid_send_dtmf ", self.uuid.as_str());
        push_str(&mut r, " ");
        push_str(&mut r, self.dtmf.as_str());
        r
    }
}

/// Place a channel on hold or take it off hold: `uuid_hold [off] <uuid>`.
#[derive(Debug, Clone, PartialEq, Eq)]
pub struct UuidHold {
    /// Channel UUID.
    pub uuid: String,
    /// `true` = take off hold; `false` = place on hold.
    pub off: bool,
}

impl UuidHold {
    /// Place a channel on hold.
    pub fn hold(uuid: &str) -> (r: UuidHold)
        ensures
            r.uuid@ == uuid@,
            !r.off,
    {
        UuidHold { uuid: owned(uuid), off: false }
    }

    /// Take a channel off hold.
    pub fn unhold(uuid: &str) -> (r: UuidHold)
        ensures
            r.uuid@ == uuid@,
            r.off,
    {
        UuidHold { uuid: owned(uuid), off: true }
    }

    /// The command text: `uuid_hold [off] <uuid>`.
    pub fn to_string(&self) -> (r: String)
        ensures
            r@ == if self.off {
                "uuid_hold off "@ + self.uuid@
            } else {
                "uuid_hold "@ + self.uuid@
            },
    {
        if self.off {
            concat2("uuid_hold off ", self.uuid.as_str())
        } else {
            concat2("uuid_hold ", self.uuid.as_str())
        }
    }
}

/// Kill a channel: `uuid_kill <uuid> [cause]`.
#[derive(Debug, Clone, PartialEq, Eq)]
pub struct UuidKill {
    /// Channel UUID.
    pub uuid: String,
    /// Hangup cause string (e.g. `NORMAL_CLEARING`); FreeSWITCH's default when `None`.
    pub cause: Option<String>,
}

impl UuidKill {
    /// Kill a channel with the default hangup cause.
    pub fn new(uuid: &str) -> (r: UuidKill)
        ensures
            r.uuid@ == uuid@,
            r.cause is None,
    {
        UuidKill { uuid: owned(uuid), cause: None }
    }

    /// Kill a channel with a specific hangup cause.
    pub fn with_cause(uuid: &str, cause: &str) -> (r: UuidKill)
        ensures
            r.uuid@ == uuid@,
            r.cause matches Some(c) && c@ == cause@,
    {
        UuidKill { uuid: owned(uuid), cause: Some(owned(cause)) }
    }

    /// The command text: `uuid_kill <uuid> [cause]`.
    pub fn to_string(&self) -> (r: String)
        ensures
            r@ == "uuid_kill "@ + self.uuid@ + match self.cause {
                Some(c) => " "@ + c@,
                None => Seq::empty(),
            },
    {
        let mut r = concat2("uuid_kill ", self.uuid.as_str());
        match &self.cause {
            Some(c) => {
                push_str(&mut r, " ");
                push_str(&mut r, c.as_str());
            },
            None => {},
        }
        r
    }
}

/// Transfer a channel to a new destination: `uuid_transfer <uuid> <dest> [dialplan]`.
#[derive(Debug, Clone, PartialEq, Eq)]
pub struct UuidTransfer {
    /// Channel UUID.
    pub uuid: String,
    /// Destination extension or dial string.
    pub destination: String,
    /// Dialplan to use (e.g. `"XML"`); the channel's current one when `None`.
    pub dialplan: Option<String>,
}

impl UuidTransfer {
    /// Transfer a channel to a new destination.
    pub fn new(uuid: &str, destination: &str) -> (r: UuidTransfer)
        ensures
            r.uuid@ == uuid@,
            r.destination@ == destination@,
            r.dialplan is None,
    {
        UuidTransfer { uuid: owned(uuid), destination: owned(destination), dialplan: None }
    }

    /// Set the dialplan to use for the transfer.
    pub fn with_dialplan(self, dialplan: &str) -> (r: UuidTransfer)
        ensures
            r.uuid == self.uuid,
            r.destination == self.destination,
            r.dialplan matches Some(d) && d@ == dialplan@,
    {
        UuidTransfer { dialplan: Some(owned(dialplan)), ..self }
    }

    /// The command text: `uuid_transfer <uuid> <dest> [dialplan]`.
    pub fn to_string(&self) -> (r: String)
        ensures
            r@ == "uuid_transfer "@ + self.uuid@ + " "@ + self.destination@ + match self.dialplan {
                Some(d) => " "@ + d@,
                None => Seq::empty(),
            },
    {
        let mut r = concat2("uuid_transfer ", self.uuid.as_str());
        push_str(&mut r, " ");
        push_str(&mut r, self.destination.as_str());
        match &self.dialplan {
            Some(d) => {
                push_str(&mut r, " ");
                push_str(&mut r, d.as_str());
            },
            None => {},
        }
        r
    }
}

} // verus!
