//! FreeSWITCH dptools application commands (`answer`, `hangup`, `playback`,
//! ...), each a `sendmsg`/`execute` command with no channel UUID set.

use crate::command::EslCommand;
use crate::commands::originate::DialplanType;
use crate::text::{concat3, owned, push_str};
use vstd::prelude::*;

verus! {

broadcast use vstd::string::group_string_axioms;

/// `c` executes application `app` with arguments `args` on the channel the
/// connection controls.
pub open spec fn executes(c: EslCommand, app: Seq<char>, args: Option<Seq<char>>) -> bool {
    c matches EslCommand::Execute { app: a, args: g, uuid: u } && a@ == app && crate::channel::opt_view(g)
        == args && u is None
}

/// An `execute` command for `app` with optional arguments.
fn execute(app: &str, args: Option<String>) -> (r: EslCommand)
    ensures
        executes(r, app@, crate::channel::opt_view(args)),
{
    EslCommand::Execute { app: owned(app), args, uuid: None }
}

/// The arguments of `transfer`: `extension [dialplan [context]]`, the
/// dialplan filled with `XML` when only a context is given.
pub open spec fn transfer_args(extension: Seq<char>, dialplan: Option<DialplanType>, context: Option<Seq<char>>) -> Seq<char> {
    extension + match dialplan {
        Some(d) => " "@ + d.spec_name(),
        None => if context is Some {
            " XML"@
        } else {
            Seq::empty()
        },
    } + match context {
        Some(c) => " "@ + c,
        None => Seq::empty(),
    }
}

/// Constructors for common dptools application commands.
pub struct AppCommand;

impl AppCommand {
    /// Answer the channel.
    pub fn answer() -> (r: EslCommand)
        ensures
            executes(r, "answer"@, None),
    {
        execute("answer", None)
    }

    /// Hang up the channel with an optional cause code.
    pub fn hangup(cause: Option<&str>) -> (r: EslCommand)
        ensures
            executes(r, "hangup"@, crate::event::opt_str_view(cause)),
    {
        let args = match cause {
            Some(c) => Some(owned(c)),
            None => None,
        };
        execute("hangup", args)
    }

    /// Play a file (a path, `tone_stream://`, or any file-like URI).
    pub fn playback(file: &str) -> (r: EslCommand)
        ensures
            executes(r, "playback"@, Some(file@)),
    {
        execute("playback", Some(owned(file)))
    }

    /// Bridge to the dial string `destination`.
    pub fn bridge(destination: &str) -> (r: EslCommand)
        ensures
            executes(r, "bridge"@, Some(destination@)),
    {
        execute("bridge", Some(owned(destination)))
    }

    /// Set a channel variable (`set` application, `name=value`).
    pub fn set_var(name: &str, value: &str) -> (r: EslCommand)
        ensures
            executes(r, "set"@, Some(name@ + "="@ + value@)),
    {
        execute("set", Some(concat3(name, "=", value)))
    }

    /// Park the channel.
    pub fn park() -> (r: EslCommand)
        ensures
            executes(r, "park"@, None),
    {
        execute("park", None)
    }

    /// Transfer the channel to another dialplan extension.
    pub fn transfer(extension: &str, dialplan: Option<DialplanType>, context: Option<&str>) -> (r: EslCommand)
        ensures
            executes(r, "transfer"@, Some(transfer_args(extension@, dialplan, crate::event::opt_str_view(context)))),
    {
        let mut args = owned(extension);
        match dialplan {
            Some(dp) => {
                push_str(&mut args, " ");
                let t = dp.to_string();
                push_str(&mut args, t.as_str());
            },
            None => {
                if context.is_some() {
                    push_str(&mut args, " XML");
                }
            },
        }
        match context {
            Some(c) => {
                push_str(&mut args, " ");
                push_str(&mut args, c);
            },
            None => {},
        }
        assert(args@ =~= transfer_args(extension@, dialplan, crate::event::opt_str_view(context)));
        execute("transfer", Some(args))
    }
}

} // verus!
