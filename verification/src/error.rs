//! Error type, the stable error `kind` set, and the exit-code contract.
//!
//! Exit codes:
//! - `1` no listener on the queried port
//! - `2` a system probe or kill failure
//! - `3` usage error (bad arguments)

use vstd::prelude::*;

use crate::text::{decimal, dec};

verus! {

/// All failure modes of a whatport run.
#[derive(Debug, Clone, PartialEq, Eq)]
pub enum WhatportError {
    /// Invalid command-line arguments.
    Usage { message: String },
    /// Nothing is listening on the queried port.
    NoListener { port: u16, proto: Option<&'static str> },
    /// The OS socket/process tables could not be read.
    System { message: String },
    /// A process could not be signalled.
    KillFailed { pid: u32, message: String },
}

/// The stable snake_case identifier of an error.
pub open spec fn kind_of(e: WhatportError) -> Seq<char> {
    match e {
        WhatportError::Usage { .. } => "usage"@,
        WhatportError::NoListener { .. } => "no_listener"@,
        WhatportError::System { .. } => "system"@,
        WhatportError::KillFailed { .. } => "kill_failed"@,
    }
}

/// The remediation hint of an error, where there is one.
pub open spec fn hint_of(e: WhatportError) -> Option<Seq<char>> {
    match e {
        WhatportError::Usage { .. } => Some("see `whatport --help` or `whatport schema`"@),
        WhatportError::NoListener { .. } => Some("run `whatport list` to see all listeners"@),
        WhatportError::KillFailed { .. } => Some(
            "the process may have already exited, or need elevated privileges"@,
        ),
        WhatportError::System { .. } => None,
    }
}

/// The process exit code of an error.
pub open spec fn exit_code_of(e: WhatportError) -> i32 {
    match e {
        WhatportError::NoListener { .. } => 1,
        WhatportError::System { .. } | WhatportError::KillFailed { .. } => 2,
        WhatportError::Usage { .. } => 3,
    }
}

/// `/tcp` for a protocol label `tcp`, nothing without one.
pub open spec fn suffix_of(proto: Option<&'static str>) -> Seq<char> {
    match proto {
        Some(p) => "/"@ + p@,
        None => Seq::empty(),
    }
}

/// The human-readable message of an error.
pub open spec fn message_of(e: WhatportError) -> Seq<char> {
    match e {
        WhatportError::Usage { message } => message@,
        WhatportError::NoListener { port, proto } => "nothing is listening on port "@ + dec(
            port as nat,
        ) + suffix_of(proto),
        WhatportError::System { message } => "could not read system socket table: "@ + message@,
        WhatportError::KillFailed { pid, message } => "could not signal pid "@ + dec(pid as nat)
            + ": "@ + message@,
    }
}

fn proto_suffix(proto: &Option<&'static str>) -> (r: String)
    ensures
        r@ == suffix_of(*proto),
{
    match proto {
        Some(p) => {
            let mut s = String::from_str("/");
            s.append(p);
            s
        },
        None => String::new(),
    }
}

/// Exit codes by kind: nothing listening is 1, an unreadable table or a failed
/// signal is 2, a usage error is 3; and every kind but `system` comes with a hint.
pub proof fn lemma_exit_codes(e: WhatportError)
    ensures
        e is NoListener ==> exit_code_of(e) == 1,
        (e is System || e is KillFailed) ==> exit_code_of(e) == 2,
        e is Usage ==> exit_code_of(e) == 3,
        1 <= exit_code_of(e) <= 3,
        hint_of(e) is None <==> e is System,
{
}

/// Each message names its subject: a port nobody listens on ends the message, with
/// the filter's protocol after a slash when there is one; a failed signal names the
/// pid and ends with the signaller's own message; a system error ends with its cause.
pub proof fn lemma_messages_name_their_subject(e: WhatportError)
    ensures
        e matches WhatportError::NoListener { port, proto } ==> message_of(e)
            == "nothing is listening on port "@ + dec(port as nat) + match proto {
            Some(p) => seq!['/'] + p@,
            None => Seq::empty(),
        },
        e matches WhatportError::KillFailed { pid, message } ==> message_of(e)
            == "could not signal pid "@ + dec(pid as nat) + seq![':', ' '] + message@,
        e matches WhatportError::System { message } ==> message_of(e).subrange(
            message_of(e).len() - message@.len(),
            message_of(e).len() as int,
        ) == message@,
        e matches WhatportError::Usage { message } ==> message_of(e) == message@,
{
    reveal_strlit("/");
    reveal_strlit(": ");
    match e {
        WhatportError::NoListener { port, proto } => {
            match proto {
                Some(p) => {
                    assert("/"@ =~= seq!['/']);
                },
                None => {
                    assert(message_of(e) =~= "nothing is listening on port "@ + dec(port as nat)
                        + Seq::<char>::empty());
                },
            }
        },
        WhatportError::KillFailed { pid, message } => {
            assert(": "@ =~= seq![':', ' ']);
        },
        WhatportError::System { message } => {
            let m = message_of(e);
            assert(m.subrange(m.len() - message@.len(), m.len() as int) =~= message@);
        },
        _ => {},
    }
}

impl WhatportError {
    /// Stable snake_case identifier consumers branch on.
    pub fn kind(&self) -> (r: &'static str)
        ensures
            r@ == kind_of(*self),
    {
        match self {
            WhatportError::Usage { .. } => "usage",
            WhatportError::NoListener { .. } => "no_listener",
            WhatportError::System { .. } => "system",
            WhatportError::KillFailed { .. } => "kill_failed",
        }
    }

    /// Actionable remediation, when there is one.
    pub fn hint(&self) -> (r: Option<&'static str>)
        ensures
            r is Some == hint_of(*self) is Some,
            r is Some ==> r->0@ == hint_of(*self)->0,
    {
        match self {
            WhatportError::Usage { .. } => Some("see `whatport --help` or `whatport schema`"),
            WhatportError::NoListener { .. } => Some("run `whatport list` to see all listeners"),
            WhatportError::KillFailed { .. } => Some(
                "the process may have already exited, or need elevated privileges",
            ),
            WhatportError::System { .. } => None,
        }
    }

    /// The process exit code associated with this error.
    pub fn exit_code(&self) -> (r: i32)
        ensures
            r == exit_code_of(*self),
    {
        match self {
            WhatportError::NoListener { .. } => 1,
            WhatportError::System { .. } | WhatportError::KillFailed { .. } => 2,
            WhatportError::Usage { .. } => 3,
        }
    }

    /// The human-readable message of this error.
    pub fn message(&self) -> (r: String)
        ensures
            r@ == message_of(*self),
    {
        match self {
            WhatportError::Usage { message } => message.clone(),
            WhatportError::NoListener { port, proto } => {
                let mut s = String::from_str("nothing is listening on port ");
                let n = decimal(*port as u64);
                s.append(n.as_str());
                let suffix = proto_suffix(proto);
                s.append(suffix.as_str());
                s
            },
            WhatportError::System { message } => {
                let mut s = String::from_str("could not read system socket table: ");
                s.append(message.as_str());
                s
            },
            WhatportError::KillFailed { pid, message } => {
                let mut s = String::from_str("could not signal pid ");
                let n = decimal(*pid as u64);
                s.append(n.as_str());
                s.append(": ");
                s.append(message.as_str());
                s
            },
        }
    }
}

} // verus!
