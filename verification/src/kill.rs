//! Signalling the process behind a port.
//!
//! [`Killer`] is the seam: the real killer sends a signal to the OS; tests
//! substitute a fake that records calls instead of killing.

use vstd::prelude::*;

use crate::error::WhatportError;

verus! {

/// The signal to send when freeing a port.
#[derive(Debug, Clone, Copy, PartialEq, Eq, Structural)]
pub enum Signal {
    /// Graceful termination (SIGTERM). The default.
    Term,
    /// Forceful kill (SIGKILL).
    Kill,
}

/// The short name of a signal (`TERM`, `KILL`).
pub open spec fn signal_name(s: Signal) -> Seq<char> {
    match s {
        Signal::Term => "TERM"@,
        Signal::Kill => "KILL"@,
    }
}

impl Signal {
    pub fn as_str(self) -> (r: &'static str)
        ensures
            r@ == signal_name(self),
            self == Signal::Term ==> r@ == "TERM"@,
            self == Signal::Kill ==> r@ == "KILL"@,
    {
        match self {
            Signal::Term => "TERM",
            Signal::Kill => "KILL",
        }
    }
}

/// Sends a signal to a process by pid.
pub trait Killer {
    /// Whether `r` is an answer this signaller gives when asked to send `signal` to
    /// `pid`. A signaller that says nothing of its answers may give any.
    closed spec fn answers(&self, pid: u32, signal: Signal, r: Result<(), WhatportError>) -> bool {
        true
    }

    /// Sends `signal` to `pid`; the result is the signaller's answer to exactly
    /// that request.
    fn kill(&self, pid: u32, signal: Signal) -> (r: Result<(), WhatportError>)
        ensures
            self.answers(pid, signal, r),
    ;
}


/// The next step of signalling a process through the OS.
#[derive(Debug)]
pub enum KillStep {
    /// Signalling is over, with this outcome.
    Done(Result<(), WhatportError>),
    /// The platform does not support the requested signal: send a plain kill.
    SendKill,
}

/// Whether `e` is a `KillFailed` for `pid` with `message`.
pub open spec fn kill_failed(e: WhatportError, pid: u32, message: Seq<char>) -> bool {
    e matches WhatportError::KillFailed { pid: p, message: m } && p == pid && m@ == message
}

/// The error for a pid that the process table does not hold.
pub fn process_missing(pid: u32) -> (e: WhatportError)
    ensures
        kill_failed(e, pid, "process not found"@),
{
    WhatportError::KillFailed { pid, message: String::from_str("process not found") }
}

/// What follows the OS's answer to a signal: `Some(true)` delivered,
/// `Some(false)` rejected, `None` not supported on this platform.
pub fn after_signal(pid: u32, delivered: Option<bool>) -> (r: KillStep)
    ensures
        delivered == Some(true) ==> r == KillStep::Done(Ok(())),
        delivered == Some(false) ==> (r matches KillStep::Done(Err(e)) && kill_failed(
            e,
            pid,
            "the OS rejected the signal"@,
        )),
        delivered is None ==> r is SendKill,
        r is SendKill <==> delivered is None,
        r == KillStep::Done(Ok(())) <==> delivered == Some(true),
{
    match delivered {
        Some(true) => KillStep::Done(Ok(())),
        Some(false) => KillStep::Done(
            Err(
                WhatportError::KillFailed {
                    pid,
                    message: String::from_str("the OS rejected the signal"),
                },
            ),
        ),
        None => KillStep::SendKill,
    }
}

/// The outcome once the fallback kill was sent.
pub fn after_fallback(pid: u32, killed: bool) -> (r: Result<(), WhatportError>)
    ensures
        killed ==> r is Ok,
        !killed ==> r is Err && kill_failed(r->Err_0, pid, "signal not supported on this platform"@),
{
    if killed {
        Ok(())
    } else {
        Err(
            WhatportError::KillFailed {
                pid,
                message: String::from_str("signal not supported on this platform"),
            },
        )
    }
}

} // verus!
