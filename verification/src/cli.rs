//! The decisions of the command line: what an invocation asks for, which format
//! output takes, and the error envelope written to stderr.

use vstd::prelude::*;

use crate::error::{exit_code_of, hint_of, kind_of, message_of, WhatportError};
use crate::json::{json_quote, json_str};
use crate::kill::Signal;
use crate::text::{dec, decimal, ends_with, starts_with};
use crate::{Action, OutputFormat, Query};

verus! {

/// The `--output` choice.
#[derive(Debug, Clone, Copy, PartialEq, Eq, Structural)]
pub enum OutputChoice {
    /// Text on a terminal, JSON when piped.
    Auto,
    Json,
    Text,
}

/// The format an output choice resolves to, given whether stdout is a terminal.
pub open spec fn resolve_spec(choice: OutputChoice, stdout_is_terminal: bool) -> OutputFormat {
    match choice {
        OutputChoice::Json => OutputFormat::Json,
        OutputChoice::Text => OutputFormat::Table,
        OutputChoice::Auto => if stdout_is_terminal {
            OutputFormat::Table
        } else {
            OutputFormat::Json
        },
    }
}

/// An explicit `--output` ignores the terminal: `json` is always JSON and `text`
/// always a table; only `auto` looks at stdout, giving a table on a terminal and JSON
/// when piped.
pub proof fn lemma_explicit_output_ignores_terminal(t: bool, u: bool)
    ensures
        resolve_spec(OutputChoice::Json, t) == OutputFormat::Json,
        resolve_spec(OutputChoice::Text, t) == OutputFormat::Table,
        resolve_spec(OutputChoice::Json, t) == resolve_spec(OutputChoice::Json, u),
        resolve_spec(OutputChoice::Text, t) == resolve_spec(OutputChoice::Text, u),
        resolve_spec(OutputChoice::Auto, true) == OutputFormat::Table,
        resolve_spec(OutputChoice::Auto, false) == OutputFormat::Json,
{
}

/// Resolves an output choice: `auto` is a table on a terminal and JSON otherwise.
pub fn resolve_format(choice: OutputChoice, stdout_is_terminal: bool) -> (r: OutputFormat)
    ensures
        r == resolve_spec(choice, stdout_is_terminal),
        choice == OutputChoice::Json ==> r == OutputFormat::Json,
        choice == OutputChoice::Text ==> r == OutputFormat::Table,
        choice == OutputChoice::Auto ==> (r == OutputFormat::Table <==> stdout_is_terminal),
{
    match choice {
        OutputChoice::Json => OutputFormat::Json,
        OutputChoice::Text => OutputFormat::Table,
        OutputChoice::Auto => if stdout_is_terminal {
            OutputFormat::Table
        } else {
            OutputFormat::Json
        },
    }
}

/// A port-related invocation of the command line.
#[derive(Debug, Clone, Copy, PartialEq, Eq, Structural)]
pub enum Invocation {
    /// `whatport list`
    List,
    /// `whatport inspect <port>`
    Inspect(u16),
    /// `whatport kill <port> [--force]`
    Kill { port: u16, force: bool },
    /// `whatport [<port>]` with no subcommand.
    Bare(Option<u16>),
}

/// What an invocation asks for; a bare invocation without a port is a usage error.
pub open spec fn target_spec(inv: Invocation) -> Option<(Query, Action)> {
    match inv {
        Invocation::List => Some((Query::All, Action::Inspect)),
        Invocation::Inspect(p) => Some((Query::Port(p), Action::Inspect)),
        Invocation::Kill { port, force } => Some(
            (Query::Port(port), Action::Kill(if force { Signal::Kill } else { Signal::Term })),
        ),
        Invocation::Bare(Some(p)) => Some((Query::Port(p), Action::Inspect)),
        Invocation::Bare(None) => None,
    }
}

/// The query and action of an invocation: `list` looks at everything, a port is
/// inspected, `kill` sends SIGTERM or, with `--force`, SIGKILL.
pub fn request_target(inv: Invocation) -> (r: Result<(Query, Action), WhatportError>)
    ensures
        r is Ok <==> target_spec(inv) is Some,
        r is Ok ==> r->Ok_0 == target_spec(inv)->0,
        inv == Invocation::List ==> r == Ok::<(Query, Action), WhatportError>(
            (Query::All, Action::Inspect),
        ),
        inv matches Invocation::Kill { port, force } ==> r is Ok && r->Ok_0.0 == Query::Port(port)
            && r->Ok_0.1 == Action::Kill(if force { Signal::Kill } else { Signal::Term }),
        inv matches Invocation::Inspect(p) ==> r is Ok && r->Ok_0 == (Query::Port(p), Action::Inspect),
        inv matches Invocation::Bare(Some(p)) ==> r is Ok && r->Ok_0 == (Query::Port(p), Action::Inspect),
        inv == Invocation::Bare(None) ==> r is Err,
        r is Err ==> (r->Err_0 matches WhatportError::Usage { message } && message@
            == "no port given (try `whatport <port>` or `whatport list`)"@),
{
    match inv {
        Invocation::List => Ok((Query::All, Action::Inspect)),
        Invocation::Inspect(p) => Ok((Query::Port(p), Action::Inspect)),
        Invocation::Kill { port, force } => Ok(
            (Query::Port(port), Action::Kill(if force { Signal::Kill } else { Signal::Term })),
        ),
        Invocation::Bare(Some(p)) => Ok((Query::Port(p), Action::Inspect)),
        Invocation::Bare(None) => Err(
            WhatportError::Usage {
                message: String::from_str(
                    "no port given (try `whatport <port>` or `whatport list`)",
                ),
            },
        ),
    }
}

/// The structured error envelope: `{"error":{...}}` with the exit code, the hint
/// where there is one, the kind and the message, keys in sorted order.
pub open spec fn envelope_spec(e: WhatportError) -> Seq<char> {
    "{\"error\":{\"exit_code\":"@ + dec(exit_code_of(e) as nat) + match hint_of(e) {
        Some(h) => ",\"hint\":"@ + json_str(h),
        None => Seq::empty(),
    } + ",\"kind\":"@ + json_str(kind_of(e)) + ",\"message\":"@ + json_str(message_of(e))
        + "}}"@
}

/// The envelope opens with the error's exit code and closes with its kind and its
/// message, each as a JSON string.
pub proof fn lemma_envelope_carries_code_kind_and_message(e: WhatportError)
    ensures
        starts_with(envelope_spec(e), "{\"error\":{\"exit_code\":"@ + dec(exit_code_of(e) as nat)),
        ends_with(
            envelope_spec(e),
            ",\"kind\":"@ + json_str(kind_of(e)) + ",\"message\":"@ + json_str(message_of(e))
                + "}}"@,
        ),
{
    let head = "{\"error\":{\"exit_code\":"@ + dec(exit_code_of(e) as nat);
    let hint = match hint_of(e) {
        Some(h) => ",\"hint\":"@ + json_str(h),
        None => Seq::empty(),
    };
    let tail = ",\"kind\":"@ + json_str(kind_of(e)) + ",\"message\":"@ + json_str(message_of(e))
        + "}}"@;
    let env = envelope_spec(e);
    assert(env =~= head + hint + tail);
    assert(env.subrange(0, head.len() as int) =~= head);
    assert(env.subrange(env.len() - tail.len(), env.len() as int) =~= tail);
}

/// Renders the error envelope written as the last line of stderr.
pub fn error_envelope(e: &WhatportError) -> (r: String)
    ensures
        r@ == envelope_spec(*e),
{
    let mut out = String::from_str("{\"error\":{\"exit_code\":");
    let code = e.exit_code();
    let c = decimal(code as u64);
    out.append(c.as_str());
    match e.hint() {
        Some(h) => {
            out.append(",\"hint\":");
            let q = json_quote(h);
            out.append(q.as_str());
        },
        None => {
            assert(out@ + Seq::<char>::empty() =~= out@);
        },
    }
    out.append(",\"kind\":");
    let k = json_quote(e.kind());
    out.append(k.as_str());
    out.append(",\"message\":");
    let m = e.message();
    let q = json_quote(m.as_str());
    out.append(q.as_str());
    out.append("}}");
    out
}

} // verus!
