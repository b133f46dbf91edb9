//! whatport: find what process is listening on a TCP/UDP port, and free it.
//!
//! The whole pipeline is reachable through [`run`], which is generic over
//! [`Probe`] (the socket/process source) and [`Killer`] (the signaller).

pub mod cli;
pub mod error;
pub mod json;
pub mod matching;
pub mod kill;
pub mod model;
pub mod output;
pub mod probe;
pub mod schema;
pub mod text;

pub use error::WhatportError;
pub use kill::{Killer, Signal};
pub use model::{Listener, Proto, ProtoFilter};
pub use probe::Probe;

use crate::error::message_of;
use crate::kill::signal_name;
use crate::matching::{
    kill_targets, lemma_targets_once_each, pids_of, select, select_listeners, targets, Target,
};
use crate::model::filter_label;
use crate::output::{kill_text, listeners_text, render_kill, render_listeners};
use crate::text::dec;

use vstd::prelude::*;

verus! {

/// Rendered output format.
#[derive(Debug, Clone, Copy, PartialEq, Eq, Structural)]
pub enum OutputFormat {
    Table,
    Json,
}

/// What to look at: one port, or every listener.
#[derive(Debug, Clone, Copy, PartialEq, Eq, Structural)]
pub enum Query {
    Port(u16),
    All,
}

/// What to do: just report, or signal the owner(s).
#[derive(Debug, Clone, Copy, PartialEq, Eq, Structural)]
pub enum Action {
    Inspect,
    Kill(Signal),
}

/// A complete whatport request.
#[derive(Debug, Clone)]
pub struct Request {
    pub query: Query,
    pub proto: ProtoFilter,
    pub action: Action,
    pub format: OutputFormat,
}

/// The outcome of signalling one pid (one row of the kill summary).
#[derive(Debug, Clone, PartialEq, Eq)]
pub struct KillResult {
    pub pid: u32,
    pub process: Option<String>,
    pub signal: &'static str,
    pub ok: bool,
    pub error: Option<String>,
}


/// The result row for signalling `pid` with `signal`, given what the signaller answered.
pub open spec fn kill_result_fits(
    r: KillResult,
    pid: u32,
    process: Option<String>,
    signal: Signal,
    outcome: Result<(), WhatportError>,
) -> bool {
    &&& r.pid == pid
    &&& r.process == process
    &&& r.signal@ == signal_name(signal)
    &&& r.ok == outcome is Ok
    &&& r.error is Some == outcome is Err
    &&& outcome is Err ==> r.error->0@ == message_of(outcome->Err_0)
}

/// The result row for signalling `pid`: `ok` when the signaller succeeded, else the
/// signaller's error message.
pub fn kill_result(
    pid: u32,
    process: Option<String>,
    signal: Signal,
    outcome: Result<(), WhatportError>,
) -> (r: KillResult)
    ensures
        kill_result_fits(r, pid, process, signal, outcome),
{
    match outcome {
        Ok(()) => KillResult { pid, process, signal: signal.as_str(), ok: true, error: None },
        Err(e) => KillResult {
            pid,
            process,
            signal: signal.as_str(),
            ok: false,
            error: Some(e.message()),
        },
    }
}

/// `rs` reports one signal per target, in order: the `i`-th row is for the `i`-th
/// target's pid and process name, and records `os[i]`, which is the signaller's
/// answer to sending `signal` to that pid.
pub open spec fn report_fits<K: Killer>(
    killer: &K,
    rs: Seq<KillResult>,
    ts: Seq<Target>,
    signal: Signal,
    os: Seq<Result<(), WhatportError>>,
) -> bool {
    &&& rs.len() == ts.len()
    &&& os.len() == ts.len()
    &&& forall|i: int|
        #![trigger rs[i]]
        #![trigger os[i]]
        0 <= i < rs.len() ==> {
            &&& killer.answers(ts[i].0, signal, os[i])
            &&& kill_result_fits(rs[i], ts[i].0, ts[i].1, signal, os[i])
        }
}

/// Whether `e` is the error for a port that nothing matching the filter holds.
pub open spec fn is_no_listener(e: WhatportError, port: u16, f: ProtoFilter) -> bool {
    &&& e matches WhatportError::NoListener { port: p, proto } && p == port && (proto is Some
        == filter_label(f) is Some) && (proto is Some ==> proto->0@ == filter_label(f)->0)
}

/// The message of a kill whose listeners show no pid.
pub open spec fn hidden_pid_message(port: u16) -> Seq<char> {
    "a listener holds port "@ + dec(port as nat)
        + " but its pid is not visible; try elevated privileges"@
}

/// What a request gives on the listeners `ls`, signalling through `killer`.
///
/// Inspect: the rendering of the matched listeners; a query for one port that
/// matches nothing is `NoListener`. Kill: only for one port; nothing matched is
/// `NoListener`; matched listeners without a visible pid are a `System` error;
/// otherwise the summary renders one row per visible pid, in order, each recording
/// the signaller's answer to a request to send that pid the requested signal.
pub open spec fn run_outcome<K: Killer>(
    ls: Seq<Listener>,
    req: Request,
    killer: &K,
    r: Result<String, WhatportError>,
) -> bool {
    let m = select(ls, req);
    match req.action {
        Action::Inspect => match req.query {
            Query::Port(p) if m.len() == 0 => r is Err && is_no_listener(r->Err_0, p, req.proto),
            _ => r is Ok && r->Ok_0@ == listeners_text(m, req.format),
        },
        Action::Kill(signal) => match req.query {
            Query::All => r is Err && (r->Err_0 matches WhatportError::Usage { message }
                && message@ == "kill requires a specific port"@),
            Query::Port(port) => if m.len() == 0 {
                r is Err && is_no_listener(r->Err_0, port, req.proto)
            } else if targets(m).len() == 0 {
                r is Err && (r->Err_0 matches WhatportError::System { message } && message@
                    == hidden_pid_message(port))
            } else {
                r is Ok && exists|rs: Seq<KillResult>, os: Seq<Result<(), WhatportError>>|
                    #[trigger] report_fits(killer, rs, targets(m), signal, os) && r->Ok_0@ == kill_text(
                        port,
                        signal,
                        rs,
                        req.format,
                    )
            },
        },
    }
}

/// Listing never fails: inspecting every listener renders whatever matched,
/// even when nothing did.
pub proof fn lemma_listing_never_fails<K: Killer>(
    ls: Seq<Listener>,
    req: Request,
    killer: &K,
    r: Result<String, WhatportError>,
)
    requires
        run_outcome(ls, req, killer, r),
        req.query is All,
        req.action is Inspect,
    ensures
        r is Ok,
        r->Ok_0@ == listeners_text(select(ls, req), req.format),
{
}

/// The pids of a kill summary.
pub open spec fn result_pids(rs: Seq<KillResult>) -> Seq<u32> {
    rs.map_values(|r: KillResult| r.pid)
}

/// A successful kill reports each process once: the summary's pids are pairwise
/// distinct and are exactly the visible owner pids of the matched listeners.
pub proof fn lemma_kill_reports_each_owner_once<K: Killer>(
    ls: Seq<Listener>,
    req: Request,
    killer: &K,
    r: Result<String, WhatportError>,
)
    requires
        run_outcome(ls, req, killer, r),
        req.action is Kill,
        r is Ok,
    ensures
        req.query is Port,
        exists|rs: Seq<KillResult>|
            {
                &&& (#[trigger] result_pids(rs)).no_duplicates()
                &&& forall|p: u32|
                    result_pids(rs).contains(p) <==> #[trigger] pids_of(select(ls, req)).contains(p)
                &&& r->Ok_0@ == kill_text(req.query->Port_0, req.action->Kill_0, rs, req.format)
            },
{
    let m = select(ls, req);
    let ts = targets(m);
    let signal = req.action->Kill_0;
    let port = req.query->Port_0;
    let (rs, os) = choose|rs: Seq<KillResult>, os: Seq<Result<(), WhatportError>>|
        #[trigger] report_fits(killer, rs, ts, signal, os) && r->Ok_0@ == kill_text(
            port,
            signal,
            rs,
            req.format,
        );
    lemma_targets_once_each(m);
    assert(result_pids(rs) =~= crate::matching::target_pids(ts));
}

fn hidden_pid_error(port: u16) -> (e: WhatportError)
    ensures
        e matches WhatportError::System { message } && message@ == hidden_pid_message(port),
{
    let mut m = String::from_str("a listener holds port ");
    let p = text::decimal(port as u64);
    m.append(p.as_str());
    m.append(" but its pid is not visible; try elevated privileges");
    WhatportError::System { message: m }
}

/// Asks the signaller to send `signal` to each target, in order, and records one
/// answer per target.
fn signal_targets<K: Killer>(killer: &K, ts: &Vec<Target>, signal: Signal) -> (rs: Vec<KillResult>)
    ensures
        exists|os: Seq<Result<(), WhatportError>>| #[trigger] report_fits(killer, rs@, ts@, signal, os),
{
    let mut rs: Vec<KillResult> = Vec::new();
    let ghost mut os: Seq<Result<(), WhatportError>> = Seq::empty();
    let n = ts.len();
    let mut i: usize = 0;
    while i < n
        invariant
            i <= n,
            n == ts@.len(),
            rs@.len() == i,
            os.len() == i,
            forall|j: int|
                #![trigger rs@[j]]
                #![trigger os[j]]
                0 <= j < i ==> {
                    &&& killer.answers(ts@[j].0, signal, os[j])
                    &&& kill_result_fits(rs@[j], ts@[j].0, ts@[j].1, signal, os[j])
                },
        decreases n - i,
    {
        let pid = ts[i].0;
        let process = match &ts[i].1 {
            Some(s) => Some(s.clone()),
            None => None,
        };
        let outcome = killer.kill(pid, signal);
        let ghost answer = outcome;
        let ghost before = rs@;
        let ghost process_v = process;
        let r = kill_result(pid, process, signal, outcome);
        assert(kill_result_fits(r, ts@[i as int].0, ts@[i as int].1, signal, answer));
        rs.push(r);
        proof {
            let old_os = os;
            os = os.push(answer);
            assert forall|j: int|
                #![trigger rs@[j]]
                #![trigger os[j]]
                0 <= j < i + 1 implies {
                    &&& killer.answers(ts@[j].0, signal, os[j])
                    &&& kill_result_fits(rs@[j], ts@[j].0, ts@[j].1, signal, os[j])
                } by {
                if j < i {
                    assert(rs@[j] == before[j]);
                    assert(os[j] == old_os[j]);
                } else {
                    assert(rs@[j] == r);
                    assert(os[j] == answer);
                }
            }
        }
        i = i + 1;
    }
    assert(report_fits(killer, rs@, ts@, signal, os));
    rs
}

/// Runs a request on a given set of listeners, signalling through `killer`.
pub fn run_with<K: Killer>(listeners: Vec<Listener>, killer: &K, req: &Request) -> (r: Result<
    String,
    WhatportError,
>)
    ensures
        run_outcome(listeners@, *req, killer, r),
{
    let matched = select_listeners(listeners, req);
    match req.action {
        Action::Inspect => {
            if let Query::Port(p) = req.query {
                if matched.len() == 0 {
                    return Err(WhatportError::NoListener { port: p, proto: req.proto.label() });
                }
            }
            Ok(render_listeners(matched.as_slice(), req.format))
        },
        Action::Kill(signal) => {
            let port = match req.query {
                Query::Port(p) => p,
                Query::All => {
                    return Err(
                        WhatportError::Usage { message: String::from_str("kill requires a specific port") },
                    );
                },
            };
            if matched.len() == 0 {
                return Err(WhatportError::NoListener { port, proto: req.proto.label() });
            }
            let ts = kill_targets(&matched);
            if ts.len() == 0 {
                return Err(hidden_pid_error(port));
            }
            let results = signal_targets(killer, &ts, signal);
            let out = render_kill(port, signal, results.as_slice(), req.format);
            let ghost os = choose|os: Seq<Result<(), WhatportError>>|
                #[trigger] report_fits(killer, results@, ts@, signal, os);
            assert(report_fits(killer, results@, targets(matched@), signal, os));
            Ok(out)
        },
    }
}

/// Run a whatport request and return the rendered output (no trailing newline).
///
/// The result is the probe's own error when the probe fails, and otherwise what
/// [`run_with`] gives on the listeners it reported.
pub fn run<P: Probe, K: Killer>(probe: &P, killer: &K, req: &Request) -> (r: Result<
    String,
    WhatportError,
>)
    ensures
        exists|pr: Result<Vec<Listener>, WhatportError>|
            #[trigger] probe.reports(pr) && match pr {
                Err(e) => r == Err::<String, WhatportError>(e),
                Ok(ls) => run_outcome(ls@, *req, killer, r),
            },
{
    let reported = probe.listeners();
    let ghost pr = reported;
    let listeners = match reported {
        Ok(ls) => ls,
        Err(e) => {
            assert(probe.reports(pr));
            return Err(e);
        },
    };
    let r = run_with(listeners, killer, req);
    assert(probe.reports(pr));
    r
}

} // verus!
