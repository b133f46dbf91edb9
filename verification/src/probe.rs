//! Discovering listening sockets and the processes behind them.
//!
//! [`Probe`] is the seam: the real probe reads the OS socket and process
//! tables; tests substitute a fake.

use vstd::prelude::*;

use crate::error::WhatportError;
use crate::model::{Listener, Proto};
use crate::text::{join, join_spec, views};

verus! {

/// Source of the current set of listening sockets.
pub trait Probe {
    /// Whether `r` is a report this probe gives of the current listeners. A probe
    /// that says nothing of its reports may give any.
    closed spec fn reports(&self, r: Result<Vec<Listener>, WhatportError>) -> bool {
        true
    }

    /// All listening TCP sockets and bound UDP sockets, with owning-process
    /// details where the OS permits.
    fn listeners(&self) -> (r: Result<Vec<Listener>, WhatportError>)
        ensures
            self.reports(r),
    ;
}


/// One row of the OS socket table.
pub struct SocketEntry {
    pub proto: Proto,
    /// For TCP, whether the socket is in the LISTEN state; not read for UDP.
    pub listening: bool,
    /// Local bind address.
    pub addr: String,
    pub port: u16,
    /// The pids the OS associates with the socket, in its order.
    pub pids: Vec<u32>,
}

/// What the process table says of the process that owns a socket.
pub struct ProcessInfo {
    pub name: String,
    /// The command line, one element per argument.
    pub cmd: Vec<String>,
    /// The owning user's name, where it could be resolved.
    pub user: Option<String>,
    /// Seconds since the process started.
    pub run_time: u64,
}

/// The owner of a socket: the first pid the OS associates with it.
pub fn owner_pid(pids: &Vec<u32>) -> (r: Option<u32>)
    ensures
        r is None <==> pids@.len() == 0,
        r is Some ==> r->0 == pids@[0],
{
    if pids.len() == 0 {
        None
    } else {
        Some(pids[0])
    }
}

/// The command line as one string: the arguments joined by single spaces, or
/// nothing when there are none.
pub open spec fn command_line_spec(cmd: Seq<String>) -> Option<Seq<char>> {
    if cmd.len() == 0 {
        None
    } else {
        Some(join_spec(views(cmd), " "@))
    }
}

/// Joins a process's arguments with single spaces; `None` when there are none.
pub fn command_line(cmd: &Vec<String>) -> (r: Option<String>)
    ensures
        r is Some == command_line_spec(cmd@) is Some,
        r is Some ==> r->0@ == command_line_spec(cmd@)->0,
{
    if cmd.len() == 0 {
        None
    } else {
        Some(join(cmd, " "))
    }
}

/// Whether a socket-table row is a listener: a TCP socket in the LISTEN state or
/// any bound UDP socket.
pub open spec fn is_listener(e: SocketEntry) -> bool {
    e.proto == Proto::Udp || e.listening
}

/// Whether `l` is the listener for the socket `e` owned by the process `owner`: the
/// socket's port, protocol and address; the first associated pid; and the process
/// name, command line, user and uptime of the owner where its details could be read,
/// nothing of them otherwise.
pub open spec fn listener_fits(l: Listener, e: SocketEntry, owner: Option<ProcessInfo>) -> bool {
    &&& l.port == e.port
    &&& l.proto == e.proto
    &&& l.addr == e.addr
    &&& l.pid == (if e.pids@.len() == 0 {
        None
    } else {
        Some(e.pids@[0])
    })
    &&& l.process is Some == owner is Some
    &&& l.user is Some == (owner is Some && owner->0.user is Some)
    &&& l.uptime_secs is Some == owner is Some
    &&& l.command is Some == (owner is Some && owner->0.cmd@.len() > 0)
    &&& owner is Some ==> {
        let o = owner->0;
        &&& l.process->0 == o.name
        &&& l.user == o.user
        &&& l.uptime_secs == Some(o.run_time)
        &&& o.cmd@.len() > 0 ==> l.command->0@ == command_line_spec(o.cmd@)->0
    }
}

/// The listener for a row of the socket table and the process that owns it, if the
/// row is one.
pub fn socket_listener(entry: SocketEntry, owner: Option<ProcessInfo>) -> (r: Option<Listener>)
    ensures
        r is Some == is_listener(entry),
        r is Some ==> listener_fits(r->0, entry, owner),
{
    if entry.proto == Proto::Tcp && !entry.listening {
        return None;
    }
    let pid = owner_pid(&entry.pids);
    let (process, command, user, uptime_secs) = match owner {
        Some(o) => {
            let command = command_line(&o.cmd);
            (Some(o.name), command, o.user, Some(o.run_time))
        },
        None => (None, None, None, None),
    };
    Some(
        Listener {
            port: entry.port,
            proto: entry.proto,
            addr: entry.addr,
            pid,
            process,
            command,
            user,
            uptime_secs,
        },
    )
}


/// A row of the socket table with the details of its owner, where they could be read.
pub type SocketRow = (SocketEntry, Option<ProcessInfo>);

/// The rows of a socket table that are listeners, in the table's order.
pub open spec fn listener_rows(rows: Seq<SocketRow>) -> Seq<SocketRow>
    decreases rows.len(),
{
    if rows.len() == 0 {
        Seq::empty()
    } else {
        let rest = listener_rows(rows.drop_last());
        if is_listener(rows.last().0) {
            rest.push(rows.last())
        } else {
            rest
        }
    }
}

/// The listeners of a whole socket table: one per listener row, in the table's order
/// (TCP sockets in any state but LISTEN never appear), each built from its row.
pub fn table_listeners(rows: Vec<SocketRow>) -> (r: Vec<Listener>)
    ensures
        r@.len() == listener_rows(rows@).len(),
        forall|k: int|
            0 <= k < r@.len() ==> listener_fits(
                #[trigger] r@[k],
                listener_rows(rows@)[k].0,
                listener_rows(rows@)[k].1,
            ),
{
    let ghost all = rows@;
    let mut out: Vec<Listener> = Vec::new();
    for row in it: rows.into_iter()
        invariant
            it.seq() == all,
            out@.len() == listener_rows(all.take(it.index() as int)).len(),
            forall|k: int|
                0 <= k < out@.len() ==> listener_fits(
                    #[trigger] out@[k],
                    listener_rows(all.take(it.index() as int))[k].0,
                    listener_rows(all.take(it.index() as int))[k].1,
                ),
    {
        let ghost i = it.index();
        let ghost prev = listener_rows(all.take(i as int));
        let ghost before = out@;
        assert(all.take(i + 1).drop_last() =~= all.take(i as int));
        assert(all.take(i + 1).last() == row);
        let (entry, owner) = row;
        let ghost e = entry;
        let ghost o = owner;
        match socket_listener(entry, owner) {
            Some(l) => {
                out.push(l);
                assert forall|k: int| 0 <= k < out@.len() implies listener_fits(
                    #[trigger] out@[k],
                    listener_rows(all.take(i + 1))[k].0,
                    listener_rows(all.take(i + 1))[k].1,
                ) by {
                    if k < before.len() {
                        assert(out@[k] == before[k]);
                    }
                }
            },
            None => {},
        }
    }
    assert(all.take(all.len() as int) =~= all);
    out
}

} // verus!
