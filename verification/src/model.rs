//! Core data model: a listening socket and the process behind it.

use vstd::prelude::*;

verus! {

/// Transport protocol of a listener.
#[derive(Debug, Clone, Copy, PartialEq, Eq, Structural)]
pub enum Proto {
    Tcp,
    Udp,
}

/// The lowercase name of a protocol, as it appears in output.
pub open spec fn proto_name(p: Proto) -> Seq<char> {
    match p {
        Proto::Tcp => "tcp"@,
        Proto::Udp => "udp"@,
    }
}

impl Proto {
    pub fn as_str(self) -> (r: &'static str)
        ensures
            r@ == proto_name(self),
            self == Proto::Tcp ==> r@ == "tcp"@,
            self == Proto::Udp ==> r@ == "udp"@,
    {
        match self {
            Proto::Tcp => "tcp",
            Proto::Udp => "udp",
        }
    }
}

/// A bound/listening socket plus whatever is known about the owning process.
///
/// The process fields are `Option` because the OS does not always permit a
/// caller to see the owner of a socket it does not own.
#[derive(Debug, Clone, PartialEq, Eq)]
pub struct Listener {
    pub port: u16,
    pub proto: Proto,
    /// Local bind address (e.g. `0.0.0.0`, `127.0.0.1`, `::`).
    pub addr: String,
    pub pid: Option<u32>,
    pub process: Option<String>,
    pub command: Option<String>,
    pub user: Option<String>,
    pub uptime_secs: Option<u64>,
}

impl Listener {
    /// Distinct owning pid, if known.
    pub fn pid(&self) -> (r: Option<u32>)
        ensures
            r == self.pid,
    {
        self.pid
    }
}

/// Which protocols to consider.
#[derive(Debug, Clone, Copy, PartialEq, Eq, Structural)]
pub enum ProtoFilter {
    Tcp,
    Udp,
    All,
}

/// Whether a filter admits a protocol.
pub open spec fn filter_admits(f: ProtoFilter, p: Proto) -> bool {
    match f {
        ProtoFilter::All => true,
        ProtoFilter::Tcp => p == Proto::Tcp,
        ProtoFilter::Udp => p == Proto::Udp,
    }
}

/// The label of a single-protocol filter; `All` has none.
pub open spec fn filter_label(f: ProtoFilter) -> Option<Seq<char>> {
    match f {
        ProtoFilter::Tcp => Some("tcp"@),
        ProtoFilter::Udp => Some("udp"@),
        ProtoFilter::All => None,
    }
}

impl ProtoFilter {
    pub fn matches(self, proto: Proto) -> (r: bool)
        ensures
            r == filter_admits(self, proto),
            self == ProtoFilter::All ==> r,
            self == ProtoFilter::Tcp ==> (r <==> proto == Proto::Tcp),
            self == ProtoFilter::Udp ==> (r <==> proto == Proto::Udp),
    {
        match self {
            ProtoFilter::All => true,
            ProtoFilter::Tcp => proto == Proto::Tcp,
            ProtoFilter::Udp => proto == Proto::Udp,
        }
    }

    /// The proto label for a single-protocol filter (for error messages).
    pub fn label(self) -> (r: Option<&'static str>)
        ensures
            r is Some == filter_label(self) is Some,
            r is Some ==> r->0@ == filter_label(self)->0,
            self == ProtoFilter::All <==> r is None,
            self == ProtoFilter::Tcp ==> r is Some && r->0@ == "tcp"@,
            self == ProtoFilter::Udp ==> r is Some && r->0@ == "udp"@,
    {
        match self {
            ProtoFilter::Tcp => Some("tcp"),
            ProtoFilter::Udp => Some("udp"),
            ProtoFilter::All => None,
        }
    }
}

} // verus!
