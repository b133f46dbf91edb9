//! The parts of the machine-readable contract that the library's own rules decide:
//! which errors exist with which exit codes, and which commands mutate.

use vstd::prelude::*;

use crate::error::{exit_code_of, kind_of, WhatportError};

verus! {

/// The version of The CLI Spec the contract conforms to.
pub const CLISPEC_VERSION: &'static str = "0.2";

/// One declared error kind.
#[derive(Debug, Clone, Copy)]
pub struct ErrorEntry {
    pub kind: &'static str,
    pub exit_code: i32,
    pub retryable: bool,
    pub description: &'static str,
}

/// Where an error's entry stands in the catalog.
pub open spec fn entry_index(e: WhatportError) -> int {
    match e {
        WhatportError::Usage { .. } => 0,
        WhatportError::NoListener { .. } => 1,
        WhatportError::System { .. } => 2,
        WhatportError::KillFailed { .. } => 3,
    }
}

/// The description of each error kind.
pub open spec fn description_of(e: WhatportError) -> Seq<char> {
    match e {
        WhatportError::Usage { .. } => "Invalid command-line arguments."@,
        WhatportError::NoListener { .. } => "Nothing is listening on the queried port."@,
        WhatportError::System { .. } => "The OS socket/process table could not be read, or a pid is not visible."@,
        WhatportError::KillFailed { .. } => "A process could not be signalled (may have exited, or needs elevated privileges)."@,
    }
}

/// The declared errors, one per kind: every error of the library finds its kind
/// and its exit code there, and only a failed signal is worth retrying.
pub fn error_catalog() -> (r: Vec<ErrorEntry>)
    ensures
        r@.len() == 4,
        forall|e: WhatportError|
            {
                let d = r@[#[trigger] entry_index(e)];
                &&& d.kind@ == kind_of(e)
                &&& d.exit_code == exit_code_of(e)
                &&& d.retryable == e is KillFailed
                &&& d.description@ == description_of(e)
            },
        forall|i: int, j: int| 0 <= i < j < 4 ==> r@[i].kind@ != r@[j].kind@,
{
    proof {
        reveal_strlit("usage");
        reveal_strlit("no_listener");
        reveal_strlit("system");
        reveal_strlit("kill_failed");
    }
    let mut r: Vec<ErrorEntry> = Vec::new();
    r.push(
        ErrorEntry {
            kind: "usage",
            exit_code: 3,
            retryable: false,
            description: "Invalid command-line arguments.",
        },
    );
    r.push(
        ErrorEntry {
            kind: "no_listener",
            exit_code: 1,
            retryable: false,
            description: "Nothing is listening on the queried port.",
        },
    );
    r.push(
        ErrorEntry {
            kind: "system",
            exit_code: 2,
            retryable: false,
            description: "The OS socket/process table could not be read, or a pid is not visible.",
        },
    );
    r.push(
        ErrorEntry {
            kind: "kill_failed",
            exit_code: 2,
            retryable: true,
            description: "A process could not be signalled (may have exited, or needs elevated privileges).",
        },
    );
    assert("usage"@[0] == 'u' && "no_listener"@[0] == 'n' && "system"@[0] == 's'
        && "kill_failed"@[0] == 'k');
    assert(r@[0].kind@ != r@[1].kind@);
    assert(r@[0].kind@ != r@[2].kind@);
    assert(r@[0].kind@ != r@[3].kind@);
    assert(r@[1].kind@ != r@[2].kind@);
    assert(r@[1].kind@ != r@[3].kind@);
    assert(r@[2].kind@ != r@[3].kind@);
    r
}

/// One command and whether it changes the system.
#[derive(Debug, Clone, Copy)]
pub struct CommandEntry {
    pub name: &'static str,
    /// `read_only` or `non_idempotent`.
    pub effects: &'static str,
    pub mutating: bool,
}

/// The commands in their declared order: `list`, `inspect`, `kill`, `schema`,
/// `completions`. `kill` is the one mutating command; every other one is read-only.
pub fn command_catalog() -> (r: Vec<CommandEntry>)
    ensures
        r@.len() == 5,
        r@[0].name@ == "list"@,
        r@[1].name@ == "inspect"@,
        r@[2].name@ == "kill"@,
        r@[3].name@ == "schema"@,
        r@[4].name@ == "completions"@,
        forall|i: int|
            0 <= i < 5 ==> ((#[trigger] r@[i]).mutating <==> r@[i].name@ == "kill"@),
        forall|i: int|
            0 <= i < 5 ==> ((#[trigger] r@[i]).effects@ == (if r@[i].mutating {
                "non_idempotent"@
            } else {
                "read_only"@
            })),
{
    proof {
        reveal_strlit("list");
        reveal_strlit("inspect");
        reveal_strlit("kill");
        reveal_strlit("schema");
        reveal_strlit("completions");
    }
    let mut r: Vec<CommandEntry> = Vec::new();
    r.push(CommandEntry { name: "list", effects: "read_only", mutating: false });
    r.push(CommandEntry { name: "inspect", effects: "read_only", mutating: false });
    r.push(CommandEntry { name: "kill", effects: "non_idempotent", mutating: true });
    r.push(CommandEntry { name: "schema", effects: "read_only", mutating: false });
    r.push(CommandEntry { name: "completions", effects: "read_only", mutating: false });
    assert("kill"@[0] == 'k' && "list"@[0] == 'l' && "inspect"@[0] == 'i' && "schema"@[0] == 's'
        && "completions"@[0] == 'c');
    assert("list"@ != "kill"@);
    assert("inspect"@ != "kill"@);
    assert("schema"@ != "kill"@);
    assert("completions"@ != "kill"@);
    r
}

} // verus!
