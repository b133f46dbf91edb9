//! Tests of the library's pieces on concrete values.

use std::cell::RefCell;

use whatport::cli::{error_envelope, request_target, resolve_format, Invocation, OutputChoice};
use whatport::kill::{after_fallback, after_signal, process_missing, KillStep};
use whatport::matching::{kill_targets, select_listeners};
use whatport::output::{humanize, render_kill, render_listeners, truncate};
use whatport::probe::{
    command_line, owner_pid, socket_listener, table_listeners, ProcessInfo, SocketEntry,
};
use whatport::schema::{command_catalog, error_catalog, CLISPEC_VERSION};
use whatport::text::{decimal, join, pad};
use whatport::{
    kill_result, run, run_with, Action, KillResult, Killer, Listener, OutputFormat, Proto,
    ProtoFilter, Query, Request, Signal, WhatportError,
};

struct FakeProbe(Result<Vec<Listener>, WhatportError>);
impl whatport::Probe for FakeProbe {
    fn listeners(&self) -> Result<Vec<Listener>, WhatportError> {
        self.0.clone()
    }
}

#[derive(Default)]
struct Recorder {
    calls: RefCell<Vec<(u32, Signal)>>,
    fail: Vec<u32>,
}
impl Killer for Recorder {
    fn kill(&self, pid: u32, signal: Signal) -> Result<(), WhatportError> {
        self.calls.borrow_mut().push((pid, signal));
        if self.fail.contains(&pid) {
            Err(WhatportError::KillFailed {
                pid,
                message: "boom".into(),
            })
        } else {
            Ok(())
        }
    }
}

fn node(port: u16, proto: Proto, pid: Option<u32>, process: &str) -> Listener {
    Listener {
        port,
        proto,
        addr: "127.0.0.1".into(),
        pid,
        process: Some(process.into()),
        command: None,
        user: Some("ruben".into()),
        uptime_secs: Some(5),
    }
}

fn bare(port: u16) -> Listener {
    Listener {
        port,
        proto: Proto::Udp,
        addr: "::".into(),
        pid: None,
        process: None,
        command: None,
        user: None,
        uptime_secs: None,
    }
}

fn request(query: Query, proto: ProtoFilter, action: Action, format: OutputFormat) -> Request {
    Request {
        query,
        proto,
        action,
        format,
    }
}

fn row(c: [&str; 7]) -> String {
    format!(
        "{:<6} {:<5} {:<8} {:<22} {:<10} {:<9} {}",
        c[0], c[1], c[2], c[3], c[4], c[5], c[6]
    )
}

// ---- text ---------------------------------------------------------------

#[test]
fn decimal_renders_numbers() {
    assert_eq!(decimal(0), "0");
    assert_eq!(decimal(7), "7");
    assert_eq!(decimal(5099), "5099");
    assert_eq!(decimal(u64::MAX), u64::MAX.to_string());
}

#[test]
fn pad_left_aligns_like_format() {
    assert_eq!(pad("ab", 4), "ab  ");
    assert_eq!(pad("abcdef", 4), "abcdef");
    assert_eq!(pad("é", 3), format!("{:<3}", "é"));
    assert_eq!(pad("", 0), "");
}

#[test]
fn join_puts_separator_between_parts() {
    let parts = vec!["a".to_string(), "b".to_string(), "c".to_string()];
    assert_eq!(join(&parts, ", "), "a, b, c");
    assert_eq!(join(&vec![], ","), "");
    assert_eq!(join(&vec!["x".to_string()], ","), "x");
}

#[test]
fn truncate_marks_a_cut() {
    assert_eq!(truncate("abcdef", 4), "abc…");
    assert_eq!(truncate("abc", 3), "abc");
    assert_eq!(truncate("abc", 0), "…");
    assert_eq!(truncate("ééééé", 3), "éé…");
    assert_eq!(truncate("abcdef", 4).chars().count(), 4);
}

#[test]
fn humanize_keeps_two_largest_units() {
    assert_eq!(humanize(0), "0s");
    assert_eq!(humanize(5), "5s");
    assert_eq!(humanize(65), "1m5s");
    assert_eq!(humanize(3 * 3600 + 12 * 60 + 9), "3h12m");
    assert_eq!(humanize(2 * 86_400 + 3 * 3600 + 59), "2d3h");
    assert_eq!(humanize(86_400), "1d0h");
}

// ---- errors ---------------------------------------------------------------

#[test]
fn every_error_has_kind_exit_code_and_message() {
    let usage = WhatportError::Usage { message: "bad".into() };
    let none = WhatportError::NoListener { port: 5099, proto: Some("tcp") };
    let none_all = WhatportError::NoListener { port: 80, proto: None };
    let system = WhatportError::System { message: "denied".into() };
    let failed = WhatportError::KillFailed { pid: 42, message: "gone".into() };

    assert_eq!((usage.kind(), usage.exit_code()), ("usage", 3));
    assert_eq!((none.kind(), none.exit_code()), ("no_listener", 1));
    assert_eq!((system.kind(), system.exit_code()), ("system", 2));
    assert_eq!((failed.kind(), failed.exit_code()), ("kill_failed", 2));

    assert_eq!(usage.message(), "bad");
    assert_eq!(none.message(), "nothing is listening on port 5099/tcp");
    assert_eq!(none_all.message(), "nothing is listening on port 80");
    assert_eq!(system.message(), "could not read system socket table: denied");
    assert_eq!(failed.message(), "could not signal pid 42: gone");

    assert_eq!(usage.hint(), Some("see `whatport --help` or `whatport schema`"));
    assert_eq!(none.hint(), Some("run `whatport list` to see all listeners"));
    assert_eq!(system.hint(), None);
    assert_eq!(
        failed.hint(),
        Some("the process may have already exited, or need elevated privileges")
    );
}

#[test]
fn error_envelope_is_sorted_json() {
    let usage = WhatportError::Usage { message: "bad \"flag\"".into() };
    assert_eq!(
        error_envelope(&usage),
        "{\"error\":{\"exit_code\":3,\"hint\":\"see `whatport --help` or `whatport schema`\",\"kind\":\"usage\",\"message\":\"bad \\\"flag\\\"\"}}"
    );
    let system = WhatportError::System { message: "x".into() };
    assert_eq!(
        error_envelope(&system),
        "{\"error\":{\"exit_code\":2,\"kind\":\"system\",\"message\":\"could not read system socket table: x\"}}"
    );
    let v: serde_json::Value = serde_json::from_str(&error_envelope(&system)).unwrap();
    assert_eq!(v["error"]["kind"], "system");
}

// ---- model ------------------------------------------------------------------

#[test]
fn proto_filter_matches_and_labels() {
    assert!(ProtoFilter::All.matches(Proto::Tcp) && ProtoFilter::All.matches(Proto::Udp));
    assert!(ProtoFilter::Tcp.matches(Proto::Tcp) && !ProtoFilter::Tcp.matches(Proto::Udp));
    assert!(ProtoFilter::Udp.matches(Proto::Udp) && !ProtoFilter::Udp.matches(Proto::Tcp));
    assert_eq!(ProtoFilter::Tcp.label(), Some("tcp"));
    assert_eq!(ProtoFilter::Udp.label(), Some("udp"));
    assert_eq!(ProtoFilter::All.label(), None);
    assert_eq!(Proto::Tcp.as_str(), "tcp");
    assert_eq!(Proto::Udp.as_str(), "udp");
    assert_eq!(Signal::Term.as_str(), "TERM");
    assert_eq!(Signal::Kill.as_str(), "KILL");
    assert_eq!(node(1, Proto::Tcp, Some(9), "a").pid(), Some(9));
}

// ---- selection and targets ------------------------------------------------

#[test]
fn selection_keeps_matching_listeners_in_order() {
    let ls = vec![
        node(5099, Proto::Tcp, Some(1), "a"),
        node(5099, Proto::Udp, Some(2), "b"),
        node(80, Proto::Tcp, Some(3), "c"),
        node(5099, Proto::Tcp, Some(4), "d"),
    ];
    let r = request(Query::Port(5099), ProtoFilter::Tcp, Action::Inspect, OutputFormat::Json);
    let got: Vec<Option<u32>> = select_listeners(ls.clone(), &r).iter().map(|l| l.pid).collect();
    assert_eq!(got, vec![Some(1), Some(4)]);
    let all = request(Query::All, ProtoFilter::All, Action::Inspect, OutputFormat::Json);
    assert_eq!(select_listeners(ls, &all).len(), 4);
}

#[test]
fn targets_take_each_visible_pid_once_with_its_first_process() {
    let ls = vec![
        node(5099, Proto::Tcp, Some(7), "a"),
        node(5099, Proto::Tcp, None, "hidden"),
        node(5099, Proto::Tcp, Some(8), "b"),
        node(5099, Proto::Udp, Some(7), "c"),
    ];
    let ts = kill_targets(&ls);
    assert_eq!(ts, vec![(7, Some("a".to_string())), (8, Some("b".to_string()))]);
    assert!(kill_targets(&vec![bare(1)]).is_empty());
}

// ---- rendering --------------------------------------------------------------

#[test]
fn listeners_json_has_sorted_keys_and_omits_unknowns() {
    let ls = vec![node(5099, Proto::Tcp, Some(1234), "node"), bare(53)];
    assert_eq!(
        render_listeners(&ls, OutputFormat::Json),
        "{\"listeners\":[{\"addr\":\"127.0.0.1\",\"pid\":1234,\"port\":5099,\"process\":\"node\",\"proto\":\"tcp\",\"uptime_secs\":5,\"user\":\"ruben\"},{\"addr\":\"::\",\"port\":53,\"proto\":\"udp\"}]}"
    );
    assert_eq!(render_listeners(&[], OutputFormat::Json), "{\"listeners\":[]}");
}

#[test]
fn json_strings_are_escaped() {
    let mut l = bare(1);
    l.process = Some("a\"b\\c\n\u{1}é".into());
    l.command = Some("x\ty".into());
    let out = render_listeners(&[l], OutputFormat::Json);
    assert_eq!(
        out,
        "{\"listeners\":[{\"addr\":\"::\",\"command\":\"x\\ty\",\"port\":1,\"process\":\"a\\\"b\\\\c\\n\\u0001é\",\"proto\":\"udp\"}]}"
    );
    let v: serde_json::Value = serde_json::from_str(&out).unwrap();
    assert_eq!(v["listeners"][0]["process"], "a\"b\\c\n\u{1}é");
}

#[test]
fn listener_table_has_header_and_one_row_per_listener() {
    let mut long = node(8080, Proto::Udp, None, "a-very-long-process-name-indeed");
    long.user = Some("administrator".into());
    long.uptime_secs = Some(3 * 3600 + 12 * 60);
    long.addr = "0.0.0.0".into();
    let ls = vec![node(5099, Proto::Tcp, Some(1234), "node"), long];
    let expected = [
        row(["PORT", "PROTO", "PID", "PROCESS", "USER", "UPTIME", "ADDRESS"]),
        row(["5099", "tcp", "1234", "node", "ruben", "5s", "127.0.0.1"]),
        row(["8080", "udp", "-", "a-very-long-process-n…", "administr…", "3h12m", "0.0.0.0"]),
    ]
    .join("\n");
    assert_eq!(render_listeners(&ls, OutputFormat::Table), expected);
    assert_eq!(render_listeners(&[], OutputFormat::Table), "no listeners");
}

#[test]
fn kill_summary_renders_in_both_formats() {
    let ok = KillResult {
        pid: 1234,
        process: Some("node".into()),
        signal: "TERM",
        ok: true,
        error: None,
    };
    let failed = KillResult {
        pid: 9,
        process: None,
        signal: "TERM",
        ok: false,
        error: Some("could not signal pid 9: boom".into()),
    };
    let rs = vec![ok, failed];
    assert_eq!(
        render_kill(5099, Signal::Term, &rs, OutputFormat::Json),
        "{\"changed\":true,\"killed\":[{\"ok\":true,\"pid\":1234,\"process\":\"node\",\"signal\":\"TERM\"},{\"error\":\"could not signal pid 9: boom\",\"ok\":false,\"pid\":9,\"signal\":\"TERM\"}],\"port\":5099,\"signal\":\"TERM\"}"
    );
    assert_eq!(
        render_kill(5099, Signal::Term, &rs, OutputFormat::Table),
        "killed pid 1234 (node) with SIGTERM\nfailed to kill pid 9 (?) with SIGTERM: could not signal pid 9: boom"
    );
}

#[test]
fn kill_result_records_the_outcome() {
    let ok = kill_result(5, Some("a".into()), Signal::Kill, Ok(()));
    assert_eq!(
        ok,
        KillResult { pid: 5, process: Some("a".into()), signal: "KILL", ok: true, error: None }
    );
    let err = kill_result(
        5,
        None,
        Signal::Term,
        Err(WhatportError::KillFailed { pid: 5, message: "no".into() }),
    );
    assert!(!err.ok);
    assert_eq!(err.error.as_deref(), Some("could not signal pid 5: no"));
    assert_eq!(err.signal, "TERM");
}

// ---- run --------------------------------------------------------------------

#[test]
fn run_passes_the_probe_error_through() {
    let probe = FakeProbe(Err(WhatportError::System { message: "no table".into() }));
    let r = request(Query::All, ProtoFilter::All, Action::Inspect, OutputFormat::Json);
    let err = run(&probe, &Recorder::default(), &r).unwrap_err();
    assert_eq!(err, WhatportError::System { message: "no table".into() });
}

#[test]
fn list_of_nothing_is_not_an_error() {
    let r = request(Query::All, ProtoFilter::All, Action::Inspect, OutputFormat::Table);
    assert_eq!(run_with(vec![], &Recorder::default(), &r).unwrap(), "no listeners");
    let r = request(Query::All, ProtoFilter::All, Action::Inspect, OutputFormat::Json);
    assert_eq!(run_with(vec![], &Recorder::default(), &r).unwrap(), "{\"listeners\":[]}");
}

#[test]
fn no_listener_carries_the_filter_label() {
    let r = request(Query::Port(5099), ProtoFilter::Udp, Action::Inspect, OutputFormat::Json);
    let err = run_with(vec![node(5099, Proto::Tcp, Some(1), "a")], &Recorder::default(), &r)
        .unwrap_err();
    assert_eq!(err, WhatportError::NoListener { port: 5099, proto: Some("udp") });
    assert_eq!(err.message(), "nothing is listening on port 5099/udp");
}

#[test]
fn kill_needs_a_port() {
    let killer = Recorder::default();
    let r = request(Query::All, ProtoFilter::All, Action::Kill(Signal::Term), OutputFormat::Json);
    let err = run_with(vec![node(1, Proto::Tcp, Some(1), "a")], &killer, &r).unwrap_err();
    assert_eq!(err, WhatportError::Usage { message: "kill requires a specific port".into() });
    assert_eq!(err.exit_code(), 3);
    assert!(killer.calls.borrow().is_empty());
}

#[test]
fn hidden_pid_message_names_the_port() {
    let r = request(Query::Port(22), ProtoFilter::All, Action::Kill(Signal::Term), OutputFormat::Json);
    let err = run_with(vec![bare(22)], &Recorder::default(), &r).unwrap_err();
    assert_eq!(
        err.message(),
        "could not read system socket table: a listener holds port 22 but its pid is not visible; try elevated privileges"
    );
}

#[test]
fn kill_signals_each_owner_once_in_order() {
    let killer = Recorder { fail: vec![8], ..Default::default() };
    let ls = vec![
        node(5099, Proto::Tcp, Some(7), "a"),
        node(5099, Proto::Udp, Some(8), "b"),
        node(5099, Proto::Tcp, Some(7), "a"),
        node(6000, Proto::Tcp, Some(9), "c"),
    ];
    let r = request(Query::Port(5099), ProtoFilter::All, Action::Kill(Signal::Kill), OutputFormat::Table);
    let out = run_with(ls, &killer, &r).unwrap();
    assert_eq!(*killer.calls.borrow(), vec![(7, Signal::Kill), (8, Signal::Kill)]);
    assert_eq!(
        out,
        "killed pid 7 (a) with SIGKILL\nfailed to kill pid 8 (b) with SIGKILL: could not signal pid 8: boom"
    );
}

// ---- system probe and killer decisions -----------------------------------

#[test]
fn socket_rows_become_listeners() {
    let tcp_closed = SocketEntry {
        proto: Proto::Tcp,
        listening: false,
        addr: "127.0.0.1".into(),
        port: 1,
        pids: vec![3],
    };
    assert!(socket_listener(tcp_closed, None).is_none());

    let udp = SocketEntry {
        proto: Proto::Udp,
        listening: false,
        addr: "0.0.0.0".into(),
        port: 53,
        pids: vec![],
    };
    assert_eq!(socket_listener(udp, None), Some(bare_at(53, "0.0.0.0")));

    let tcp = SocketEntry {
        proto: Proto::Tcp,
        listening: true,
        addr: "::".into(),
        port: 8080,
        pids: vec![11, 12],
    };
    let info = ProcessInfo {
        name: "caddy".into(),
        cmd: vec!["caddy".into(), "run".into()],
        user: Some("www".into()),
        run_time: 60,
    };
    let l = socket_listener(tcp, Some(info)).unwrap();
    assert_eq!(l.pid, Some(11));
    assert_eq!(l.process.as_deref(), Some("caddy"));
    assert_eq!(l.command.as_deref(), Some("caddy run"));
    assert_eq!(l.user.as_deref(), Some("www"));
    assert_eq!(l.uptime_secs, Some(60));
    assert_eq!(l.proto, Proto::Tcp);
}

#[test]
fn socket_table_keeps_listener_rows_in_order() {
    let entry = |proto: Proto, listening: bool, port: u16| SocketEntry {
        proto,
        listening,
        addr: "127.0.0.1".into(),
        port,
        pids: vec![],
    };
    let rows = vec![
        (entry(Proto::Tcp, true, 1), None),
        (entry(Proto::Tcp, false, 2), None),
        (entry(Proto::Udp, false, 3), None),
        (entry(Proto::Tcp, true, 4), None),
    ];
    let ports: Vec<(u16, Proto)> = table_listeners(rows).iter().map(|l| (l.port, l.proto)).collect();
    assert_eq!(ports, vec![(1, Proto::Tcp), (3, Proto::Udp), (4, Proto::Tcp)]);
    assert!(table_listeners(vec![]).is_empty());
}

fn bare_at(port: u16, addr: &str) -> Listener {
    let mut l = bare(port);
    l.addr = addr.into();
    l
}

#[test]
fn command_line_and_owner() {
    assert_eq!(command_line(&vec![]), None);
    assert_eq!(command_line(&vec!["a".into(), "b c".into()]), Some("a b c".to_string()));
    assert_eq!(owner_pid(&vec![]), None);
    assert_eq!(owner_pid(&vec![4, 5]), Some(4));
}

#[test]
fn signal_replies_decide_the_next_step() {
    assert!(matches!(after_signal(3, Some(true)), KillStep::Done(Ok(()))));
    match after_signal(3, Some(false)) {
        KillStep::Done(Err(e)) => assert_eq!(e.message(), "could not signal pid 3: the OS rejected the signal"),
        other => panic!("unexpected {other:?}"),
    }
    assert!(matches!(after_signal(3, None), KillStep::SendKill));
    assert_eq!(after_fallback(3, true), Ok(()));
    assert_eq!(
        after_fallback(3, false).unwrap_err().message(),
        "could not signal pid 3: signal not supported on this platform"
    );
    assert_eq!(process_missing(3).message(), "could not signal pid 3: process not found");
}

// ---- command line -------------------------------------------------------------

#[test]
fn invocations_map_to_requests() {
    assert_eq!(request_target(Invocation::List), Ok((Query::All, Action::Inspect)));
    assert_eq!(request_target(Invocation::Inspect(5)), Ok((Query::Port(5), Action::Inspect)));
    assert_eq!(request_target(Invocation::Bare(Some(5))), Ok((Query::Port(5), Action::Inspect)));
    assert_eq!(
        request_target(Invocation::Kill { port: 5, force: false }),
        Ok((Query::Port(5), Action::Kill(Signal::Term)))
    );
    assert_eq!(
        request_target(Invocation::Kill { port: 5, force: true }),
        Ok((Query::Port(5), Action::Kill(Signal::Kill)))
    );
    let err = request_target(Invocation::Bare(None)).unwrap_err();
    assert_eq!(err.kind(), "usage");
    assert_eq!(err.exit_code(), 3);
}

#[test]
fn output_choice_resolves() {
    assert_eq!(resolve_format(OutputChoice::Json, true), OutputFormat::Json);
    assert_eq!(resolve_format(OutputChoice::Text, false), OutputFormat::Table);
    assert_eq!(resolve_format(OutputChoice::Auto, true), OutputFormat::Table);
    assert_eq!(resolve_format(OutputChoice::Auto, false), OutputFormat::Json);
}

#[test]
fn catalogs_declare_errors_and_commands() {
    assert_eq!(CLISPEC_VERSION, "0.2");
    let errors = error_catalog();
    let all = [
        WhatportError::Usage { message: String::new() },
        WhatportError::NoListener { port: 1, proto: None },
        WhatportError::System { message: String::new() },
        WhatportError::KillFailed { pid: 1, message: String::new() },
    ];
    for e in &all {
        let d = errors.iter().find(|d| d.kind == e.kind()).unwrap();
        assert_eq!(d.exit_code, e.exit_code());
        assert_eq!(d.retryable, matches!(e, WhatportError::KillFailed { .. }));
    }
    let commands = command_catalog();
    let mutating: Vec<&str> = commands.iter().filter(|c| c.mutating).map(|c| c.name).collect();
    assert_eq!(mutating, vec!["kill"]);
    for c in &commands {
        assert_eq!(c.effects, if c.mutating { "non_idempotent" } else { "read_only" });
    }
}

#[test]
fn tables_have_one_line_per_row() {
    let ls = vec![node(1, Proto::Tcp, Some(1), "a"), node(2, Proto::Udp, None, "b"), bare(3)];
    let table = render_listeners(&ls, OutputFormat::Table);
    assert_eq!(table.split('\n').count(), ls.len() + 1);
    assert!(table.split('\n').nth(3).unwrap().starts_with("3 "));
    let rs: Vec<KillResult> = (1..=3)
        .map(|pid| kill_result(pid, None, Signal::Term, Ok(())))
        .collect();
    let summary = render_kill(9, Signal::Term, &rs, OutputFormat::Table);
    assert_eq!(summary.split('\n').count(), 3);
    assert_eq!(render_kill(9, Signal::Term, &[], OutputFormat::Table), "");
}
