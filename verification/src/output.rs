//! Rendering listeners and kill summaries as a table (TTY) or JSON (piped).
//!
//! JSON objects carry their keys in sorted order; the table has one row per match.

use vstd::prelude::*;

use crate::json::{json_quote, json_str};
use crate::kill::{signal_name, Signal};
use crate::model::{proto_name, Listener};
use crate::text::{
    dec, decimal, join, join_spec, lemma_dec_no_newline, lemma_lines_of_join, lemma_no_newline_add,
    lemma_pad_no_newline, lines, no_newline, pad, pad_spec, views, starts_with, ends_with, splits,
    spaces, lemma_dec_reads_back, is_digit, digits_value,
};
use crate::{KillResult, OutputFormat};

verus! {

// ---- shared pieces --------------------------------------------------------

/// `true` or `false`.
pub open spec fn bool_text(b: bool) -> Seq<char> {
    if b {
        "true"@
    } else {
        "false"@
    }
}

/// `key` followed by the string as a JSON literal, or nothing when absent.
pub open spec fn str_field(key: Seq<char>, v: Option<String>) -> Seq<char> {
    match v {
        Some(s) => key + json_str(s@),
        None => Seq::empty(),
    }
}

/// `key` followed by the number, or nothing when absent.
pub open spec fn num_field(key: Seq<char>, v: Option<nat>) -> Seq<char> {
    match v {
        Some(n) => key + dec(n),
        None => Seq::empty(),
    }
}

pub open spec fn opt_u32(v: Option<u32>) -> Option<nat> {
    match v {
        Some(n) => Some(n as nat),
        None => None,
    }
}

pub open spec fn opt_u64(v: Option<u64>) -> Option<nat> {
    match v {
        Some(n) => Some(n as nat),
        None => None,
    }
}

fn push_str_field(out: &mut String, key: &str, v: &Option<String>)
    ensures
        final(out)@ == old(out)@ + str_field(key@, *v),
{
    match v {
        Some(s) => {
            out.append(key);
            let q = json_quote(s.as_str());
            out.append(q.as_str());
        },
        None => {
            assert(old(out)@ + Seq::<char>::empty() =~= old(out)@);
        },
    }
}

fn push_num_field(out: &mut String, key: &str, v: Option<u64>)
    ensures
        final(out)@ == old(out)@ + num_field(key@, opt_u64(v)),
{
    match v {
        Some(n) => {
            out.append(key);
            let d = decimal(n);
            out.append(d.as_str());
        },
        None => {
            assert(old(out)@ + Seq::<char>::empty() =~= old(out)@);
        },
    }
}

fn bool_str(b: bool) -> (r: &'static str)
    ensures
        r@ == bool_text(b),
{
    if b {
        "true"
    } else {
        "false"
    }
}

// ---- JSON -----------------------------------------------------------------

/// One listener as a JSON object, keys in sorted order, absent fields omitted.
pub open spec fn listener_json(l: Listener) -> Seq<char> {
    "{\"addr\":"@ + json_str(l.addr@) + str_field(",\"command\":"@, l.command) + num_field(
        ",\"pid\":"@,
        opt_u32(l.pid),
    ) + ",\"port\":"@ + dec(l.port as nat) + str_field(",\"process\":"@, l.process)
        + ",\"proto\":"@ + json_str(proto_name(l.proto)) + num_field(
        ",\"uptime_secs\":"@,
        opt_u64(l.uptime_secs),
    ) + str_field(",\"user\":"@, l.user) + "}"@
}

/// `{"listeners":[...]}`.
pub open spec fn listeners_json(ls: Seq<Listener>) -> Seq<char> {
    "{\"listeners\":["@ + join_spec(ls.map_values(|l: Listener| listener_json(l)), ","@) + "]}"@
}

fn listener_to_json(l: &Listener) -> (r: String)
    ensures
        r@ == listener_json(*l),
{
    let mut out = String::from_str("{\"addr\":");
    let a = json_quote(l.addr.as_str());
    out.append(a.as_str());
    push_str_field(&mut out, ",\"command\":", &l.command);
    let pid = match l.pid {
        Some(p) => Some(p as u64),
        None => None,
    };
    push_num_field(&mut out, ",\"pid\":", pid);
    out.append(",\"port\":");
    let port = decimal(l.port as u64);
    out.append(port.as_str());
    push_str_field(&mut out, ",\"process\":", &l.process);
    out.append(",\"proto\":");
    let proto = json_quote(l.proto.as_str());
    out.append(proto.as_str());
    push_num_field(&mut out, ",\"uptime_secs\":", l.uptime_secs);
    push_str_field(&mut out, ",\"user\":", &l.user);
    out.append("}");
    assert(opt_u64(pid) == opt_u32(l.pid));
    out
}

fn listeners_to_json(listeners: &[Listener]) -> (r: String)
    ensures
        r@ == listeners_json(listeners@),
{
    let mut items: Vec<String> = Vec::new();
    let n = listeners.len();
    let mut i: usize = 0;
    while i < n
        invariant
            i <= n,
            n == listeners@.len(),
            items@.len() == i,
            forall|j: int|
                0 <= j < i ==> #[trigger] items@[j]@ == listener_json(listeners@[j]),
        decreases n - i,
    {
        let s = listener_to_json(&listeners[i]);
        items.push(s);
        i = i + 1;
    }
    assert(views(items@) =~= listeners@.map_values(|l: Listener| listener_json(l)));
    let body = join(&items, ",");
    let mut out = String::from_str("{\"listeners\":[");
    out.append(body.as_str());
    out.append("]}");
    out
}

/// One kill result as a JSON object, keys in sorted order, absent fields omitted.
pub open spec fn kill_result_json(r: KillResult) -> Seq<char> {
    "{"@ + str_field("\"error\":"@, r.error).add(if r.error is Some { ","@ } else { Seq::empty() })
        + "\"ok\":"@ + bool_text(r.ok) + ",\"pid\":"@ + dec(r.pid as nat) + str_field(
        ",\"process\":"@,
        r.process,
    ) + ",\"signal\":"@ + json_str(r.signal@) + "}"@
}

/// Whether any result reports a delivered signal.
pub open spec fn any_ok(rs: Seq<KillResult>) -> bool {
    exists|i: int| 0 <= i < rs.len() && #[trigger] rs[i].ok
}

/// `{"changed":..,"killed":[...],"port":..,"signal":..}`.
pub open spec fn kill_json(port: u16, signal: Signal, rs: Seq<KillResult>) -> Seq<char> {
    "{\"changed\":"@ + bool_text(any_ok(rs)) + ",\"killed\":["@ + join_spec(
        rs.map_values(|r: KillResult| kill_result_json(r)),
        ","@,
    ) + "],\"port\":"@ + dec(port as nat) + ",\"signal\":"@ + json_str(signal_name(signal))
        + "}"@
}

fn kill_result_to_json(r: &KillResult) -> (s: String)
    ensures
        s@ == kill_result_json(*r),
{
    let mut out = String::from_str("{");
    push_str_field(&mut out, "\"error\":", &r.error);
    if r.error.is_some() {
        out.append(",");
    } else {
        assert(out@ + Seq::<char>::empty() =~= out@);
    }
    out.append("\"ok\":");
    out.append(bool_str(r.ok));
    out.append(",\"pid\":");
    let pid = decimal(r.pid as u64);
    out.append(pid.as_str());
    push_str_field(&mut out, ",\"process\":", &r.process);
    out.append(",\"signal\":");
    let sig = json_quote(r.signal);
    out.append(sig.as_str());
    out.append("}");
    out
}

fn kill_to_json(port: u16, signal: Signal, results: &[KillResult]) -> (s: String)
    ensures
        s@ == kill_json(port, signal, results@),
{
    let mut items: Vec<String> = Vec::new();
    let mut changed = false;
    let n = results.len();
    let mut i: usize = 0;
    while i < n
        invariant
            i <= n,
            n == results@.len(),
            items@.len() == i,
            forall|j: int|
                0 <= j < i ==> #[trigger] items@[j]@ == kill_result_json(results@[j]),
            changed == exists|j: int| 0 <= j < i && #[trigger] results@[j].ok,
        decreases n - i,
    {
        let s = kill_result_to_json(&results[i]);
        items.push(s);
        if results[i].ok {
            changed = true;
        }
        i = i + 1;
    }
    assert(views(items@) =~= results@.map_values(|r: KillResult| kill_result_json(r)));
    let body = join(&items, ",");
    let mut out = String::from_str("{\"changed\":");
    out.append(bool_str(changed));
    out.append(",\"killed\":[");
    out.append(body.as_str());
    out.append("],\"port\":");
    let p = decimal(port as u64);
    out.append(p.as_str());
    out.append(",\"signal\":");
    let sig = json_quote(signal.as_str());
    out.append(sig.as_str());
    out.append("}");
    out
}


// ---- table ----------------------------------------------------------------

/// `s` cut to at most `max` characters, the last kept one replaced by `…` when cut.
pub open spec fn truncate_spec(s: Seq<char>, max: nat) -> Seq<char> {
    if s.len() <= max {
        s
    } else {
        s.take(if max >= 1 { max - 1 } else { 0 }) + "…"@
    }
}

/// Cuts `s` to at most `max` characters, marking a cut with `…`.
pub fn truncate(s: &str, max: usize) -> (r: String)
    ensures
        r@ == truncate_spec(s@, max as nat),
        s@.len() <= max ==> r@ == s@,
        max >= 1 ==> r@.len() <= max,
        s@.len() > max ==> r@.len() >= 1 && r@.last() == '…' && r@.drop_last() == s@.take(
            r@.len() - 1,
        ),
        s@.len() > max && max >= 1 ==> r@.len() == max,
{
    proof {
        reveal_strlit("…");
    }
    let n = s.unicode_len();
    if n <= max {
        String::from_str(s)
    } else {
        let keep_len = if max >= 1 { max - 1 } else { 0 };
        let keep = s.substring_char(0, keep_len);
        let mut r = String::from_str(keep);
        r.append("…");
        assert(s@.subrange(0, keep_len as int) =~= s@.take(keep_len as int));
        assert(r@.drop_last() =~= s@.take(keep_len as int));
        r
    }
}

/// A duration in its two largest units: `2d3h`, `3h12m`, `4m5s`, `9s`.
pub open spec fn humanize_spec(secs: nat) -> Seq<char> {
    let d = secs / 86400;
    let h = (secs % 86400) / 3600;
    let m = (secs % 3600) / 60;
    let s = secs % 60;
    if d > 0 {
        dec(d) + "d"@ + dec(h) + "h"@
    } else if h > 0 {
        dec(h) + "h"@ + dec(m) + "m"@
    } else if m > 0 {
        dec(m) + "m"@ + dec(s) + "s"@
    } else {
        dec(s) + "s"@
    }
}

/// Renders an uptime in seconds in its two largest units.
pub fn humanize(secs: u64) -> (r: String)
    ensures
        r@ == humanize_spec(secs as nat),
{
    let d = secs / 86_400;
    let h = (secs % 86_400) / 3_600;
    let m = (secs % 3_600) / 60;
    let s = secs % 60;
    let (a, ua, b, ub) = if d > 0 {
        (d, "d", Some(h), "h")
    } else if h > 0 {
        (h, "h", Some(m), "m")
    } else if m > 0 {
        (m, "m", Some(s), "s")
    } else {
        (s, "s", None, "")
    };
    let mut out = decimal(a);
    out.append(ua);
    match b {
        Some(b) => {
            let t = decimal(b);
            out.append(t.as_str());
            out.append(ub);
        },
        None => {},
    }
    out
}

/// One table line: seven columns left-aligned in fields of 6, 5, 8, 22, 10 and 9
/// characters, separated by single spaces, the last one unpadded.
pub open spec fn row_spec(
    c0: Seq<char>,
    c1: Seq<char>,
    c2: Seq<char>,
    c3: Seq<char>,
    c4: Seq<char>,
    c5: Seq<char>,
    c6: Seq<char>,
) -> Seq<char> {
    pad_spec(c0, 6) + " "@ + pad_spec(c1, 5) + " "@ + pad_spec(c2, 8) + " "@ + pad_spec(c3, 22)
        + " "@ + pad_spec(c4, 10) + " "@ + pad_spec(c5, 9) + " "@ + c6
}

fn row(c0: &str, c1: &str, c2: &str, c3: &str, c4: &str, c5: &str, c6: &str) -> (r: String)
    ensures
        r@ == row_spec(c0@, c1@, c2@, c3@, c4@, c5@, c6@),
{
    let mut out = pad(c0, 6);
    out.append(" ");
    let t = pad(c1, 5);
    out.append(t.as_str());
    out.append(" ");
    let t = pad(c2, 8);
    out.append(t.as_str());
    out.append(" ");
    let t = pad(c3, 22);
    out.append(t.as_str());
    out.append(" ");
    let t = pad(c4, 10);
    out.append(t.as_str());
    out.append(" ");
    let t = pad(c5, 9);
    out.append(t.as_str());
    out.append(" ");
    out.append(c6);
    out
}

/// The table header.
pub open spec fn header_spec() -> Seq<char> {
    row_spec("PORT"@, "PROTO"@, "PID"@, "PROCESS"@, "USER"@, "UPTIME"@, "ADDRESS"@)
}

/// The text of an optional string, `-` when absent.
pub open spec fn or_dash(v: Option<String>) -> Seq<char> {
    match v {
        Some(s) => s@,
        None => "-"@,
    }
}

/// The table row of one listener.
pub open spec fn listener_row(l: Listener) -> Seq<char> {
    row_spec(
        dec(l.port as nat),
        proto_name(l.proto),
        match l.pid {
            Some(p) => dec(p as nat),
            None => "-"@,
        },
        truncate_spec(or_dash(l.process), 22),
        truncate_spec(or_dash(l.user), 10),
        match l.uptime_secs {
            Some(u) => humanize_spec(u as nat),
            None => "-"@,
        },
        l.addr@,
    )
}

/// `no listeners`, or the header and one row per listener, one per line.
pub open spec fn listener_table_spec(ls: Seq<Listener>) -> Seq<char> {
    if ls.len() == 0 {
        "no listeners"@
    } else {
        join_spec(seq![header_spec()] + ls.map_values(|l: Listener| listener_row(l)), "\n"@)
    }
}

fn dash_or(v: &Option<String>) -> (r: String)
    ensures
        r@ == or_dash(*v),
{
    match v {
        Some(s) => s.clone(),
        None => String::from_str("-"),
    }
}

fn listener_to_row(l: &Listener) -> (r: String)
    ensures
        r@ == listener_row(*l),
{
    let port = decimal(l.port as u64);
    let pid = match l.pid {
        Some(p) => decimal(p as u64),
        None => String::from_str("-"),
    };
    let process = dash_or(&l.process);
    let process = truncate(process.as_str(), 22);
    let user = dash_or(&l.user);
    let user = truncate(user.as_str(), 10);
    let uptime = match l.uptime_secs {
        Some(u) => humanize(u),
        None => String::from_str("-"),
    };
    row(
        port.as_str(),
        l.proto.as_str(),
        pid.as_str(),
        process.as_str(),
        user.as_str(),
        uptime.as_str(),
        l.addr.as_str(),
    )
}

fn listener_table(listeners: &[Listener]) -> (r: String)
    ensures
        r@ == listener_table_spec(listeners@),
{
    if listeners.len() == 0 {
        return String::from_str("no listeners");
    }
    let header = row("PORT", "PROTO", "PID", "PROCESS", "USER", "UPTIME", "ADDRESS");
    let mut rows: Vec<String> = Vec::new();
    rows.push(header);
    let n = listeners.len();
    let mut i: usize = 0;
    while i < n
        invariant
            i <= n,
            n == listeners@.len(),
            rows@.len() == i + 1,
            rows@[0]@ == header_spec(),
            forall|j: int|
                0 <= j < i ==> #[trigger] rows@[j + 1]@ == listener_row(listeners@[j]),
        decreases n - i,
    {
        let r = listener_to_row(&listeners[i]);
        rows.push(r);
        i = i + 1;
    }
    let ghost expected = seq![header_spec()] + listeners@.map_values(|l: Listener| listener_row(l));
    assert forall|k: int| 0 <= k < rows@.len() implies #[trigger] views(rows@)[k] == expected[k] by {
        if k > 0 {
            assert(rows@[(k - 1) + 1]@ == listener_row(listeners@[k - 1]));
        }
    }
    assert(views(rows@) =~= expected);
    join(&rows, "\n")
}

/// One line of the kill summary.
pub open spec fn kill_line(r: KillResult) -> Seq<char> {
    (if r.ok {
        "killed"@
    } else {
        "failed to kill"@
    }) + " pid "@ + dec(r.pid as nat) + " ("@ + match r.process {
        Some(p) => p@,
        None => "?"@,
    } + ") with SIG"@ + r.signal@ + match r.error {
        Some(e) => ": "@ + e@,
        None => Seq::empty(),
    }
}

/// The kill summary: one line per result.
pub open spec fn kill_table_spec(rs: Seq<KillResult>) -> Seq<char> {
    join_spec(rs.map_values(|r: KillResult| kill_line(r)), "\n"@)
}

fn kill_result_line(r: &KillResult) -> (s: String)
    ensures
        s@ == kill_line(*r),
{
    let mut out = String::from_str(if r.ok { "killed" } else { "failed to kill" });
    out.append(" pid ");
    let pid = decimal(r.pid as u64);
    out.append(pid.as_str());
    out.append(" (");
    match &r.process {
        Some(p) => out.append(p.as_str()),
        None => out.append("?"),
    }
    out.append(") with SIG");
    out.append(r.signal);
    match &r.error {
        Some(e) => {
            out.append(": ");
            out.append(e.as_str());
        },
        None => {
            assert(out@ + Seq::<char>::empty() =~= out@);
        },
    }
    out
}

fn kill_table(results: &[KillResult]) -> (s: String)
    ensures
        s@ == kill_table_spec(results@),
{
    let mut lines: Vec<String> = Vec::new();
    let n = results.len();
    let mut i: usize = 0;
    while i < n
        invariant
            i <= n,
            n == results@.len(),
            lines@.len() == i,
            forall|j: int| 0 <= j < i ==> #[trigger] lines@[j]@ == kill_line(results@[j]),
        decreases n - i,
    {
        let l = kill_result_line(&results[i]);
        lines.push(l);
        i = i + 1;
    }
    assert(views(lines@) =~= results@.map_values(|r: KillResult| kill_line(r)));
    join(&lines, "\n")
}

// ---- entry points ---------------------------------------------------------

/// The rendering of a set of listeners in a format.
pub open spec fn listeners_text(ls: Seq<Listener>, format: OutputFormat) -> Seq<char> {
    match format {
        OutputFormat::Json => listeners_json(ls),
        OutputFormat::Table => listener_table_spec(ls),
    }
}

/// The rendering of a kill summary in a format.
pub open spec fn kill_text(
    port: u16,
    signal: Signal,
    rs: Seq<KillResult>,
    format: OutputFormat,
) -> Seq<char> {
    match format {
        OutputFormat::Json => kill_json(port, signal, rs),
        OutputFormat::Table => kill_table_spec(rs),
    }
}

/// Render the matched listeners.
pub fn render_listeners(listeners: &[Listener], format: OutputFormat) -> (r: String)
    ensures
        r@ == listeners_text(listeners@, format),
{
    match format {
        OutputFormat::Json => listeners_to_json(listeners),
        OutputFormat::Table => listener_table(listeners),
    }
}

/// Render the result of a kill.
pub fn render_kill(port: u16, signal: Signal, results: &[KillResult], format: OutputFormat) -> (r:
    String)
    ensures
        r@ == kill_text(port, signal, results@, format),
{
    match format {
        OutputFormat::Json => kill_to_json(port, signal, results),
        OutputFormat::Table => kill_table(results),
    }
}


// ---- laws of the renderings ------------------------------------------------

/// The kill summary in JSON opens with `"changed":true` exactly when some result
/// reports a delivered signal, and with `"changed":false` otherwise.
pub proof fn lemma_kill_json_changed(port: u16, signal: Signal, rs: Seq<KillResult>)
    ensures
        (exists|i: int| 0 <= i < rs.len() && rs[i].ok) ==> starts_with(
            kill_json(port, signal, rs),
            "{\"changed\":true"@,
        ),
        !(exists|i: int| 0 <= i < rs.len() && rs[i].ok) ==> starts_with(
            kill_json(port, signal, rs),
            "{\"changed\":false"@,
        ),
{
    reveal_strlit("{\"changed\":");
    reveal_strlit("{\"changed\":true");
    reveal_strlit("{\"changed\":false");
    reveal_strlit("true");
    reveal_strlit("false");
    let head = "{\"changed\":"@ + bool_text(any_ok(rs));
    let tail = ",\"killed\":["@ + join_spec(
        rs.map_values(|r: KillResult| kill_result_json(r)),
        ","@,
    ) + "],\"port\":"@ + dec(port as nat) + ",\"signal\":"@ + json_str(signal_name(signal))
        + "}"@;
    let j = kill_json(port, signal, rs);
    assert(j =~= head + tail);
    assert(j.subrange(0, head.len() as int) =~= head);
    if exists|i: int| 0 <= i < rs.len() && rs[i].ok {
        let i = choose|i: int| 0 <= i < rs.len() && rs[i].ok;
        assert(any_ok(rs));
        assert(head =~= "{\"changed\":true"@);
    } else {
        assert(!any_ok(rs));
        assert(head =~= "{\"changed\":false"@);
    }
}

/// A listener's JSON object carries its whole pid, in decimal, right after the
/// `"pid"` key and before the `"port"` key; a listener with no visible pid has no
/// `"pid"` key before `"port"`.
pub proof fn lemma_listener_json_pid(l: Listener)
    ensures
        l.pid is Some ==> exists|a: Seq<char>, b: Seq<char>|
            #[trigger] splits(
                listener_json(l),
                a,
                ",\"pid\":"@ + dec(l.pid->0 as nat) + ",\"port\":"@,
                b,
            ),
        l.pid is Some ==> digits_value(dec(l.pid->0 as nat)) == l.pid->0,
        l.pid is None ==> exists|a: Seq<char>, b: Seq<char>|
            #[trigger] splits(
                listener_json(l),
                a,
                ",\"port\":"@,
                b,
            ) && a == "{\"addr\":"@ + json_str(l.addr@) + str_field(",\"command\":"@, l.command),
{
    let a = "{\"addr\":"@ + json_str(l.addr@) + str_field(",\"command\":"@, l.command);
    let b = dec(l.port as nat) + str_field(",\"process\":"@, l.process) + ",\"proto\":"@ + json_str(
        proto_name(l.proto),
    ) + num_field(",\"uptime_secs\":"@, opt_u64(l.uptime_secs)) + str_field(",\"user\":"@, l.user)
        + "}"@;
    match l.pid {
        Some(p) => {
            lemma_dec_reads_back(p as nat);
            let mid = ",\"pid\":"@ + dec(p as nat) + ",\"port\":"@;
            assert(listener_json(l) =~= a + mid + b);
            assert(splits(listener_json(l), a, mid, b));
        },
        None => {
            assert(listener_json(l) =~= a + ",\"port\":"@ + b);
            assert(splits(listener_json(l), a, ",\"port\":"@, b));
        },
    }
}

/// The eight pieces of a listener's JSON object, in order.
pub open spec fn json_pieces(l: Listener) -> Seq<Seq<char>> {
    seq![
        "{\"addr\":"@ + json_str(l.addr@),
        str_field(",\"command\":"@, l.command),
        num_field(",\"pid\":"@, opt_u32(l.pid)),
        ",\"port\":"@ + dec(l.port as nat),
        str_field(",\"process\":"@, l.process),
        ",\"proto\":"@ + json_str(proto_name(l.proto)),
        num_field(",\"uptime_secs\":"@, opt_u64(l.uptime_secs)),
        str_field(",\"user\":"@, l.user) + "}"@,
    ]
}

/// The pieces from `i` to `j` put together.
pub open spec fn concat_range(p: Seq<Seq<char>>, i: int, j: int) -> Seq<char>
    decreases j - i,
{
    if j <= i {
        Seq::empty()
    } else {
        concat_range(p, i, j - 1) + p[j - 1]
    }
}

proof fn lemma_concat_range_split(p: Seq<Seq<char>>, i: int, k: int, j: int)
    requires
        i <= k <= j,
    ensures
        concat_range(p, i, j) == concat_range(p, i, k) + concat_range(p, k, j),
    decreases j - k,
{
    if k == j {
        assert(concat_range(p, i, k) + Seq::<char>::empty() =~= concat_range(p, i, k));
    } else {
        lemma_concat_range_split(p, i, k, j - 1);
        assert(concat_range(p, i, k) + concat_range(p, k, j - 1) + p[j - 1] =~= concat_range(
            p,
            i,
            k,
        ) + (concat_range(p, k, j - 1) + p[j - 1]));
    }
}

proof fn lemma_json_is_pieces(l: Listener)
    ensures
        listener_json(l) == concat_range(json_pieces(l), 0, 8),
{
    let p = json_pieces(l);
    reveal_with_fuel(concat_range, 9);
    assert(concat_range(p, 0, 8) =~= p[0] + p[1] + p[2] + p[3] + p[4] + p[5] + p[6] + p[7]);
    assert(listener_json(l) =~= p[0] + p[1] + p[2] + p[3] + p[4] + p[5] + p[6] + p[7]);
}

/// `s` splits as the pieces before `i`, piece `i`, and the pieces after it.
proof fn lemma_piece_splits(l: Listener, i: int)
    requires
        0 <= i < 8,
    ensures
        splits(
            listener_json(l),
            concat_range(json_pieces(l), 0, i),
            json_pieces(l)[i],
            concat_range(json_pieces(l), i + 1, 8),
        ),
{
    let p = json_pieces(l);
    lemma_json_is_pieces(l);
    lemma_concat_range_split(p, 0, i, 8);
    lemma_concat_range_split(p, i, i + 1, 8);
    assert(concat_range(p, i, i) =~= Seq::<char>::empty());
    assert(concat_range(p, i, i + 1) =~= p[i]);
    let a = concat_range(p, 0, i);
    let b = concat_range(p, i + 1, 8);
    assert(a + (p[i] + b) =~= a + p[i] + b);
}

/// A listener's JSON object holds each known field under its key: it opens with the
/// address, carries the port and the protocol name, the command right after the
/// address, the process name right before the protocol, the uptime, and closes with
/// the user.
pub proof fn lemma_listener_json_fields(l: Listener)
    ensures
        starts_with(listener_json(l), "{\"addr\":"@ + json_str(l.addr@)),
        exists|a: Seq<char>, b: Seq<char>|
            #[trigger] splits(listener_json(l), a, ",\"port\":"@ + dec(l.port as nat), b),
        exists|a: Seq<char>, b: Seq<char>|
            #[trigger] splits(listener_json(l), a, ",\"proto\":"@ + json_str(proto_name(l.proto)), b),
        l.command is Some ==> exists|b: Seq<char>|
            #[trigger] splits(
                listener_json(l),
                "{\"addr\":"@ + json_str(l.addr@),
                ",\"command\":"@ + json_str(l.command->0@),
                b,
            ),
        l.process is Some ==> exists|a: Seq<char>, b: Seq<char>|
            #[trigger] splits(
                listener_json(l),
                a,
                ",\"process\":"@ + json_str(l.process->0@) + ",\"proto\":"@,
                b,
            ),
        l.uptime_secs is Some ==> exists|a: Seq<char>, b: Seq<char>|
            #[trigger] splits(
                listener_json(l),
                a,
                ",\"uptime_secs\":"@ + dec(l.uptime_secs->0 as nat),
                b,
            ),
        l.user is Some ==> exists|a: Seq<char>|
            #[trigger] splits(
                listener_json(l),
                a,
                ",\"user\":"@ + json_str(l.user->0@) + "}"@,
                Seq::empty(),
            ),
{
    let p = json_pieces(l);
    let j = listener_json(l);
    lemma_piece_splits(l, 0);
    assert(concat_range(p, 0, 0) =~= Seq::<char>::empty());
    assert(j.subrange(0, p[0].len() as int) =~= p[0]);
    lemma_piece_splits(l, 3);
    lemma_piece_splits(l, 5);
    if l.command is Some {
        lemma_piece_splits(l, 1);
        assert(concat_range(p, 0, 1) =~= p[0]);
    }
    if l.process is Some {
        lemma_piece_splits(l, 4);
        let a = concat_range(p, 0, 4);
        let b = concat_range(p, 5, 8);
        lemma_concat_range_split(p, 5, 6, 8);
        assert(concat_range(p, 5, 5) =~= Seq::<char>::empty());
        assert(concat_range(p, 5, 6) == concat_range(p, 5, 5) + p[5]);
        assert(concat_range(p, 5, 6) =~= p[5]);
        let mid = ",\"process\":"@ + json_str(l.process->0@) + ",\"proto\":"@;
        let rest = json_str(proto_name(l.proto)) + concat_range(p, 6, 8);
        assert(j =~= a + mid + rest);
        assert(splits(j, a, mid, rest));
    }
    if l.uptime_secs is Some {
        lemma_piece_splits(l, 6);
    }
    if l.user is Some {
        lemma_piece_splits(l, 7);
        assert(concat_range(p, 8, 8) =~= Seq::<char>::empty());
    }
}

/// The UPTIME column of a table row shows `-` exactly for an unknown uptime: a row
/// ends with ` -`, nine spaces and the address when the uptime is unknown, and
/// otherwise with a space, the humanized uptime padded to nine, a space and the
/// address, that duration starting with a digit.
pub proof fn lemma_listener_row_uptime(l: Listener)
    ensures
        l.uptime_secs is None ==> ends_with(
            listener_row(l),
            seq![' ', '-'] + spaces(9) + l.addr@,
        ),
        l.uptime_secs is Some ==> ends_with(
            listener_row(l),
            seq![' '] + pad_spec(humanize_spec(l.uptime_secs->0 as nat), 9) + seq![' '] + l.addr@,
        ),
        l.uptime_secs is Some ==> is_digit(humanize_spec(l.uptime_secs->0 as nat)[0]),
{
    reveal_strlit(" ");
    reveal_strlit("-");
    let c5 = match l.uptime_secs {
        Some(u) => humanize_spec(u as nat),
        None => "-"@,
    };
    let row = listener_row(l);
    let t = " "@ + pad_spec(c5, 9) + " "@ + l.addr@;
    let pre = pad_spec(dec(l.port as nat), 6) + " "@ + pad_spec(proto_name(l.proto), 5) + " "@
        + pad_spec(
        match l.pid {
            Some(p) => dec(p as nat),
            None => "-"@,
        },
        8,
    ) + " "@ + pad_spec(truncate_spec(or_dash(l.process), 22), 22) + " "@ + pad_spec(
        truncate_spec(or_dash(l.user), 10),
        10,
    );
    assert(row =~= pre + t);
    assert(row.subrange(row.len() - t.len(), row.len() as int) =~= t);
    match l.uptime_secs {
        Some(u) => {
            assert(" "@ =~= seq![' ']);
            assert(t =~= seq![' '] + pad_spec(humanize_spec(u as nat), 9) + seq![' '] + l.addr@);
            let secs = u as nat;
            let d = secs / 86400;
            let h = (secs % 86400) / 3600;
            let m = (secs % 3600) / 60;
            let s = secs % 60;
            lemma_dec_reads_back(d);
            lemma_dec_reads_back(h);
            lemma_dec_reads_back(m);
            lemma_dec_reads_back(s);
            assert(is_digit(dec(d)[0]) && is_digit(dec(h)[0]) && is_digit(dec(m)[0]) && is_digit(
                dec(s)[0],
            ));
        },
        None => {
            assert(pad_spec("-"@, 9) =~= seq!['-'] + spaces(8));
            assert(t =~= seq![' ', '-'] + spaces(9) + l.addr@);
        },
    }
}

/// Whether `t` is the number `a` with unit `ua` followed by `b` with unit `ub`.
pub open spec fn two_units(t: Seq<char>, a: nat, ua: Seq<char>, b: nat, ub: Seq<char>) -> bool {
    t == dec(a) + ua + dec(b) + ub
}

/// A duration is shown in its two largest units, rounded down: days and hours from
/// a day on, hours and minutes from an hour on, minutes and seconds from a minute
/// on, and plain seconds below that. The larger unit is at least one and the smaller
/// one stays below its limit, and the time they make is at most the duration and
/// less than one more of the smaller unit.
pub proof fn lemma_humanize_rounds_down(secs: nat)
    ensures
        secs >= 86400 ==> exists|a: nat, b: nat|
            #[trigger] two_units(humanize_spec(secs), a, "d"@, b, "h"@) && a >= 1 && b < 24 && a
                * 86400 + b * 3600 <= secs < a * 86400 + (b + 1) * 3600,
        3600 <= secs < 86400 ==> exists|a: nat, b: nat|
            #[trigger] two_units(humanize_spec(secs), a, "h"@, b, "m"@) && 1 <= a < 24 && b < 60
                && a * 3600 + b * 60 <= secs < a * 3600 + (b + 1) * 60,
        60 <= secs < 3600 ==> exists|a: nat, b: nat|
            #[trigger] two_units(humanize_spec(secs), a, "m"@, b, "s"@) && 1 <= a < 60 && b < 60
                && a * 60 + b == secs,
        secs < 60 ==> humanize_spec(secs) == dec(secs) + "s"@,
{
    let d = secs / 86400;
    let h = (secs % 86400) / 3600;
    let m = (secs % 3600) / 60;
    let s = secs % 60;
    assert(d * 86400 + secs % 86400 == secs) by (nonlinear_arith)
        requires
            d == secs / 86400,
    ;
    assert(secs % 86400 < 86400) by (nonlinear_arith);
    assert(h * 3600 + (secs % 86400) % 3600 == secs % 86400) by (nonlinear_arith)
        requires
            h == (secs % 86400) / 3600,
    ;
    assert((secs % 86400) % 3600 < 3600) by (nonlinear_arith);
    assert((secs % 86400) % 3600 == secs % 3600) by (nonlinear_arith);
    assert(m * 60 + (secs % 3600) % 60 == secs % 3600) by (nonlinear_arith)
        requires
            m == (secs % 3600) / 60,
    ;
    assert((secs % 3600) % 60 == secs % 60) by (nonlinear_arith);
    assert(secs % 60 < 60) by (nonlinear_arith);
    assert(h < 24) by (nonlinear_arith)
        requires
            h == (secs % 86400) / 3600,
            secs % 86400 < 86400,
    ;
    assert(m < 60) by (nonlinear_arith)
        requires
            m == (secs % 3600) / 60,
            secs % 3600 < 3600,
    ;
    if secs >= 86400 {
        assert(d >= 1) by (nonlinear_arith)
            requires
                d == secs / 86400,
                secs >= 86400,
        ;
        assert(two_units(humanize_spec(secs), d, "d"@, h, "h"@));
    } else if secs >= 3600 {
        assert(d == 0) by (nonlinear_arith)
            requires
                d == secs / 86400,
                secs < 86400,
        ;
        assert(secs % 86400 == secs) by (nonlinear_arith)
            requires
                secs < 86400,
        ;
        assert(h >= 1);
        assert(two_units(humanize_spec(secs), h, "h"@, m, "m"@));
    } else if secs >= 60 {
        assert(d == 0 && secs % 86400 == secs && h == 0) by (nonlinear_arith)
            requires
                d == secs / 86400,
                h == (secs % 86400) / 3600,
                secs < 3600,
        ;
        assert(secs % 3600 == secs) by (nonlinear_arith)
            requires
                secs < 3600,
        ;
        assert(m >= 1);
        assert(two_units(humanize_spec(secs), m, "m"@, s, "s"@));
    } else {
        assert(d == 0 && h == 0 && m == 0 && s == secs) by (nonlinear_arith)
            requires
                d == secs / 86400,
                h == (secs % 86400) / 3600,
                m == (secs % 3600) / 60,
                s == secs % 60,
                secs < 60,
        ;
    }
}

// ---- line laws --------------------------------------------------------------

proof fn lemma_truncate_no_newline(s: Seq<char>, max: nat)
    requires
        no_newline(s),
    ensures
        no_newline(truncate_spec(s, max)),
{
    reveal_strlit("…");
    if s.len() > max {
        let k: int = if max >= 1 { max - 1 } else { 0 };
        let t = s.take(k);
        assert forall|i: int| 0 <= i < t.len() implies t[i] != '\n' by {
            assert(t[i] == s[i]);
        }
        assert(no_newline("…"@));
        lemma_no_newline_add(t, "…"@);
    }
}

proof fn lemma_humanize_no_newline(secs: nat)
    ensures
        no_newline(humanize_spec(secs)),
{
    reveal_strlit("d");
    reveal_strlit("h");
    reveal_strlit("m");
    reveal_strlit("s");
    let d = secs / 86400;
    let h = (secs % 86400) / 3600;
    let m = (secs % 3600) / 60;
    let s = secs % 60;
    lemma_dec_no_newline(d);
    lemma_dec_no_newline(h);
    lemma_dec_no_newline(m);
    lemma_dec_no_newline(s);
    assert(no_newline("d"@) && no_newline("h"@) && no_newline("m"@) && no_newline("s"@));
    if d > 0 {
        lemma_no_newline_add(dec(d), "d"@);
        lemma_no_newline_add(dec(d) + "d"@, dec(h));
        lemma_no_newline_add(dec(d) + "d"@ + dec(h), "h"@);
    } else if h > 0 {
        lemma_no_newline_add(dec(h), "h"@);
        lemma_no_newline_add(dec(h) + "h"@, dec(m));
        lemma_no_newline_add(dec(h) + "h"@ + dec(m), "m"@);
    } else if m > 0 {
        lemma_no_newline_add(dec(m), "m"@);
        lemma_no_newline_add(dec(m) + "m"@, dec(s));
        lemma_no_newline_add(dec(m) + "m"@ + dec(s), "s"@);
    } else {
        lemma_no_newline_add(dec(s), "s"@);
    }
}

proof fn lemma_row_no_newline(
    c0: Seq<char>,
    c1: Seq<char>,
    c2: Seq<char>,
    c3: Seq<char>,
    c4: Seq<char>,
    c5: Seq<char>,
    c6: Seq<char>,
)
    requires
        no_newline(c0),
        no_newline(c1),
        no_newline(c2),
        no_newline(c3),
        no_newline(c4),
        no_newline(c5),
        no_newline(c6),
    ensures
        no_newline(row_spec(c0, c1, c2, c3, c4, c5, c6)),
{
    reveal_strlit(" ");
    let sp = " "@;
    assert(no_newline(sp));
    lemma_pad_no_newline(c0, 6);
    lemma_pad_no_newline(c1, 5);
    lemma_pad_no_newline(c2, 8);
    lemma_pad_no_newline(c3, 22);
    lemma_pad_no_newline(c4, 10);
    lemma_pad_no_newline(c5, 9);
    let p0 = pad_spec(c0, 6);
    let p1 = pad_spec(c1, 5);
    let p2 = pad_spec(c2, 8);
    let p3 = pad_spec(c3, 22);
    let p4 = pad_spec(c4, 10);
    let p5 = pad_spec(c5, 9);
    lemma_no_newline_add(p0, sp);
    lemma_no_newline_add(p0 + sp, p1);
    lemma_no_newline_add(p0 + sp + p1, sp);
    lemma_no_newline_add(p0 + sp + p1 + sp, p2);
    lemma_no_newline_add(p0 + sp + p1 + sp + p2, sp);
    lemma_no_newline_add(p0 + sp + p1 + sp + p2 + sp, p3);
    lemma_no_newline_add(p0 + sp + p1 + sp + p2 + sp + p3, sp);
    lemma_no_newline_add(p0 + sp + p1 + sp + p2 + sp + p3 + sp, p4);
    lemma_no_newline_add(p0 + sp + p1 + sp + p2 + sp + p3 + sp + p4, sp);
    lemma_no_newline_add(p0 + sp + p1 + sp + p2 + sp + p3 + sp + p4 + sp, p5);
    lemma_no_newline_add(p0 + sp + p1 + sp + p2 + sp + p3 + sp + p4 + sp + p5, sp);
    lemma_no_newline_add(p0 + sp + p1 + sp + p2 + sp + p3 + sp + p4 + sp + p5 + sp, c6);
}

/// Whether a listener's text fields hold no line break.
pub open spec fn listener_single_line(l: Listener) -> bool {
    &&& no_newline(l.addr@)
    &&& l.process is Some ==> no_newline(l.process->0@)
    &&& l.user is Some ==> no_newline(l.user->0@)
}

proof fn lemma_listener_row_no_newline(l: Listener)
    requires
        listener_single_line(l),
    ensures
        no_newline(listener_row(l)),
{
    reveal_strlit("-");
    reveal_strlit("tcp");
    reveal_strlit("udp");
    assert(no_newline("-"@));
    assert(no_newline(proto_name(l.proto)));
    lemma_dec_no_newline(l.port as nat);
    match l.pid {
        Some(p) => lemma_dec_no_newline(p as nat),
        None => {},
    }
    match l.uptime_secs {
        Some(u) => lemma_humanize_no_newline(u as nat),
        None => {},
    }
    lemma_truncate_no_newline(or_dash(l.process), 22);
    lemma_truncate_no_newline(or_dash(l.user), 10);
    lemma_row_no_newline(
        dec(l.port as nat),
        proto_name(l.proto),
        match l.pid {
            Some(p) => dec(p as nat),
            None => "-"@,
        },
        truncate_spec(or_dash(l.process), 22),
        truncate_spec(or_dash(l.user), 10),
        match l.uptime_secs {
            Some(u) => humanize_spec(u as nat),
            None => "-"@,
        },
        l.addr@,
    );
}

/// The table of `n >= 1` listeners whose address, process and user hold no line
/// break has `n + 1` lines: the header, then one row per listener in order.
pub proof fn lemma_listener_table_lines(ls: Seq<Listener>)
    requires
        ls.len() >= 1,
        forall|i: int| 0 <= i < ls.len() ==> listener_single_line(#[trigger] ls[i]),
    ensures
        lines(listener_table_spec(ls)) == seq![header_spec()] + ls.map_values(
            |l: Listener| listener_row(l),
        ),
        lines(listener_table_spec(ls)).len() == ls.len() + 1,
{
    reveal_strlit("PORT");
    reveal_strlit("PROTO");
    reveal_strlit("PID");
    reveal_strlit("PROCESS");
    reveal_strlit("USER");
    reveal_strlit("UPTIME");
    reveal_strlit("ADDRESS");
    assert(no_newline("PORT"@) && no_newline("PROTO"@) && no_newline("PID"@) && no_newline(
        "PROCESS"@,
    ) && no_newline("USER"@) && no_newline("UPTIME"@) && no_newline("ADDRESS"@));
    lemma_row_no_newline("PORT"@, "PROTO"@, "PID"@, "PROCESS"@, "USER"@, "UPTIME"@, "ADDRESS"@);
    let parts = seq![header_spec()] + ls.map_values(|l: Listener| listener_row(l));
    assert forall|i: int| 0 <= i < parts.len() implies no_newline(#[trigger] parts[i]) by {
        if i > 0 {
            lemma_listener_row_no_newline(ls[i - 1]);
        }
    }
    lemma_lines_of_join(parts);
}

/// Whether a kill result's text fields hold no line break.
pub open spec fn result_single_line(r: KillResult) -> bool {
    &&& no_newline(r.signal@)
    &&& r.process is Some ==> no_newline(r.process->0@)
    &&& r.error is Some ==> no_newline(r.error->0@)
}

proof fn lemma_kill_line_no_newline(r: KillResult)
    requires
        result_single_line(r),
    ensures
        no_newline(kill_line(r)),
{
    reveal_strlit("killed");
    reveal_strlit("failed to kill");
    reveal_strlit(" pid ");
    reveal_strlit(" (");
    reveal_strlit("?");
    reveal_strlit(") with SIG");
    reveal_strlit(": ");
    let verb = if r.ok {
        "killed"@
    } else {
        "failed to kill"@
    };
    let p = match r.process {
        Some(p) => p@,
        None => "?"@,
    };
    let e = match r.error {
        Some(e) => ": "@ + e@,
        None => Seq::empty(),
    };
    assert(no_newline(verb) && no_newline(" pid "@) && no_newline(" ("@) && no_newline(p)
        && no_newline(") with SIG"@));
    assert(no_newline(": "@));
    if r.error is Some {
        lemma_no_newline_add(": "@, r.error->0@);
    }
    assert(no_newline(e));
    lemma_dec_no_newline(r.pid as nat);
    lemma_no_newline_add(verb, " pid "@);
    lemma_no_newline_add(verb + " pid "@, dec(r.pid as nat));
    lemma_no_newline_add(verb + " pid "@ + dec(r.pid as nat), " ("@);
    lemma_no_newline_add(verb + " pid "@ + dec(r.pid as nat) + " ("@, p);
    lemma_no_newline_add(verb + " pid "@ + dec(r.pid as nat) + " ("@ + p, ") with SIG"@);
    lemma_no_newline_add(verb + " pid "@ + dec(r.pid as nat) + " ("@ + p + ") with SIG"@, r.signal@);
    lemma_no_newline_add(
        verb + " pid "@ + dec(r.pid as nat) + " ("@ + p + ") with SIG"@ + r.signal@,
        e,
    );
}

/// The kill summary has one line per result, in order, when no signal name, process
/// name or error message holds a line break; with no results it is empty.
pub proof fn lemma_kill_table_lines(rs: Seq<KillResult>)
    requires
        forall|i: int| 0 <= i < rs.len() ==> result_single_line(#[trigger] rs[i]),
    ensures
        rs.len() == 0 ==> kill_table_spec(rs) == Seq::<char>::empty(),
        rs.len() >= 1 ==> lines(kill_table_spec(rs)) == rs.map_values(|r: KillResult| kill_line(r)),
        rs.len() >= 1 ==> lines(kill_table_spec(rs)).len() == rs.len(),
{
    let parts = rs.map_values(|r: KillResult| kill_line(r));
    if rs.len() >= 1 {
        assert forall|i: int| 0 <= i < parts.len() implies no_newline(#[trigger] parts[i]) by {
            lemma_kill_line_no_newline(rs[i]);
        }
        lemma_lines_of_join(parts);
    }
}

} // verus!
