//! `scaler status` text: one row per run in the list, or the detail of
//! one run. The JSON form is written by the caller from the same views.

use vstd::prelude::*;
use crate::detach::state::{Meta, RunResult, RunState};
use crate::text::{
    digits, fixed, int_digits, join_lines, join_sep, join_strings, pad_left, pad_right,
    push_digits, push_fixed, push_int, push_padded, push_right_aligned, views, zero_pad,
};

verus! {

/// What a live run looks like right now.
#[derive(Debug, Clone, Copy, PartialEq, Eq, Structural)]
pub struct LiveSnapshot {
    pub cpu_total_nanos: Option<u128>,
    pub memory_current_bytes: Option<u64>,
    pub elapsed_secs: Option<u64>,
}

/// One run: its `meta.json`, and either its `result.json`, a live
/// snapshot, or neither (`gone`).
#[derive(Debug, Clone)]
pub struct RunView {
    pub meta: Meta,
    pub result: Option<RunResult>,
    pub live: Option<LiveSnapshot>,
    pub gone: bool,
}

#[derive(Debug, Clone, Copy, PartialEq, Eq, Structural)]
pub enum DisplayState {
    Running,
    Exited(i32),
    Killed,
    LaunchFailed,
    Gone,
}

pub open spec fn display_state_spec(v: RunView) -> DisplayState {
    match v.result {
        Some(r) => match r.state {
            RunState::Exited => DisplayState::Exited(match r.exit_code { Some(c) => c, None => 0 }),
            RunState::Killed => DisplayState::Killed,
            RunState::LaunchFailed => DisplayState::LaunchFailed,
        },
        None => if v.gone { DisplayState::Gone } else { DisplayState::Running },
    }
}

impl RunView {
    /// The state shown for the run: the recorded result wins, then
    /// `gone`, else running.
    pub fn display_state(&self) -> (r: DisplayState)
        ensures
            r == display_state_spec(*self),
    {
        match &self.result {
            Some(r) => match r.state {
                RunState::Exited => DisplayState::Exited(match r.exit_code { Some(c) => c, None => 0 }),
                RunState::Killed => DisplayState::Killed,
                RunState::LaunchFailed => DisplayState::LaunchFailed,
            },
            None => if self.gone { DisplayState::Gone } else { DisplayState::Running },
        }
    }
}

/// The view of one run from what was found on disk: the result when
/// `result.json` exists, else a live snapshot when the recorded process
/// still answers, else gone.
pub fn query_view(meta: Meta, result: Option<RunResult>, process_alive: bool, live: Option<LiveSnapshot>) -> (r: RunView)
    ensures
        r.meta == meta,
        result.is_some() ==> r.result == result && r.live.is_none() && !r.gone,
        result.is_none() && process_alive ==> r.result.is_none() && r.live == live && !r.gone,
        result.is_none() && !process_alive ==> r.result.is_none() && r.live.is_none() && r.gone,
{
    if result.is_some() {
        RunView { meta, result, live: None, gone: false }
    } else if process_alive {
        RunView { meta, result: None, live, gone: false }
    } else {
        RunView { meta, result: None, live: None, gone: true }
    }
}

pub open spec fn state_short(s: DisplayState) -> Seq<char> {
    match s {
        DisplayState::Running => "running"@,
        DisplayState::Exited(c) => "exited("@ + int_digits(c as int) + ")"@,
        DisplayState::Killed => "killed"@,
        DisplayState::LaunchFailed => "launch_failed"@,
        DisplayState::Gone => "gone"@,
    }
}

pub fn format_state_short(s: DisplayState) -> (r: String)
    ensures
        r@ == state_short(s),
{
    match s {
        DisplayState::Running => "running".to_owned(),
        DisplayState::Exited(c) => {
            let mut t = "exited(".to_owned();
            push_int(&mut t, c as i64);
            t.append(")");
            t
        },
        DisplayState::Killed => "killed".to_owned(),
        DisplayState::LaunchFailed => "launch_failed".to_owned(),
        DisplayState::Gone => "gone".to_owned(),
    }
}

/// `1h02m03s`, `2m05s` or `42s`.
pub open spec fn secs_text(total: nat) -> Seq<char> {
    let h = total / 3600;
    let m = (total % 3600) / 60;
    let s = total % 60;
    if h > 0 {
        digits(h) + "h"@ + zero_pad(digits(m), 2) + "m"@ + zero_pad(digits(s), 2) + "s"@
    } else if m > 0 {
        digits(m) + "m"@ + zero_pad(digits(s), 2) + "s"@
    } else {
        digits(s) + "s"@
    }
}

fn push_two_digits(s: &mut String, n: u64)
    requires
        n < 100,
    ensures
        final(s)@ == old(s)@ + zero_pad(digits(n as nat), 2),
{
    if n < 10 {
        s.append("0");
        push_digits(s, n as u128);
        proof {
            reveal_strlit("0");
        }
        assert(zero_pad(digits(n as nat), 2) =~= seq!['0'] + digits(n as nat));
    } else {
        push_digits(s, n as u128);
        assert(digits(n as nat) =~= digits((n / 10) as nat).push(crate::text::digit_char((n % 10) as nat)));
        assert(digits(n as nat).len() == 2);
    }
}

/// A number of seconds as hours, minutes and seconds.
pub fn format_secs(total: u64) -> (r: String)
    ensures
        r@ == secs_text(total as nat),
{
    let h = total / 3600;
    let m = (total % 3600) / 60;
    let sec = total % 60;
    let mut s = String::new();
    if h > 0 {
        push_digits(&mut s, h as u128);
        s.append("h");
        push_two_digits(&mut s, m);
        s.append("m");
        push_two_digits(&mut s, sec);
        s.append("s");
    } else if m > 0 {
        push_digits(&mut s, m as u128);
        s.append("m");
        push_two_digits(&mut s, sec);
        s.append("s");
    } else {
        push_digits(&mut s, sec as u128);
        s.append("s");
    }
    assert(s@ =~= secs_text(total as nat));
    s
}

/// Bytes as whole MiB below one GiB (`512 MiB`), else GiB with two
/// decimals (`1.50 GiB`), rounded half to even.
pub open spec fn mib_text(bytes: nat) -> Seq<char> {
    if bytes >= 1073741824 {
        fixed(bytes, 1073741824, 2) + " GiB"@
    } else {
        fixed(bytes, 1048576, 0) + " MiB"@
    }
}

pub fn format_mib(bytes: u64) -> (r: String)
    ensures
        r@ == mib_text(bytes as nat),
{
    let mut s = String::new();
    if bytes >= 1073741824 {
        push_fixed(&mut s, bytes as u128, 1073741824, 2);
        s.append(" GiB");
    } else {
        push_fixed(&mut s, bytes as u128, 1048576, 0);
        s.append(" MiB");
    }
    s
}

/// The seconds named by a unix timestamp of RFC 3339 text, as the `time`
/// crate parses it.
pub uninterp spec fn rfc3339_unix_timestamp(text: Seq<char>) -> Option<i64>;

/// Parses RFC 3339 text (`OffsetDateTime::parse` with `Rfc3339`) and
/// gives its unix timestamp. The contract names the result only.
#[verifier::external_body]
fn parse_rfc3339(text: &str) -> (r: Option<i64>)
    ensures
        r == rfc3339_unix_timestamp(text@),
{
    time::OffsetDateTime::parse(text, &time::format_description::well_known::Rfc3339)
        .ok()
        .map(|dt| dt.unix_timestamp())
}

/// The duration column: the run time from start to end when both
/// timestamps are known, else the live elapsed time, else `-`.
pub open spec fn duration_column(finished: bool, started: Option<i64>, ended: Option<i64>, live_elapsed: Option<u64>) -> Seq<char> {
    if finished && started is Some && ended is Some {
        let d = ended.unwrap() - started.unwrap();
        secs_text(if d > 0 { d as nat } else { 0 })
    } else {
        match live_elapsed {
            Some(secs) => secs_text(secs as nat),
            None => "-"@,
        }
    }
}

/// The duration column from already parsed timestamps.
pub fn duration_from_timestamps(finished: bool, started: Option<i64>, ended: Option<i64>, live_elapsed: Option<u64>) -> (r: String)
    ensures
        r@ == duration_column(finished, started, ended, live_elapsed),
{
    if finished {
        if let (Some(s), Some(e)) = (started, ended) {
            let d = (e as i128) - (s as i128);
            let secs: u64 = if d > 0 { d as u64 } else { 0 };
            return format_secs(secs);
        }
    }
    match live_elapsed {
        Some(secs) => format_secs(secs),
        None => "-".to_owned(),
    }
}

pub open spec fn view_duration(v: RunView) -> Seq<char> {
    match v.result {
        Some(r) => duration_column(true, rfc3339_unix_timestamp(v.meta.started@),
            rfc3339_unix_timestamp(r.ended@), match v.live { Some(l) => l.elapsed_secs, None => None }),
        None => duration_column(false, None, None, match v.live { Some(l) => l.elapsed_secs, None => None }),
    }
}

/// The duration column of a run.
pub fn format_duration_from_view(v: &RunView) -> (r: String)
    ensures
        r@ == view_duration(*v),
{
    let live_elapsed = match &v.live { Some(l) => l.elapsed_secs, None => None };
    match &v.result {
        Some(res) => {
            let started = parse_rfc3339(v.meta.started.as_str());
            let ended = parse_rfc3339(res.ended.as_str());
            duration_from_timestamps(true, started, ended, live_elapsed)
        },
        None => duration_from_timestamps(false, None, None, live_elapsed),
    }
}

/// `<id>  <state padded to 14>  <duration right-aligned in 8>  <command>`.
pub open spec fn list_row(v: RunView) -> Seq<char> {
    v.meta.id@ + "  "@ + pad_right(state_short(display_state_spec(v)), 14) + "  "@
        + pad_left(view_duration(v), 8) + "  "@ + join_sep(views(v.meta.command@), " "@)
}

pub fn format_list_row(v: &RunView) -> (r: String)
    ensures
        r@ == list_row(*v),
{
    let state = format_state_short(v.display_state());
    let duration = format_duration_from_view(v);
    let cmd = join_strings(&v.meta.command, " ");
    let mut s = v.meta.id.clone();
    s.append("  ");
    push_padded(&mut s, state.as_str(), 14);
    s.append("  ");
    push_right_aligned(&mut s, duration.as_str(), 8);
    s.append("  ");
    s.append(cmd.as_str());
    s
}

/// The text form of the list: one row per run, each ending in a newline.
pub open spec fn list_text(views_: Seq<RunView>) -> Seq<char>
    decreases views_.len(),
{
    if views_.len() == 0 {
        Seq::empty()
    } else {
        list_text(views_.drop_last()) + list_row(views_.last()) + "\n"@
    }
}

pub fn render_list_text(runs: &Vec<RunView>) -> (r: String)
    ensures
        r@ == list_text(runs@),
{
    let mut out = String::new();
    let mut i: usize = 0;
    while i < runs.len()
        invariant
            i <= runs@.len(),
            out@ == list_text(runs@.take(i as int)),
        decreases runs@.len() - i,
    {
        let row = format_list_row(&runs[i]);
        out.append(row.as_str());
        out.append("\n");
        assert(runs@.take(i + 1).drop_last() =~= runs@.take(i as int));
        i = i + 1;
    }
    assert(runs@.take(runs@.len() as int) =~= runs@);
    out
}


/// Each line followed by a newline.
pub open spec fn terminated(lines: Seq<Seq<char>>) -> Seq<char>
    decreases lines.len(),
{
    if lines.len() == 0 {
        Seq::empty()
    } else {
        terminated(lines.drop_last()) + lines.last() + "\n"@
    }
}

pub fn terminate_lines(lines: &Vec<String>) -> (r: String)
    ensures
        r@ == terminated(views(lines@)),
{
    let mut out = String::new();
    let mut i: usize = 0;
    while i < lines.len()
        invariant
            i <= lines@.len(),
            out@ == terminated(views(lines@).take(i as int)),
        decreases lines@.len() - i,
    {
        out.append(lines[i].as_str());
        out.append("\n");
        let ghost t = views(lines@).take(i + 1);
        assert(t.drop_last() =~= views(lines@).take(i as int));
        assert(t.last() == lines@[i as int]@);
        i = i + 1;
    }
    assert(views(lines@).take(lines@.len() as int) =~= views(lines@));
    out
}

/// Whole seconds of CPU time, as the detail view shows them.
pub open spec fn cpu_secs(nanos: u128) -> nat {
    ((nanos / 1_000_000_000) as u64) as nat
}

pub open spec fn cpu_limit_text(limit: Option<u32>) -> Seq<char> {
    match limit {
        Some(c) => fixed(c as nat, 100, 2) + "c"@,
        None => "-"@,
    }
}

pub open spec fn mem_limit_text(limit: Option<u64>) -> Seq<char> {
    match limit {
        Some(b) => mib_text(b as nat),
        None => "-"@,
    }
}

/// CPU total and peak memory of a finished run, where recorded.
pub open spec fn final_metric_lines(r: RunResult) -> Seq<Seq<char>> {
    (match r.cpu_total_nanos {
        Some(ns) => seq!["cpu:      total "@ + secs_text(cpu_secs(ns))],
        None => Seq::empty(),
    }) + (match r.memory_peak_bytes {
        Some(p) => seq!["memory:   peak "@ + mib_text(p as nat)],
        None => Seq::empty(),
    })
}

/// The detail view of a finished run shows its recorded CPU time in
/// whole seconds (nanoseconds divided by 10^9), written exactly as the
/// CPU total of a live run with the same nanoseconds.
pub proof fn lemma_final_cpu_total_in_seconds(r: RunResult, ns: u128)
    requires
        r.cpu_total_nanos == Some(ns),
    ensures
        final_metric_lines(r).len() >= 1,
        final_metric_lines(r)[0] == "cpu:      total "@ + secs_text(((ns / 1_000_000_000) as u64) as nat),
        final_metric_lines(r)[0] == live_lines(Some(LiveSnapshot {
            cpu_total_nanos: Some(ns),
            memory_current_bytes: None,
            elapsed_secs: None,
        }))[0],
{
}

/// Current memory, CPU total and elapsed time of a live run.
pub open spec fn live_lines(live: Option<LiveSnapshot>) -> Seq<Seq<char>> {
    match live {
        Some(l) => (match l.memory_current_bytes {
            Some(m) => seq!["memory:   current "@ + mib_text(m as nat)],
            None => Seq::empty(),
        }) + (match l.cpu_total_nanos {
            Some(ns) => seq!["cpu:      total "@ + secs_text(cpu_secs(ns))],
            None => Seq::empty(),
        }) + (match l.elapsed_secs {
            Some(e) => seq!["elapsed:  "@ + secs_text(e as nat)],
            None => Seq::empty(),
        }),
        None => Seq::empty(),
    }
}

pub open spec fn state_lines(v: RunView) -> Seq<Seq<char>> {
    match display_state_spec(v) {
        DisplayState::Running => seq!["state:    running"@] + live_lines(v.live),
        DisplayState::Exited(c) => seq!["ended:    "@ + v.result.unwrap().ended@, "state:    exited("@ + int_digits(c as int) + ")"@]
            + final_metric_lines(v.result.unwrap()),
        DisplayState::Killed => seq!["ended:    "@ + v.result.unwrap().ended@,
            "state:    killed("@ + (match v.result.unwrap().signal { Some(sig) => sig@, None => "?"@ }) + ")"@]
            + final_metric_lines(v.result.unwrap()),
        DisplayState::LaunchFailed => seq!["state:    launch_failed"@] + (match v.result.unwrap().launch_error {
            Some(e) => seq!["error:    "@ + e@],
            None => Seq::empty(),
        }),
        DisplayState::Gone => seq!["state:    gone (no result.json and process is not running)"@],
    }
}

/// The lines of the detail view of one run.
pub open spec fn detail_lines(v: RunView) -> Seq<Seq<char>> {
    let m = v.meta;
    seq![
        "id:       "@ + m.id@,
        "command:  "@ + join_sep(views(m.command@), " "@),
        "limits:   cpu="@ + cpu_limit_text(m.cpu_limit_centi_cores) + "  mem="@ + mem_limit_text(m.mem_limit_bytes),
        "backend:  "@ + m.backend@ + " ("@ + m.backend_state@ + ")"@,
        "started:  "@ + m.started@,
    ] + state_lines(v) + seq!["stdout:   "@ + m.stdout_log@, "stderr:   "@ + m.stderr_log@]
}

fn line_of(label: &str, value: &str) -> (r: String)
    ensures
        r@ == label@ + value@,
{
    let mut s = label.to_owned();
    s.append(value);
    s
}

fn push_final_metrics(lines: &mut Vec<String>, r: &RunResult)
    ensures
        views(final(lines)@) == views(old(lines)@) + final_metric_lines(*r),
{
    let ghost start = views(lines@);
    if let Some(ns) = r.cpu_total_nanos {
        let secs = format_secs((ns / 1_000_000_000) as u64);
        lines.push(line_of("cpu:      total ", secs.as_str()));
    }
    let ghost mid = views(lines@);
    if let Some(p) = r.memory_peak_bytes {
        let mib = format_mib(p);
        lines.push(line_of("memory:   peak ", mib.as_str()));
    }
    assert(views(lines@) =~= start + final_metric_lines(*r));
}

fn push_live(lines: &mut Vec<String>, live: &Option<LiveSnapshot>)
    ensures
        views(final(lines)@) == views(old(lines)@) + live_lines(*live),
{
    let ghost start = views(lines@);
    if let Some(l) = live {
        if let Some(mc) = l.memory_current_bytes {
            let mib = format_mib(mc);
            lines.push(line_of("memory:   current ", mib.as_str()));
        }
        if let Some(ns) = l.cpu_total_nanos {
            let secs = format_secs((ns / 1_000_000_000) as u64);
            lines.push(line_of("cpu:      total ", secs.as_str()));
        }
        if let Some(e) = l.elapsed_secs {
            let secs = format_secs(e);
            lines.push(line_of("elapsed:  ", secs.as_str()));
        }
    }
    assert(views(lines@) =~= start + live_lines(*live));
}

/// The lines of the detail view, without newlines.
pub fn detail_text_lines(v: &RunView) -> (r: Vec<String>)
    ensures
        views(r@) == detail_lines(*v),
{
    let m = &v.meta;
    let mut lines: Vec<String> = Vec::new();
    lines.push(line_of("id:       ", m.id.as_str()));
    let cmd = join_strings(&m.command, " ");
    lines.push(line_of("command:  ", cmd.as_str()));
    let cpu = match m.cpu_limit_centi_cores {
        Some(c) => {
            let mut t = String::new();
            push_fixed(&mut t, c as u128, 100, 2);
            t.append("c");
            t
        },
        None => "-".to_owned(),
    };
    let mem = match m.mem_limit_bytes {
        Some(b) => format_mib(b),
        None => "-".to_owned(),
    };
    let mut limits = line_of("limits:   cpu=", cpu.as_str());
    limits.append("  mem=");
    limits.append(mem.as_str());
    lines.push(limits);
    let mut backend = line_of("backend:  ", m.backend.as_str());
    backend.append(" (");
    backend.append(m.backend_state.as_str());
    backend.append(")");
    lines.push(backend);
    lines.push(line_of("started:  ", m.started.as_str()));
    let ghost head = views(lines@);
    assert(head =~= seq![
        "id:       "@ + m.id@,
        "command:  "@ + join_sep(views(m.command@), " "@),
        "limits:   cpu="@ + cpu_limit_text(m.cpu_limit_centi_cores) + "  mem="@ + mem_limit_text(m.mem_limit_bytes),
        "backend:  "@ + m.backend@ + " ("@ + m.backend_state@ + ")"@,
        "started:  "@ + m.started@,
    ]);
    match v.display_state() {
        DisplayState::Running => {
            lines.push("state:    running".to_owned());
            push_live(&mut lines, &v.live);
        },
        DisplayState::Exited(c) => {
            let r = v.result.as_ref().unwrap();
            lines.push(line_of("ended:    ", r.ended.as_str()));
            let mut st = "state:    exited(".to_owned();
            push_int(&mut st, c as i64);
            st.append(")");
            lines.push(st);
            push_final_metrics(&mut lines, r);
        },
        DisplayState::Killed => {
            let r = v.result.as_ref().unwrap();
            lines.push(line_of("ended:    ", r.ended.as_str()));
            let mut st = "state:    killed(".to_owned();
            match &r.signal {
                Some(sig) => st.append(sig.as_str()),
                None => st.append("?"),
            }
            st.append(")");
            lines.push(st);
            push_final_metrics(&mut lines, r);
        },
        DisplayState::LaunchFailed => {
            let r = v.result.as_ref().unwrap();
            lines.push("state:    launch_failed".to_owned());
            if let Some(e) = &r.launch_error {
                lines.push(line_of("error:    ", e.as_str()));
            }
        },
        DisplayState::Gone => {
            lines.push("state:    gone (no result.json and process is not running)".to_owned());
        },
    }
    assert(views(lines@) =~= head + state_lines(*v));
    let ghost body = views(lines@);
    lines.push(line_of("stdout:   ", m.stdout_log.as_str()));
    lines.push(line_of("stderr:   ", m.stderr_log.as_str()));
    assert(views(lines@) =~= body + seq!["stdout:   "@ + m.stdout_log@, "stderr:   "@ + m.stderr_log@]);
    assert(views(lines@) =~= detail_lines(*v));
    lines
}

/// The text form of the detail view: each line ends in a newline.
pub fn render_detail_text(v: &RunView) -> (r: String)
    ensures
        r@ == terminated(detail_lines(*v)),
{
    let lines = detail_text_lines(v);
    terminate_lines(&lines)
}

} // verus!
