//! macOS detach path: the run is daemonised by the caller (double fork)
//! and supervised in-process; this module holds the records it writes
//! and the parsing of the `ps` snapshot of a live run.

use vstd::prelude::*;
use crate::cli::status::LiveSnapshot;
use crate::detach::id::RunId;
use crate::detach::linux::{opt_string_view, signal_name, signal_name_spec, str_opt_view};
use crate::detach::state::{Meta, RunResult, RunState};
use crate::engine::types::{CapabilityLevel, ExitStatus, LaunchPlan, RunOutcome};
use crate::text::{
    find_char, lemma_segments, parse_bounded_spec, parse_unsigned, segment_after, segment_before,
    split_char, split_on, split_words, views, words,
};

verus! {

pub open spec fn u64_of(s: Seq<char>) -> Option<nat> {
    parse_bounded_spec(s, u64::MAX as nat)
}

/// The days, hours, minutes and seconds of a `ps` elapsed-time field:
/// `ss`, `mm:ss`, `hh:mm:ss` or `dd-hh:mm:ss`.
pub open spec fn etime_fields(s: Seq<char>) -> Option<(nat, nat, nat, nat)> {
    let days: Option<nat> = match segment_after(s, '-') {
        Some(_) => u64_of(segment_before(s, '-')),
        None => Some(0),
    };
    let rest = match segment_after(s, '-') {
        Some(r) => r,
        None => s,
    };
    let p = split_on(rest, ':');
    match days {
        None => None,
        Some(d) => if p.len() == 1 {
            match u64_of(p[0]) {
                Some(x) => Some((d, 0, 0, x)),
                None => None,
            }
        } else if p.len() == 2 {
            match (u64_of(p[0]), u64_of(p[1])) {
                (Some(m), Some(x)) => Some((d, 0, m, x)),
                _ => None,
            }
        } else if p.len() == 3 {
            match (u64_of(p[0]), u64_of(p[1]), u64_of(p[2])) {
                (Some(h), Some(m), Some(x)) => Some((d, h, m, x)),
                _ => None,
            }
        } else {
            None
        },
    }
}

/// The total number of seconds of a `ps` elapsed-time field.
pub open spec fn etime_seconds(s: Seq<char>) -> Option<nat> {
    match etime_fields(s) {
        Some((d, h, m, x)) => Some(d * 86400 + h * 3600 + m * 60 + x),
        None => None,
    }
}

pub open spec fn etime_fits(s: Seq<char>) -> bool {
    match etime_seconds(s) {
        Some(t) => t <= u64::MAX,
        None => true,
    }
}

/// The total seconds of a `ps` elapsed-time field, unbounded by `u64`.
fn etime_total(s: &str) -> (r: Option<u128>)
    ensures
        match etime_seconds(s@) {
            Some(t) => r == Some(t as u128),
            None => r is None,
        },
{
    let n = s.unicode_len();
    let dash = find_char(s, '-');
    let end = match dash { Some(i) => i, None => n };
    proof {
        lemma_segments(s@, '-', end as int);
    }
    let (days, rest) = match dash {
        Some(i) => {
            let head = s.substring_char(0, i);
            assert(head@ =~= s@.take(i as int));
            let tail = s.substring_char(i + 1, n);
            assert(tail@ =~= s@.skip(i + 1));
            match parse_unsigned(head, 0xffff_ffff_ffff_ffff) {
                Some(d) => (d as u64, tail),
                None => return None,
            }
        },
        None => (0u64, s),
    };
    assert(rest@ == (match segment_after(s@, '-') { Some(r) => r, None => s@ }));
    assert((match segment_after(s@, '-') { Some(_) => u64_of(segment_before(s@, '-')), None => Some(0nat) }) == Some(days as nat));
    let pieces = split_char(rest, ':');
    assert(views(pieces@) == split_on(rest@, ':'));
    proof {
        crate::text::lemma_split_from_nonempty(rest@, ':', Seq::empty());
    }
    let count = pieces.len();
    let mut values: Vec<u64> = Vec::new();
    if count > 3 {
        return None;
    }
    let mut i: usize = 0;
    while i < count
        invariant
            i <= count,
            count == pieces@.len(),
            count <= 3,
            count >= 1,
            rest@ == (match segment_after(s@, '-') { Some(r) => r, None => s@ }),
            (match segment_after(s@, '-') { Some(_) => u64_of(segment_before(s@, '-')), None => Some(0nat) }) == Some(days as nat),
            views(pieces@) == split_on(rest@, ':'),
            values@.len() == i,
            forall|k: int| 0 <= k < i ==> u64_of(#[trigger] pieces@[k]@) == Some(values@[k] as nat),
        decreases count - i,
    {
        match parse_unsigned(pieces[i].as_str(), 0xffff_ffff_ffff_ffff) {
            Some(v) => values.push(v as u64),
            None => {
                assert(u64_of(views(pieces@)[i as int]) is None);
                return None;
            },
        }
        i = i + 1;
    }
    proof {
        assert(views(pieces@)[0] == pieces@[0]@);
        if count >= 2 { assert(views(pieces@)[1] == pieces@[1]@); }
        if count >= 3 { assert(views(pieces@)[2] == pieces@[2]@); }
    }
    let (h, m, sec) = if count == 1 {
        (0u64, 0u64, values[0])
    } else if count == 2 {
        (0u64, values[0], values[1])
    } else {
        (values[0], values[1], values[2])
    };
    assert(etime_fields(s@) == Some((days as nat, h as nat, m as nat, sec as nat)));
    Some(days as u128 * 86400 + h as u128 * 3600 + m as u128 * 60 + sec as u128)
}

/// Parses the `etime` column of `ps` into seconds.
pub fn parse_ps_etime(s: &str) -> (r: Option<u64>)
    requires
        etime_fits(s@),
    ensures
        match etime_seconds(s@) {
            Some(t) => r == Some(t as u64),
            None => r is None,
        },
{
    match etime_total(s) {
        Some(t) => Some(t as u64),
        None => None,
    }
}

/// Whether the seconds of an elapsed-time field fit a `u64`.
pub fn etime_in_range(s: &str) -> (r: bool)
    ensures
        r == etime_fits(s@),
{
    match etime_total(s) {
        Some(t) => t <= 0xffff_ffff_ffff_ffff,
        None => true,
    }
}

/// The live snapshot of a run from `ps -o rss=,%cpu=,etime= -p <pid>`:
/// resident memory in KiB, CPU percent (unused), elapsed time.
pub open spec fn snapshot_spec(output: Seq<char>) -> LiveSnapshot {
    let w = words(output);
    let rss: nat = if w.len() > 0 { match u64_of(w[0]) { Some(v) => v, None => 0 } } else { 0 };
    let etime: Seq<char> = if w.len() > 2 { w[2] } else { Seq::empty() };
    LiveSnapshot {
        cpu_total_nanos: None,
        memory_current_bytes: Some((rss * 1024) as u64),
        elapsed_secs: match etime_seconds(etime) {
            Some(t) => Some(t as u64),
            None => None,
        },
    }
}

pub open spec fn snapshot_fits(output: Seq<char>) -> bool {
    let w = words(output);
    &&& (w.len() > 0 ==> match u64_of(w[0]) { Some(v) => v * 1024 <= u64::MAX, None => true })
    &&& (w.len() > 2 ==> etime_fits(w[2]))
}

/// Whether the memory and elapsed time of a `ps` snapshot fit a `u64`.
pub fn snapshot_in_range(output: &str) -> (r: bool)
    ensures
        r == snapshot_fits(output@),
{
    let w = split_words(output);
    assert(views(w@) == words(output@));
    let rss_ok = if w.len() > 0 {
        assert(views(w@)[0] == w@[0]@);
        match parse_unsigned(w[0].as_str(), 0xffff_ffff_ffff_ffff) {
            Some(v) => v <= 0xffff_ffff_ffff_ffff / 1024,
            None => true,
        }
    } else {
        true
    };
    let etime_ok = if w.len() > 2 {
        assert(views(w@)[2] == w@[2]@);
        etime_in_range(w[2].as_str())
    } else {
        true
    };
    rss_ok && etime_ok
}

pub fn snapshot_from_ps_output(output: &str) -> (r: LiveSnapshot)
    requires
        snapshot_fits(output@),
    ensures
        r == snapshot_spec(output@),
{
    let w = split_words(output);
    assert(views(w@) == words(output@));
    let rss: u64 = if w.len() > 0 {
        assert(views(w@)[0] == w@[0]@);
        match parse_unsigned(w[0].as_str(), 0xffff_ffff_ffff_ffff) {
            Some(v) => v as u64,
            None => 0,
        }
    } else {
        0
    };
    let elapsed = if w.len() > 2 {
        assert(views(w@)[2] == w@[2]@);
        parse_ps_etime(w[2].as_str())
    } else {
        proof {
            reveal_strlit("");
            assert(etime_seconds(Seq::empty()) is None) by {
                assert(split_on(Seq::<char>::empty(), ':') =~= seq![Seq::<char>::empty()]);
            }
        }
        None
    };
    LiveSnapshot {
        cpu_total_nanos: None,
        memory_current_bytes: Some(rss * 1024),
        elapsed_secs: elapsed,
    }
}

/// The `result.json` record of a supervised run: its exit code, or 128
/// plus the signal that killed it, or a launch failure when it never ran.
pub open spec fn result_matches(res: RunResult, id: Seq<char>, ended: Seq<char>, outcome: Option<RunOutcome>, error: Option<String>) -> bool {
    &&& res.version == 1
    &&& res.id@ == id
    &&& res.ended@ == ended
    &&& match outcome {
        Some(o) => (match o.exit_status {
            ExitStatus::Exited(code) => res.state == RunState::Exited && res.exit_code == Some(code)
                && res.signal.is_none(),
            ExitStatus::Signaled(sig) => res.state == RunState::Killed && res.exit_code == Some((128 + sig) as i32)
                && opt_string_view(res.signal) == Some(match signal_name_spec(sig) { Some(n) => n, None => "signal"@ }),
        }) && res.cpu_total_nanos == o.total_cpu_nanos && res.memory_peak_bytes == o.peak_memory
            && res.launch_error.is_none(),
        None => res.state == RunState::LaunchFailed && res.exit_code.is_none() && res.signal.is_none()
            && res.cpu_total_nanos.is_none() && res.memory_peak_bytes.is_none()
            && opt_string_view(res.launch_error) == opt_string_view(error),
    }
}

/// The `result.json` record of run `id` ended at `ended`, from its
/// outcome, or from the error that kept it from running.
pub fn to_result_json(id: &RunId, ended: String, outcome: Option<&RunOutcome>, error: Option<String>) -> (r: RunResult)
    requires
        outcome matches Some(o) ==> (o.exit_status matches ExitStatus::Signaled(sig) ==> sig <= i32::MAX - 128),
    ensures
        result_matches(r, id@, ended@, match outcome { Some(o) => Some(*o), None => None }, error),
{
    match outcome {
        Some(o) => match o.exit_status {
            ExitStatus::Exited(code) => RunResult {
                version: 1,
                id: id.as_str().to_owned(),
                ended,
                state: RunState::Exited,
                exit_code: Some(code),
                signal: None,
                cpu_total_nanos: o.total_cpu_nanos,
                memory_peak_bytes: o.peak_memory,
                launch_error: None,
            },
            ExitStatus::Signaled(sig) => {
                let name = match macos_signal_name(sig) {
                    Some(n) => n.to_owned(),
                    None => "signal".to_owned(),
                };
                RunResult {
                    version: 1,
                    id: id.as_str().to_owned(),
                    ended,
                    state: RunState::Killed,
                    exit_code: Some(128 + sig),
                    signal: Some(name),
                    cpu_total_nanos: o.total_cpu_nanos,
                    memory_peak_bytes: o.peak_memory,
                    launch_error: None,
                }
            },
        },
        None => RunResult {
            version: 1,
            id: id.as_str().to_owned(),
            ended,
            state: RunState::LaunchFailed,
            exit_code: None,
            signal: None,
            cpu_total_nanos: None,
            memory_peak_bytes: None,
            launch_error: error,
        },
    }
}

/// The name of the common signals recorded in `result.json`.
pub fn macos_signal_name(signum: i32) -> (r: Option<&'static str>)
    ensures
        str_opt_view(r) == signal_name_spec(signum),
{
    signal_name(signum)
}

/// The `meta.json` record written when a detached macOS run starts; the
/// pid is filled in by the daemonised process once it knows it.
pub fn build_meta(
    id: &RunId,
    plan: &LaunchPlan,
    scaler_exe: &str,
    stdout_log: String,
    stderr_log: String,
    backend_state: CapabilityLevel,
    cwd: &str,
    started: String,
    scaler_version: &str,
) -> (r: Meta)
    ensures
        r.version == 1,
        r.id@ == id@,
        r.started@ == started@,
        views(r.command@) == views(plan.argv@),
        r.cwd@ == cwd@,
        r.cpu_limit_centi_cores == (match plan.resource_spec.cpu { Some(c) => Some(c.spec_centi_cores()), None => None }),
        r.mem_limit_bytes == (match plan.resource_spec.mem { Some(b) => Some(b.spec_bytes()), None => None }),
        r.platform@ == "macos"@,
        r.backend@ == "macos_taskpolicy"@,
        r.backend_state@ == backend_state.name(),
        r.pid.is_none(),
        r.unit_name.is_none(),
        r.scaler_exe@ == scaler_exe@,
        r.scaler_version@ == scaler_version@,
        r.stdout_log@ == stdout_log@,
        r.stderr_log@ == stderr_log@,
{
    Meta {
        version: 1,
        id: id.as_str().to_owned(),
        started,
        command: plan.argv.clone(),
        cwd: cwd.to_owned(),
        cpu_limit_centi_cores: match plan.resource_spec.cpu { Some(c) => Some(c.centi_cores()), None => None },
        mem_limit_bytes: match plan.resource_spec.mem { Some(m) => Some(m.bytes()), None => None },
        platform: "macos".to_owned(),
        backend: "macos_taskpolicy".to_owned(),
        backend_state: backend_state.as_str().to_owned(),
        pid: None,
        unit_name: None,
        scaler_exe: scaler_exe.to_owned(),
        scaler_version: scaler_version.to_owned(),
        stdout_log,
        stderr_log,
    }
}

} // verus!
