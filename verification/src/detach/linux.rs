//! Linux detach path: `systemd-run --no-block` starts a transient unit
//! whose output goes to append-mode log files and whose `ExecStopPost`
//! calls `scaler __finalize <id>` to record the result.

use vstd::prelude::*;
use crate::detach::id::{RunId, is_run_id};
use crate::detach::state::{Meta, RunResult, RunState};
use crate::engine::argv::{
    PlanError, argv_view, cpu_quota_args, memory_args, push_limit_properties, push_target_args,
    shell_tokens_ok, target_args,
};
use crate::engine::types::LaunchPlan;
use crate::text::{
    digits, parse_bounded_spec, parse_i32, parse_i32_spec, parse_unsigned, split_lines, starts_with,
    str_eq, text_lines, trim, trim_spec, views,
};

verus! {

/// The `systemd-run` command line of a detached run (checked by
/// [`detach_argv_result`]).
pub open spec fn detach_argv(
    plan: LaunchPlan,
    unit_name: Seq<char>,
    stdout_log: Seq<char>,
    stderr_log: Seq<char>,
    scaler_exe: Seq<char>,
    run_id: Seq<char>,
    cwd: Seq<char>,
) -> Seq<Seq<char>> {
    seq!["systemd-run"@, "--user"@, "--no-block"@, "--collect"@, "--quiet"@, "--unit="@ + unit_name]
        + cpu_quota_args(plan.resource_spec) + memory_args(plan.resource_spec)
        + seq![
            "--property=StandardOutput=append:"@ + stdout_log,
            "--property=StandardError=append:"@ + stderr_log,
            "--property=ExecStopPost="@ + scaler_exe + " __finalize "@ + run_id,
        ]
        + (if cwd.len() > 0 { seq!["--property=WorkingDirectory="@ + cwd] } else { Seq::empty() })
        + seq!["--"@] + target_args(plan)
}

pub open spec fn detach_argv_result(
    plan: LaunchPlan,
    unit_name: Seq<char>,
    stdout_log: Seq<char>,
    stderr_log: Seq<char>,
    scaler_exe: Seq<char>,
    run_id: Seq<char>,
    cwd: Seq<char>,
) -> Result<Seq<Seq<char>>, PlanError> {
    if plan.argv@.len() == 0 {
        Err(PlanError::EmptyArgv)
    } else if unit_name.len() == 0 {
        Err(PlanError::EmptyUnitName)
    } else if !shell_tokens_ok(plan) {
        Err(PlanError::ShellTokenCount)
    } else {
        Ok(detach_argv(plan, unit_name, stdout_log, stderr_log, scaler_exe, run_id, cwd))
    }
}

fn concat2(a: &str, b: &str) -> (r: String)
    ensures
        r@ == a@ + b@,
{
    let mut s = a.to_owned();
    s.append(b);
    s
}

/// Builds the `systemd-run --no-block` command line for a detached run.
pub fn build_detach_argv(
    plan: &LaunchPlan,
    unit_name: &str,
    stdout_log: &str,
    stderr_log: &str,
    scaler_exe: &str,
    run_id: &str,
    cwd: &str,
) -> (r: Result<Vec<String>, PlanError>)
    ensures
        argv_view(r) == detach_argv_result(*plan, unit_name@, stdout_log@, stderr_log@, scaler_exe@, run_id@, cwd@),
{
    if plan.argv.len() == 0 {
        return Err(PlanError::EmptyArgv);
    }
    if unit_name.unicode_len() == 0 {
        return Err(PlanError::EmptyUnitName);
    }
    if plan.resource_spec.shell.is_some() && plan.argv.len() != 1 {
        return Err(PlanError::ShellTokenCount);
    }
    let mut argv: Vec<String> = Vec::new();
    argv.push("systemd-run".to_owned());
    argv.push("--user".to_owned());
    argv.push("--no-block".to_owned());
    argv.push("--collect".to_owned());
    argv.push("--quiet".to_owned());
    argv.push(concat2("--unit=", unit_name));
    let ghost head = views(argv@);
    assert(head =~= seq!["systemd-run"@, "--user"@, "--no-block"@, "--collect"@, "--quiet"@, "--unit="@ + unit_name@]);
    push_limit_properties(&mut argv, &plan.resource_spec);
    let ghost mid = views(argv@);
    argv.push(concat2("--property=StandardOutput=append:", stdout_log));
    argv.push(concat2("--property=StandardError=append:", stderr_log));
    let mut stop = concat2("--property=ExecStopPost=", scaler_exe);
    stop.append(" __finalize ");
    stop.append(run_id);
    argv.push(stop);
    let ghost logs = seq![
        "--property=StandardOutput=append:"@ + stdout_log@,
        "--property=StandardError=append:"@ + stderr_log@,
        "--property=ExecStopPost="@ + scaler_exe@ + " __finalize "@ + run_id@,
    ];
    assert(views(argv@) =~= mid + logs);
    let ghost with_logs = views(argv@);
    if cwd.unicode_len() > 0 {
        argv.push(concat2("--property=WorkingDirectory=", cwd));
    }
    let ghost cwd_part: Seq<Seq<char>> = if cwd@.len() > 0 { seq!["--property=WorkingDirectory="@ + cwd@] } else { Seq::empty() };
    assert(views(argv@) =~= with_logs + cwd_part);
    let ghost before_delim = argv@;
    argv.push("--".to_owned());
    assert(views(argv@) =~= views(before_delim).push("--"@));
    push_target_args(&mut argv, plan);
    assert(views(argv@) =~= detach_argv(*plan, unit_name@, stdout_log@, stderr_log@, scaler_exe@, run_id@, cwd@));
    Ok(argv)
}

/// The `meta.json` record of a detached Linux run.
pub open spec fn meta_matches(
    m: Meta,
    id: Seq<char>,
    plan: LaunchPlan,
    scaler_exe: Seq<char>,
    unit_name: Option<String>,
    stdout_log: Seq<char>,
    stderr_log: Seq<char>,
    backend_state: Seq<char>,
    cwd: Seq<char>,
    started: Seq<char>,
    scaler_version: Seq<char>,
) -> bool {
    &&& m.version == 1
    &&& m.id@ == id
    &&& m.started@ == started
    &&& views(m.command@) == views(plan.argv@)
    &&& m.cwd@ == cwd
    &&& m.cpu_limit_centi_cores == (match plan.resource_spec.cpu { Some(c) => Some(c.spec_centi_cores()), None => None })
    &&& m.mem_limit_bytes == (match plan.resource_spec.mem { Some(b) => Some(b.spec_bytes()), None => None })
    &&& m.platform@ == "linux"@
    &&& m.backend@ == "linux_systemd"@
    &&& m.backend_state@ == backend_state
    &&& m.pid.is_none()
    &&& m.unit_name == unit_name
    &&& m.scaler_exe@ == scaler_exe
    &&& m.scaler_version@ == scaler_version
    &&& m.stdout_log@ == stdout_log
    &&& m.stderr_log@ == stderr_log
}

/// The `meta.json` record written when a detached Linux run starts;
/// `started` is the RFC 3339 start time.
pub fn build_meta(
    id: &RunId,
    plan: &LaunchPlan,
    scaler_exe: &str,
    unit_name: Option<String>,
    stdout_log: String,
    stderr_log: String,
    backend_state: &str,
    cwd: &str,
    started: String,
    scaler_version: &str,
) -> (r: Meta)
    ensures
        meta_matches(r, id@, *plan, scaler_exe@, unit_name, stdout_log@, stderr_log@, backend_state@, cwd@, started@, scaler_version@),
{
    Meta {
        version: 1,
        id: id.as_str().to_owned(),
        started,
        command: plan.argv.clone(),
        cwd: cwd.to_owned(),
        cpu_limit_centi_cores: match plan.resource_spec.cpu { Some(c) => Some(c.centi_cores()), None => None },
        mem_limit_bytes: match plan.resource_spec.mem { Some(m) => Some(m.bytes()), None => None },
        platform: "linux".to_owned(),
        backend: "linux_systemd".to_owned(),
        backend_state: backend_state.to_owned(),
        pid: None,
        unit_name,
        scaler_exe: scaler_exe.to_owned(),
        scaler_version: scaler_version.to_owned(),
        stdout_log,
        stderr_log,
    }
}

pub open spec fn signal_name_spec(signum: i32) -> Option<Seq<char>> {
    if signum == 1 { Some("SIGHUP"@) }
    else if signum == 2 { Some("SIGINT"@) }
    else if signum == 3 { Some("SIGQUIT"@) }
    else if signum == 6 { Some("SIGABRT"@) }
    else if signum == 9 { Some("SIGKILL"@) }
    else if signum == 11 { Some("SIGSEGV"@) }
    else if signum == 13 { Some("SIGPIPE"@) }
    else if signum == 15 { Some("SIGTERM"@) }
    else { None }
}

pub open spec fn str_opt_view(value: Option<&'static str>) -> Option<Seq<char>> {
    match value {
        Some(v) => Some(v@),
        None => None,
    }
}

/// The name of the common signals recorded in `result.json`.
pub fn signal_name(signum: i32) -> (r: Option<&'static str>)
    ensures
        str_opt_view(r) == signal_name_spec(signum),
{
    match signum {
        1 => Some("SIGHUP"),
        2 => Some("SIGINT"),
        3 => Some("SIGQUIT"),
        6 => Some("SIGABRT"),
        9 => Some("SIGKILL"),
        11 => Some("SIGSEGV"),
        13 => Some("SIGPIPE"),
        15 => Some("SIGTERM"),
        _ => None,
    }
}

pub open spec fn cpu_key() -> Seq<char> { "CPUUsageNSec="@ }

pub open spec fn memory_key() -> Seq<char> { "MemoryPeak="@ }

pub open spec fn key_prefix(line: Seq<char>, key: Seq<char>) -> bool {
    key.len() <= line.len() && line.take(key.len() as int) == key
}

/// The last `CPUUsageNSec=` value among `lines`; a line that does not
/// parse leaves `None`.
pub open spec fn show_cpu(lines: Seq<Seq<char>>) -> Option<u128>
    decreases lines.len(),
{
    if lines.len() == 0 {
        None
    } else if key_prefix(lines.last(), cpu_key()) {
        match parse_bounded_spec(trim_spec(lines.last().skip(cpu_key().len() as int)), u128::MAX as nat) {
            Some(v) => Some(v as u128),
            None => None,
        }
    } else {
        show_cpu(lines.drop_last())
    }
}

/// The last `MemoryPeak=` value among `lines`.
pub open spec fn show_memory(lines: Seq<Seq<char>>) -> Option<u64>
    decreases lines.len(),
{
    if lines.len() == 0 {
        None
    } else if key_prefix(lines.last(), memory_key()) && !key_prefix(lines.last(), cpu_key()) {
        match parse_bounded_spec(trim_spec(lines.last().skip(memory_key().len() as int)), u64::MAX as nat) {
            Some(v) => Some(v as u64),
            None => None,
        }
    } else {
        show_memory(lines.drop_last())
    }
}

pub open spec fn show_metrics_spec(show: Option<Seq<char>>) -> (Option<u128>, Option<u64>) {
    match show {
        Some(text) => (show_cpu(text_lines(text)), show_memory(text_lines(text))),
        None => (None, None),
    }
}

pub open spec fn opt_str_view(value: Option<&str>) -> Option<Seq<char>> {
    match value {
        Some(v) => Some(v@),
        None => None,
    }
}

/// Cumulative CPU time and peak memory from `systemctl show` output.
pub fn parse_show_metrics(show: Option<&str>) -> (r: (Option<u128>, Option<u64>))
    ensures
        r == show_metrics_spec(opt_str_view(show)),
{
    let text = match show {
        Some(t) => t,
        None => return (None, None),
    };
    let lines = split_lines(text);
    let ghost ls = views(lines@);
    let mut cpu: Option<u128> = None;
    let mut mem: Option<u64> = None;
    let mut i: usize = 0;
    while i < lines.len()
        invariant
            i <= lines@.len(),
            ls == views(lines@),
            ls == text_lines(text@),
            cpu == show_cpu(ls.take(i as int)),
            mem == show_memory(ls.take(i as int)),
        decreases lines@.len() - i,
    {
        let line = lines[i].as_str();
        let ghost taken = ls.take(i + 1);
        assert(taken.drop_last() =~= ls.take(i as int));
        assert(taken.last() == line@);
        proof {
            reveal_strlit("CPUUsageNSec=");
            reveal_strlit("MemoryPeak=");
        }
        if starts_with(line, "CPUUsageNSec=") {
            let n = line.unicode_len();
            let rest = line.substring_char(13, n);
            assert(rest@ =~= line@.skip(13));
            cpu = match parse_unsigned(trim(rest), u128::MAX) {
                Some(v) => Some(v),
                None => None,
            };
        } else if starts_with(line, "MemoryPeak=") {
            let n = line.unicode_len();
            let rest = line.substring_char(11, n);
            assert(rest@ =~= line@.skip(11));
            mem = match parse_unsigned(trim(rest), 0xffff_ffff_ffff_ffff) {
                Some(v) => Some(v as u64),
                None => None,
            };
        }
        i = i + 1;
    }
    assert(ls.take(lines@.len() as int) =~= ls);
    (cpu, mem)
}

/// What the finalizer records, from the `EXIT_CODE` and `EXIT_STATUS`
/// variables systemd sets for `ExecStopPost`: a normal exit, a kill (the
/// code is 128 plus the signal number), or a failed launch.
pub open spec fn finalize_outcome(
    exit_code_label: Option<Seq<char>>,
    exit_status: Option<Seq<char>>,
) -> (RunState, Option<i32>, Option<Seq<char>>) {
    let status = match exit_status {
        Some(s) => parse_i32_spec(s),
        None => None,
    };
    let label = match exit_code_label {
        Some(l) => l,
        None => Seq::empty(),
    };
    if label == "exited"@ {
        (RunState::Exited, status, None)
    } else if label == "killed"@ || label == "dumped"@ {
        let sig = match status { Some(v) => v, None => 0 };
        (RunState::Killed, Some((128 + sig) as i32), Some(match signal_name_spec(sig) {
            Some(n) => n,
            None => "signal"@,
        }))
    } else {
        (RunState::LaunchFailed, status, None)
    }
}

/// A run that exited records `EXIT_STATUS` as its exit code: the integer
/// the variable parses to (none when it does not parse), so a command
/// that exited with status `n` is recorded with exit code `n` and a
/// failing run is never reported as a success.
pub proof fn lemma_exited_records_exit_status(exit_status: Option<Seq<char>>, n: nat)
    ensures
        finalize_outcome(Some("exited"@), exit_status).0 == RunState::Exited,
        finalize_outcome(Some("exited"@), exit_status).1 == (match exit_status {
            Some(s) => parse_i32_spec(s),
            None => None::<i32>,
        }),
        finalize_outcome(Some("exited"@), exit_status).2.is_none(),
        n <= 0x7fff_ffff ==> finalize_outcome(Some("exited"@), Some(digits(n))).1 == Some(n as i32),
{
    crate::text::lemma_parse_digits(n, 0x7fff_ffff);
    crate::text::lemma_digits_roundtrip(n);
    assert(crate::text::is_digit(digits(n)[0]));
    reveal_strlit("exited");
}

/// A run killed by signal `sig` records exit code 128 + `sig`, as a
/// shell reports it.
pub proof fn lemma_killed_records_signal(label: Seq<char>, exit_status: Option<Seq<char>>)
    requires
        label == "killed"@ || label == "dumped"@,
    ensures
        finalize_outcome(Some(label), exit_status).0 == RunState::Killed,
        finalize_outcome(Some(label), exit_status).1 == Some((128 + match exit_status {
            Some(s) => match parse_i32_spec(s) { Some(v) => v, None => 0i32 },
            None => 0i32,
        }) as i32),
{
    reveal_strlit("exited");
    reveal_strlit("killed");
    reveal_strlit("dumped");
    assert(label != "exited"@) by {
        assert(label[0] != "exited"@[0]);
    }
}

/// `EXIT_STATUS` is small enough that 128 plus it fits an `i32`.
pub open spec fn exit_status_in_range(exit_status: Option<Seq<char>>) -> bool {
    match exit_status {
        Some(s) => match parse_i32_spec(s) {
            Some(v) => v <= i32::MAX - 128,
            None => true,
        },
        None => true,
    }
}

/// `EXIT_CODE` says the process was killed by a signal.
pub open spec fn is_kill_label(exit_code_label: Option<Seq<char>>) -> bool {
    exit_code_label == Some("killed"@) || exit_code_label == Some("dumped"@)
}

pub open spec fn opt_string_view(value: Option<String>) -> Option<Seq<char>> {
    match value {
        Some(v) => Some(v@),
        None => None,
    }
}

/// Why the finalizer could not record a result.
#[derive(Debug, Clone, Copy, PartialEq, Eq, Structural)]
pub enum FinalizeError {
    InvalidRunId,
}

/// The `result.json` record for run `run_id`, ended at `ended`, from the
/// systemd exit variables and the optional `systemctl show` output.
pub fn finalize_result(
    run_id: &str,
    exit_code_label: Option<&str>,
    exit_status: Option<&str>,
    show_output: Option<&str>,
    ended: String,
) -> (r: Result<RunResult, FinalizeError>)
    requires
        is_run_id(run_id@) && is_kill_label(opt_str_view(exit_code_label))
            ==> exit_status_in_range(opt_str_view(exit_status)),
    ensures
        !is_run_id(run_id@) ==> r == Err::<RunResult, FinalizeError>(FinalizeError::InvalidRunId),
        is_run_id(run_id@) ==> (r matches Ok(res) && {
            let (state, code, signal) = finalize_outcome(opt_str_view(exit_code_label), opt_str_view(exit_status));
            &&& res.version == 1
            &&& res.id@ == run_id@
            &&& res.ended@ == ended@
            &&& res.state == state
            &&& res.exit_code == code
            &&& opt_string_view(res.signal) == signal
            &&& (res.cpu_total_nanos, res.memory_peak_bytes) == show_metrics_spec(opt_str_view(show_output))
            &&& res.launch_error.is_none()
        }),
        is_run_id(run_id@) && opt_str_view(exit_code_label) == Some("exited"@) ==> (r matches Ok(res)
            && res.state == RunState::Exited
            && res.exit_code == (match exit_status { Some(s) => parse_i32_spec(s@), None => None::<i32> })),
{
    proof {
        lemma_exited_records_exit_status(opt_str_view(exit_status), 0);
    }
    let id = match RunId::parse(run_id) {
        Some(id) => id,
        None => return Err(FinalizeError::InvalidRunId),
    };
    let status = match exit_status {
        Some(s) => parse_i32(s),
        None => None,
    };
    let label = match exit_code_label {
        Some(l) => l,
        None => "",
    };
    proof {
        reveal_strlit("");
        reveal_strlit("exited");
        reveal_strlit("killed");
        reveal_strlit("dumped");
    }
    let (state, exit_code, signal) = if str_eq(label, "exited") {
        (RunState::Exited, status, None)
    } else if str_eq(label, "killed") || str_eq(label, "dumped") {
        let sig = match status { Some(v) => v, None => 0 };
        proof {
            assert(label@ == "killed"@ || label@ == "dumped"@);
            assert(label@.len() == 6);
            assert(exit_code_label is Some);
            assert(is_kill_label(opt_str_view(exit_code_label)));
        }
        let name = match signal_name(sig) {
            Some(n) => n.to_owned(),
            None => "signal".to_owned(),
        };
        (RunState::Killed, Some(128 + sig), Some(name))
    } else {
        (RunState::LaunchFailed, status, None)
    };
    let (cpu_total_nanos, memory_peak_bytes) = parse_show_metrics(show_output);
    proof {
        let lab = match opt_str_view(exit_code_label) { Some(l) => l, None => Seq::empty() };
        assert(lab == label@);
        assert(state == RunState::Exited <==> lab == "exited"@);
        let (st, co, si) = finalize_outcome(opt_str_view(exit_code_label), opt_str_view(exit_status));
        assert(state == st);
        assert(exit_code == co);
        assert(opt_string_view(signal) == si);
    }
    Ok(RunResult {
        version: 1,
        id: id.as_str().to_owned(),
        ended,
        state,
        exit_code,
        signal,
        cpu_total_nanos,
        memory_peak_bytes,
        launch_error: None,
    })
}

/// The unit name of detached run `id`.
pub fn detach_unit_name(id: &RunId) -> (r: String)
    ensures
        r@ == "scaler-run-"@ + id@ + ".service"@,
{
    let mut s = "scaler-run-".to_owned();
    s.append(id.as_str());
    s.append(".service");
    s
}

} // verus!
