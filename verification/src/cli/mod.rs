//! Command-line front end: argv normalisation, the `doctor` report and
//! the parsed command model.

use vstd::prelude::*;
use crate::engine::types::{BackendKind, CapabilityReport, DoctorPrerequisite, PrerequisiteStatus};
use crate::text::{join_lines, join_with_newlines, starts_with, str_eq, views};
use crate::text::order::{sort_texts, sorted_texts};

pub mod args;
pub mod status;
pub mod values;

verus! {

/// `value` is `flag` or `flag=<something>`.
pub open spec fn matches_flag_spec(value: Seq<char>, flag: Seq<char>) -> bool {
    value == flag || (value.len() > flag.len() && value.take(flag.len() as int) == flag
        && value[flag.len() as int] == '=')
}

/// A `run` flag that may stand before `--` without the word `run`.
pub open spec fn is_shorthand_spec(value: Seq<char>) -> bool {
    matches_flag_spec(value, "--cpu"@) || matches_flag_spec(value, "--mem"@)
        || matches_flag_spec(value, "--interactive"@) || matches_flag_spec(value, "--shell"@)
        || matches_flag_spec(value, "--monitor"@) || matches_flag_spec(value, "--detach"@)
        || value == "-d"@
}

pub open spec fn has_delimiter_spec(values: Seq<Seq<char>>) -> bool {
    exists|i: int| 0 <= i < values.len() && values[i] == "--"@
}

/// `scaler -- cmd` and `scaler --cpu 1c ... -- cmd` mean `scaler run ...`.
pub open spec fn needs_run(raw: Seq<Seq<char>>) -> bool {
    raw.len() > 1 && (raw[1] == "--"@ || (is_shorthand_spec(raw[1]) && has_delimiter_spec(raw.skip(2))))
}

pub open spec fn normalize_spec(raw: Seq<Seq<char>>) -> Seq<Seq<char>> {
    if needs_run(raw) { raw.insert(1, "run"@) } else { raw }
}

/// Whether `value` is `flag` or `flag=...`.
pub fn matches_flag(value: &str, flag: &str) -> (r: bool)
    ensures
        r == matches_flag_spec(value@, flag@),
{
    if str_eq(value, flag) {
        return true;
    }
    let n = flag.unicode_len();
    starts_with(value, flag) && n < value.unicode_len() && value.get_char(n) == '='
}

fn is_run_shorthand_flag(value: &str) -> (r: bool)
    ensures
        r == is_shorthand_spec(value@),
{
    matches_flag(value, "--cpu") || matches_flag(value, "--mem")
        || matches_flag(value, "--interactive") || matches_flag(value, "--shell")
        || matches_flag(value, "--monitor") || matches_flag(value, "--detach")
        || str_eq(value, "-d")
}

/// Whether some element of `values` from index `from` on is `--`.
fn has_delimiter(values: &Vec<String>, from: usize) -> (r: bool)
    requires
        from <= values@.len(),
    ensures
        r == has_delimiter_spec(views(values@).skip(from as int)),
{
    let ghost rest = views(values@).skip(from as int);
    let mut i = from;
    while i < values.len()
        invariant
            from <= i <= values@.len(),
            rest == views(values@).skip(from as int),
            forall|k: int| 0 <= k < i - from ==> rest[k] != "--"@,
        decreases values@.len() - i,
    {
        if str_eq(values[i].as_str(), "--") {
            assert(rest[i - from] == "--"@);
            return true;
        }
        i = i + 1;
    }
    false
}

/// Inserts the implicit `run` subcommand: when the first argument is
/// `--`, or a `run` flag with a `--` somewhere after it.
pub fn normalize_argv(raw: Vec<String>) -> (r: Vec<String>)
    ensures
        views(r@) == normalize_spec(views(raw@)),
{
    if raw.len() <= 1 {
        return raw;
    }
    let first = raw[1].as_str();
    let insert = str_eq(first, "--") || (is_run_shorthand_flag(first) && has_delimiter(&raw, 2));
    if insert {
        let mut normalized = raw;
        let ghost before = normalized@;
        normalized.insert(1, "run".to_owned());
        assert(views(normalized@) =~= views(before).insert(1, "run"@));
        normalized
    } else {
        raw
    }
}

/// Normalisation is idempotent: once `run` has been inserted, a second
/// pass leaves the arguments alone.
pub proof fn lemma_normalize_idempotent(raw: Seq<Seq<char>>)
    ensures
        normalize_spec(normalize_spec(raw)) == normalize_spec(raw),
{
    if needs_run(raw) {
        let once = raw.insert(1, "run"@);
        assert(once[1] == "run"@);
        reveal_strlit("run");
        reveal_strlit("--");
        reveal_strlit("-d");
        assert(!matches_flag_spec("run"@, "--cpu"@)) by { reveal_strlit("--cpu"); assert("run"@[0] != "--cpu"@[0]); }
        assert(!matches_flag_spec("run"@, "--mem"@)) by { reveal_strlit("--mem"); assert("run"@[0] != "--mem"@[0]); }
        assert(!matches_flag_spec("run"@, "--interactive"@)) by { reveal_strlit("--interactive"); assert("run"@.len() < "--interactive"@.len()); }
        assert(!matches_flag_spec("run"@, "--shell"@)) by { reveal_strlit("--shell"); assert("run"@.len() < "--shell"@.len()); }
        assert(!matches_flag_spec("run"@, "--monitor"@)) by { reveal_strlit("--monitor"); assert("run"@.len() < "--monitor"@.len()); }
        assert(!matches_flag_spec("run"@, "--detach"@)) by { reveal_strlit("--detach"); assert("run"@.len() < "--detach"@.len()); }
        assert("run"@ != "--"@) by { assert("run"@.len() != "--"@.len()); }
        assert("run"@ != "-d"@) by { assert("run"@[0] != "-d"@[0]); }
        assert(!needs_run(once));
    }
}

/// Normalisation only ever adds the word `run` as the first argument:
/// removing it gives back what was passed in.
pub proof fn lemma_normalize_only_inserts_run(raw: Seq<Seq<char>>)
    ensures
        normalize_spec(raw) == raw || (normalize_spec(raw)[1] == "run"@ && normalize_spec(raw).remove(1) == raw),
{
    if needs_run(raw) {
        assert(raw.insert(1, "run"@).remove(1) =~= raw);
    }
}

pub open spec fn status_word(status: PrerequisiteStatus) -> Seq<char> {
    match status {
        PrerequisiteStatus::Satisfied => "ok"@,
        PrerequisiteStatus::Missing => "missing"@,
        PrerequisiteStatus::Unreachable => "unreachable"@,
        PrerequisiteStatus::Unsupported => "unsupported"@,
        PrerequisiteStatus::Skipped => "skipped"@,
    }
}

/// `key=status` for a check, the message itself for a note.
pub open spec fn prerequisite_text(p: DoctorPrerequisite) -> Seq<char> {
    match p {
        DoctorPrerequisite::Check { key, status } => key@ + "="@ + status_word(status),
        DoctorPrerequisite::Note(message) => message@,
    }
}

/// The lines of `scaler doctor`: the capability lines in fixed order,
/// the prerequisites in their declared order, then the warnings sorted.
pub open spec fn doctor_lines(report: CapabilityReport, effective: BackendKind) -> Seq<Seq<char>> {
    seq![
        "platform: "@ + report.platform.name(),
        "backend: "@ + report.backend.name(),
        "backend_state: "@ + report.backend_state.name(),
        "cpu: "@ + report.cpu.name(),
        "memory: "@ + report.memory.name(),
        "interactive: "@ + report.interactive.name(),
        "effective_backend: "@ + effective.name(),
    ] + report.prerequisites@.map_values(|p: DoctorPrerequisite| "prerequisite: "@ + prerequisite_text(p))
      + sort_texts(views(report.warnings@)).map_values(|w: Seq<char>| "warning: "@ + w)
}

fn render_prerequisite_status(status: PrerequisiteStatus) -> (r: &'static str)
    ensures
        r@ == status_word(status),
{
    match status {
        PrerequisiteStatus::Satisfied => "ok",
        PrerequisiteStatus::Missing => "missing",
        PrerequisiteStatus::Unreachable => "unreachable",
        PrerequisiteStatus::Unsupported => "unsupported",
        PrerequisiteStatus::Skipped => "skipped",
    }
}

fn render_doctor_prerequisite(p: &DoctorPrerequisite) -> (r: String)
    ensures
        r@ == prerequisite_text(*p),
{
    match p {
        DoctorPrerequisite::Check { key, status } => {
            let mut s = (*key).to_owned();
            s.append("=");
            s.append(render_prerequisite_status(*status));
            s
        },
        DoctorPrerequisite::Note(message) => (*message).to_owned(),
    }
}

fn labelled(label: &str, value: &str) -> (r: String)
    ensures
        r@ == label@ + value@,
{
    let mut s = label.to_owned();
    s.append(value);
    s
}

/// The warnings of a report in ascending order.
pub fn sorted_warning_lines(warnings: &Vec<String>) -> (r: Vec<String>)
    ensures
        views(r@) == sort_texts(views(warnings@)),
{
    sorted_texts(warnings)
}

/// The `scaler doctor` report for `report` when `effective` is the
/// backend `run` would use.
pub fn render_doctor_output(report: &CapabilityReport, effective: BackendKind) -> (r: String)
    ensures
        r@ == join_lines(doctor_lines(*report, effective)),
{
    let mut lines: Vec<String> = Vec::new();
    lines.push(labelled("platform: ", report.platform.as_str()));
    lines.push(labelled("backend: ", report.backend.as_str()));
    lines.push(labelled("backend_state: ", report.backend_state.as_str()));
    lines.push(labelled("cpu: ", report.cpu.as_str()));
    lines.push(labelled("memory: ", report.memory.as_str()));
    lines.push(labelled("interactive: ", report.interactive.as_str()));
    lines.push(labelled("effective_backend: ", effective.as_str()));
    let ghost head = views(lines@);
    let ghost prereqs = report.prerequisites@.map_values(|p: DoctorPrerequisite| "prerequisite: "@ + prerequisite_text(p));
    let mut i: usize = 0;
    while i < report.prerequisites.len()
        invariant
            i <= report.prerequisites@.len(),
            prereqs == report.prerequisites@.map_values(|p: DoctorPrerequisite| "prerequisite: "@ + prerequisite_text(p)),
            views(lines@) =~= head + prereqs.take(i as int),
        decreases report.prerequisites@.len() - i,
    {
        let text = render_doctor_prerequisite(&report.prerequisites[i]);
        let ghost before = lines@;
        lines.push(labelled("prerequisite: ", text.as_str()));
        assert(views(lines@) =~= views(before).push(prereqs[i as int]));
        assert(prereqs.take(i + 1) =~= prereqs.take(i as int).push(prereqs[i as int]));
        i = i + 1;
    }
    assert(prereqs.take(report.prerequisites@.len() as int) =~= prereqs);
    let ghost middle = views(lines@);
    let sorted = sorted_warning_lines(&report.warnings);
    let ghost warns = sort_texts(views(report.warnings@)).map_values(|w: Seq<char>| "warning: "@ + w);
    let mut j: usize = 0;
    while j < sorted.len()
        invariant
            j <= sorted@.len(),
            views(sorted@) == sort_texts(views(report.warnings@)),
            warns == sort_texts(views(report.warnings@)).map_values(|w: Seq<char>| "warning: "@ + w),
            views(lines@) =~= middle + warns.take(j as int),
        decreases sorted@.len() - j,
    {
        let ghost before = lines@;
        lines.push(labelled("warning: ", sorted[j].as_str()));
        assert(views(sorted@)[j as int] == sorted@[j as int]@);
        assert(views(lines@) =~= views(before).push(warns[j as int]));
        assert(warns.take(j + 1) =~= warns.take(j as int).push(warns[j as int]));
        j = j + 1;
    }
    assert(warns.take(sorted@.len() as int) =~= warns);
    assert(views(lines@) =~= doctor_lines(*report, effective));
    join_with_newlines(&lines)
}

} // verus!
