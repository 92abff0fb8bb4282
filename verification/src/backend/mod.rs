//! Backend selection and the capability reports of each backend.

use vstd::prelude::*;
use crate::engine::types::{BackendKind, CapabilityLevel, CapabilityReport, DoctorPrerequisite, Platform, PrerequisiteStatus};
use crate::text::{str_eq, views};

pub mod linux_systemd;
pub mod macos_taskpolicy;

verus! {

/// A one-line list when `cond` holds, else nothing.
pub open spec fn line_if(cond: bool, line: Seq<char>) -> Seq<Seq<char>> {
    if cond { seq![line] } else { Seq::empty() }
}

/// Appends `line` when `cond` holds.
pub fn push_line_if(lines: &mut Vec<String>, cond: bool, line: &str)
    ensures
        views(final(lines)@) == views(old(lines)@) + line_if(cond, line@),
{
    let ghost before = lines@;
    if cond {
        lines.push(line.to_owned());
    }
    assert(views(lines@) =~= views(before) + line_if(cond, line@));
}

/// `p` is the structured prerequisite `key=status`.
pub open spec fn prerequisite_is(p: DoctorPrerequisite, key: Seq<char>, status: PrerequisiteStatus) -> bool {
    match p {
        DoctorPrerequisite::Check { key: k, status: s } => k@ == key && s == status,
        DoctorPrerequisite::Note(_) => false,
    }
}

/// The backend named by the `SCALER_FORCE_BACKEND` override.
pub open spec fn forced_kind_spec(value: Option<Seq<char>>) -> Option<BackendKind> {
    match value {
        Some(v) => if v == "linux_systemd"@ {
            Some(BackendKind::LinuxSystemd)
        } else if v == "macos_taskpolicy"@ {
            Some(BackendKind::MacosTaskpolicy)
        } else if v == "plain_fallback"@ {
            Some(BackendKind::PlainFallback)
        } else {
            None
        },
        None => None,
    }
}

pub open spec fn opt_view(value: Option<&str>) -> Option<Seq<char>> {
    match value {
        Some(v) => Some(v@),
        None => None,
    }
}

/// Reads the value of the `SCALER_FORCE_BACKEND` override, if it names a
/// backend.
pub fn forced_backend_kind(value: Option<&str>) -> (r: Option<BackendKind>)
    ensures
        r == forced_kind_spec(opt_view(value)),
{
    match value {
        Some(v) => {
            if str_eq(v, "linux_systemd") {
                Some(BackendKind::LinuxSystemd)
            } else if str_eq(v, "macos_taskpolicy") {
                Some(BackendKind::MacosTaskpolicy)
            } else if str_eq(v, "plain_fallback") {
                Some(BackendKind::PlainFallback)
            } else {
                None
            }
        },
        None => None,
    }
}

/// The backend of `host` itself.
pub open spec fn host_backend(host: Platform) -> BackendKind {
    match host {
        Platform::Linux => BackendKind::LinuxSystemd,
        Platform::Macos => BackendKind::MacosTaskpolicy,
        Platform::Unsupported => BackendKind::PlainFallback,
    }
}

/// The backend that actually runs a command on `host`: a forced kind
/// only if it is the host's own backend, else the host backend while it
/// is available, else the plain fallback.
pub open spec fn selected_kind_spec(host: Platform, forced: Option<BackendKind>, report: CapabilityReport) -> BackendKind {
    match forced {
        Some(kind) => if kind == host_backend(host) { kind } else { BackendKind::PlainFallback },
        None => if report.backend_state != CapabilityLevel::Unavailable {
            host_backend(host)
        } else {
            BackendKind::PlainFallback
        },
    }
}

pub fn selected_backend_kind(host: Platform, forced: Option<BackendKind>, report: &CapabilityReport) -> (r: BackendKind)
    ensures
        r == selected_kind_spec(host, forced, *report),
{
    let own = match host {
        Platform::Linux => BackendKind::LinuxSystemd,
        Platform::Macos => BackendKind::MacosTaskpolicy,
        Platform::Unsupported => BackendKind::PlainFallback,
    };
    match forced {
        Some(kind) => if kind == own { kind } else { BackendKind::PlainFallback },
        None => if report.backend_state != CapabilityLevel::Unavailable {
            own
        } else {
            BackendKind::PlainFallback
        },
    }
}

/// The backend kind `doctor` reports as effective: exactly the one that
/// `run` selects on the same host, override and report.
pub fn effective_backend_kind(host: Platform, forced: Option<BackendKind>, report: &CapabilityReport) -> (r: BackendKind)
    ensures
        r == selected_kind_spec(host, forced, *report),
{
    selected_backend_kind(host, forced, report)
}

} // verus!
