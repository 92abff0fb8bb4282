//! The macOS backend: commands run under `taskpolicy` with a throttled
//! scheduling class. Limits are best effort.

use vstd::prelude::*;
use crate::backend::{line_if, push_line_if, prerequisite_is};
use crate::backend::linux_systemd::found_status;
use crate::engine::argv::{PlanError, argv_view, plan_check, push_target_args, target_args};
use crate::engine::types::{
    BackendKind, CapabilityLevel, CapabilityReport, DoctorPrerequisite, InteractiveMode,
    LaunchPlan, Platform, PrerequisiteStatus,
};
use crate::text::{
    digits, find_char, lemma_segments, parse_bounded_spec, parse_unsigned, push_digits,
    segment_before, trim, trim_spec, views,
};

verus! {

/// What the host offers the taskpolicy backend.
#[derive(Debug, Clone, Copy, PartialEq, Eq, Structural)]
pub struct MacosProbe {
    pub has_taskpolicy: bool,
    pub has_renice: bool,
    pub has_memory_support: bool,
    pub has_pty_support: bool,
    pub platform_version_supported: bool,
}

pub const BYTES_PER_MIB: u64 = 1048576;

/// Whole mebibytes needed to hold `bytes`, rounded up.
pub open spec fn mib_ceil(bytes: nat) -> nat {
    (bytes + 1048575) / 1048576
}

/// The `-m <MiB>` memory flag, when asked for and a memory cap is set.
pub open spec fn taskpolicy_memory_args(plan: LaunchPlan, include_memory_flag: bool) -> Seq<Seq<char>> {
    match plan.resource_spec.mem {
        Some(mem) => if include_memory_flag {
            seq!["-m"@, digits(mib_ceil(mem.spec_bytes() as nat))]
        } else {
            Seq::empty()
        },
        None => Seq::empty(),
    }
}

pub open spec fn taskpolicy_argv(plan: LaunchPlan, include_memory_flag: bool) -> Seq<Seq<char>> {
    seq!["taskpolicy"@, "-b"@, "-d"@, "throttle"@, "-g"@, "default"@]
        + taskpolicy_memory_args(plan, include_memory_flag) + seq!["--"@] + target_args(plan)
}

/// With a memory cap, the value after `-m` is the least whole number of
/// MiB whose bytes hold the cap: `m * 2^20 >= bytes`, and one MiB less
/// would not.
pub proof fn lemma_memory_flag_is_least_mib(plan: LaunchPlan)
    requires
        plan.resource_spec.mem is Some,
    ensures
        ({
            let bytes = plan.resource_spec.mem.unwrap().spec_bytes() as nat;
            let args = taskpolicy_argv(plan, true);
            let m = crate::text::digits_value(args[7]);
            &&& args.len() > 8
            &&& args[6] == "-m"@
            &&& crate::text::all_digits(args[7])
            &&& m * 1048576 >= bytes
            &&& (m == 0 || (m - 1) * 1048576 < bytes)
        }),
{
    let bytes = plan.resource_spec.mem.unwrap().spec_bytes() as nat;
    let m = mib_ceil(bytes);
    crate::text::lemma_digits_roundtrip(m);
    let args = taskpolicy_argv(plan, true);
    assert(args[6] == "-m"@);
    assert(args[7] == digits(m));
    assert(m * 1048576 >= bytes && (m == 0 || (m - 1) * 1048576 < bytes)) by (nonlinear_arith)
        requires
            m == (bytes + 1048575) / 1048576;
}

pub open spec fn taskpolicy_result(plan: LaunchPlan, include_memory_flag: bool) -> Result<Seq<Seq<char>>, PlanError> {
    match plan_check(plan, Platform::Macos, PlanError::NotMacos) {
        Some(e) => Err(e),
        None => Ok(taskpolicy_argv(plan, include_memory_flag)),
    }
}

/// Builds the `taskpolicy` command line for `plan`; the memory flag is
/// added only when the host supports it.
pub fn build_taskpolicy_argv(plan: &LaunchPlan, include_memory_flag: bool) -> (r: Result<Vec<String>, PlanError>)
    ensures
        argv_view(r) == taskpolicy_result(*plan, include_memory_flag),
{
    if plan.platform != Platform::Macos {
        return Err(PlanError::NotMacos);
    }
    if plan.argv.len() == 0 {
        return Err(PlanError::EmptyArgv);
    }
    if plan.resource_spec.shell.is_some() && plan.argv.len() != 1 {
        return Err(PlanError::ShellTokenCount);
    }
    let mut argv: Vec<String> = Vec::new();
    argv.push("taskpolicy".to_owned());
    argv.push("-b".to_owned());
    argv.push("-d".to_owned());
    argv.push("throttle".to_owned());
    argv.push("-g".to_owned());
    argv.push("default".to_owned());
    let ghost head = argv@;
    if include_memory_flag {
        if let Some(mem) = plan.resource_spec.mem {
            let bytes = mem.bytes() as u128;
            let mib = (bytes + 1048575) / 1048576;
            argv.push("-m".to_owned());
            let mut text = String::new();
            push_digits(&mut text, mib);
            argv.push(text);
        }
    }
    assert(views(argv@) =~= views(head) + taskpolicy_memory_args(*plan, include_memory_flag));
    let ghost before_delim = argv@;
    argv.push("--".to_owned());
    assert(views(argv@) =~= views(before_delim).push("--"@));
    push_target_args(&mut argv, plan);
    assert(views(argv@) =~= taskpolicy_argv(*plan, include_memory_flag));
    Ok(argv)
}

/// The command line `MacosTaskpolicyBackend` hands to the spawner; the
/// same as [`build_taskpolicy_argv`].
pub fn macos_taskpolicy_command_preview_for_test(plan: &LaunchPlan, include_memory_flag: bool) -> (r: Result<Vec<String>, PlanError>)
    ensures
        argv_view(r) == taskpolicy_result(*plan, include_memory_flag),
{
    build_taskpolicy_argv(plan, include_memory_flag)
}

pub open spec fn ready_level(ready: bool) -> CapabilityLevel {
    if ready { CapabilityLevel::BestEffort } else { CapabilityLevel::Unavailable }
}

/// Best effort when the backend is ready, else unavailable.
pub fn capability_when_backend_ready(ready: bool) -> (r: CapabilityLevel)
    ensures
        r == ready_level(ready),
{
    if ready { CapabilityLevel::BestEffort } else { CapabilityLevel::Unavailable }
}

pub open spec fn macos_available(probe: MacosProbe) -> bool {
    probe.has_taskpolicy && probe.platform_version_supported
}

pub open spec fn macos_memory_level(probe: MacosProbe) -> CapabilityLevel {
    if macos_available(probe) && probe.has_memory_support {
        CapabilityLevel::BestEffort
    } else {
        CapabilityLevel::Unavailable
    }
}

pub open spec fn macos_interactive_level(probe: MacosProbe, mode: InteractiveMode) -> CapabilityLevel {
    if !macos_available(probe) {
        CapabilityLevel::Unavailable
    } else {
        match mode {
            InteractiveMode::Always => if probe.has_pty_support {
                CapabilityLevel::BestEffort
            } else {
                CapabilityLevel::Unavailable
            },
            _ => CapabilityLevel::BestEffort,
        }
    }
}

pub open spec fn macos_warnings(probe: MacosProbe, mode: InteractiveMode) -> Seq<Seq<char>> {
    let ready = macos_available(probe);
    line_if(!probe.has_taskpolicy, "taskpolicy is not available in PATH"@)
        + line_if(!probe.platform_version_supported, "macOS platform version is not supported by the taskpolicy backend"@)
        + line_if(ready && !probe.has_renice, "renice is not available; CPU lowering is best-effort only"@)
        + line_if(ready && !probe.has_memory_support, "taskpolicy memory support is unavailable on this host"@)
        + line_if(ready && !probe.has_pty_support && mode != InteractiveMode::Never,
            "PTY support is unavailable for interactive taskpolicy launches"@)
}

pub open spec fn version_status(supported: bool) -> PrerequisiteStatus {
    if supported { PrerequisiteStatus::Satisfied } else { PrerequisiteStatus::Unsupported }
}

/// The capability report for a macOS host with the given probe results,
/// for a run in interactive mode `mode`.
pub fn detect_macos_capabilities(probe: MacosProbe, mode: InteractiveMode) -> (r: CapabilityReport)
    ensures
        r.platform == Platform::Macos,
        r.backend == BackendKind::MacosTaskpolicy,
        r.backend_state == ready_level(macos_available(probe)),
        r.cpu == ready_level(macos_available(probe)),
        r.memory == macos_memory_level(probe),
        r.interactive == macos_interactive_level(probe, mode),
        r.prerequisites@.len() == 2,
        prerequisite_is(r.prerequisites@[0], "taskpolicy"@, found_status(probe.has_taskpolicy)),
        prerequisite_is(r.prerequisites@[1], "platform_version"@, version_status(probe.platform_version_supported)),
        views(r.warnings@) == macos_warnings(probe, mode),
{
    let ready = probe.has_taskpolicy && probe.platform_version_supported;
    let mut warnings: Vec<String> = Vec::new();
    push_line_if(&mut warnings, !probe.has_taskpolicy, "taskpolicy is not available in PATH");
    push_line_if(&mut warnings, !probe.platform_version_supported,
        "macOS platform version is not supported by the taskpolicy backend");
    push_line_if(&mut warnings, ready && !probe.has_renice,
        "renice is not available; CPU lowering is best-effort only");
    push_line_if(&mut warnings, ready && !probe.has_memory_support,
        "taskpolicy memory support is unavailable on this host");
    push_line_if(&mut warnings, ready && !probe.has_pty_support && mode != InteractiveMode::Never,
        "PTY support is unavailable for interactive taskpolicy launches");
    assert(views(warnings@) =~= macos_warnings(probe, mode));
    let memory = if ready && probe.has_memory_support {
        CapabilityLevel::BestEffort
    } else {
        CapabilityLevel::Unavailable
    };
    let interactive = if !ready {
        CapabilityLevel::Unavailable
    } else {
        match mode {
            InteractiveMode::Always => if probe.has_pty_support {
                CapabilityLevel::BestEffort
            } else {
                CapabilityLevel::Unavailable
            },
            _ => CapabilityLevel::BestEffort,
        }
    };
    let mut prerequisites: Vec<DoctorPrerequisite> = Vec::new();
    prerequisites.push(DoctorPrerequisite::check("taskpolicy",
        if probe.has_taskpolicy { PrerequisiteStatus::Satisfied } else { PrerequisiteStatus::Missing }));
    prerequisites.push(DoctorPrerequisite::check("platform_version",
        if probe.platform_version_supported { PrerequisiteStatus::Satisfied } else { PrerequisiteStatus::Unsupported }));
    CapabilityReport {
        platform: Platform::Macos,
        backend: BackendKind::MacosTaskpolicy,
        backend_state: capability_when_backend_ready(ready),
        cpu: capability_when_backend_ready(ready),
        memory,
        interactive,
        prerequisites,
        warnings,
    }
}

/// `sw_vers -productVersion` reports macOS 11 or later: the text before
/// the first `.` of the trimmed output is a `u32` of at least 11.
pub open spec fn version_supported_spec(output: Seq<char>) -> bool {
    match parse_bounded_spec(segment_before(trim_spec(output), '.'), u32::MAX as nat) {
        Some(major) => major >= 11,
        None => false,
    }
}

/// Decides from the output of `sw_vers -productVersion` whether the host
/// runs a supported macOS release.
pub fn platform_version_supported(output: &str) -> (r: bool)
    ensures
        r == version_supported_spec(output@),
{
    let t = trim(output);
    let end = match find_char(t, '.') {
        Some(i) => i,
        None => t.unicode_len(),
    };
    proof {
        lemma_segments(t@, '.', end as int);
    }
    let major = t.substring_char(0, end);
    assert(major@ =~= t@.take(end as int));
    match parse_unsigned(major, 0xffff_ffff) {
        Some(v) => v >= 11,
        None => false,
    }
}

/// The backend that launches through `taskpolicy`. Spawning, waiting and
/// signalling are done by the caller with the command lines built here.
#[derive(Debug, Default, Clone, Copy)]
pub struct MacosTaskpolicyBackend;

} // verus!
