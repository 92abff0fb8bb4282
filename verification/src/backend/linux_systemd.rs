//! The Linux backend: commands run in a transient `systemd-run --user
//! --scope` unit whose cgroup carries the CPU and memory limits.

use vstd::prelude::*;
use crate::backend::{line_if, push_line_if, prerequisite_is};
use crate::engine::argv::{
    PlanError, argv_view, cpu_quota_args, memory_args, plan_check, push_limit_properties,
    push_target_args, target_args,
};
use crate::engine::types::{
    BackendKind, CapabilityLevel, CapabilityReport, DoctorPrerequisite, LaunchPlan, Platform,
    PrerequisiteStatus,
};
use crate::text::views;

verus! {

/// What the host offers the systemd backend.
#[derive(Debug, Clone, Copy, PartialEq, Eq, Structural)]
pub struct LinuxProbe {
    pub has_systemd_run: bool,
    pub has_cgroup_v2: bool,
    pub user_manager_reachable: bool,
}

/// The `systemd-run` command line for `plan` (checked by
/// [`systemd_run_result`]).
pub open spec fn systemd_run_argv(plan: LaunchPlan) -> Seq<Seq<char>> {
    seq!["systemd-run"@, "--user"@, "--scope"@] + cpu_quota_args(plan.resource_spec)
        + memory_args(plan.resource_spec) + seq!["--"@] + target_args(plan)
}

pub open spec fn systemd_run_result(plan: LaunchPlan) -> Result<Seq<Seq<char>>, PlanError> {
    match plan_check(plan, Platform::Linux, PlanError::NotLinux) {
        Some(e) => Err(e),
        None => Ok(systemd_run_argv(plan)),
    }
}

/// Builds the `systemd-run --user --scope` command line that launches
/// `plan` with its limits as unit properties.
pub fn build_systemd_run_argv(plan: &LaunchPlan) -> (r: Result<Vec<String>, PlanError>)
    ensures
        argv_view(r) == systemd_run_result(*plan),
{
    if plan.platform != Platform::Linux {
        return Err(PlanError::NotLinux);
    }
    if plan.argv.len() == 0 {
        return Err(PlanError::EmptyArgv);
    }
    if plan.resource_spec.shell.is_some() && plan.argv.len() != 1 {
        return Err(PlanError::ShellTokenCount);
    }
    let mut argv: Vec<String> = Vec::new();
    argv.push("systemd-run".to_owned());
    argv.push("--user".to_owned());
    argv.push("--scope".to_owned());
    let ghost head = views(argv@);
    assert(head =~= seq!["systemd-run"@, "--user"@, "--scope"@]);
    push_limit_properties(&mut argv, &plan.resource_spec);
    let ghost before_delim = argv@;
    argv.push("--".to_owned());
    assert(views(argv@) =~= views(before_delim).push("--"@));
    push_target_args(&mut argv, plan);
    assert(views(argv@) =~= systemd_run_argv(*plan));
    Ok(argv)
}

/// The command line `LinuxSystemdBackend` hands to the spawner for
/// `plan`; the same as [`build_systemd_run_argv`].
pub fn linux_systemd_command_preview_for_test(plan: &LaunchPlan) -> (r: Result<Vec<String>, PlanError>)
    ensures
        argv_view(r) == systemd_run_result(*plan),
{
    build_systemd_run_argv(plan)
}

/// Every facet is enforced when all prerequisites hold, else unavailable.
pub open spec fn linux_level(probe: LinuxProbe) -> CapabilityLevel {
    if probe.has_systemd_run && probe.has_cgroup_v2 && probe.user_manager_reachable {
        CapabilityLevel::Enforced
    } else {
        CapabilityLevel::Unavailable
    }
}

pub open spec fn linux_warnings(probe: LinuxProbe) -> Seq<Seq<char>> {
    line_if(!probe.has_systemd_run, "systemd-run is not available in PATH"@)
        + line_if(!probe.has_cgroup_v2, "unified cgroup v2 is not available"@)
        + line_if(!probe.user_manager_reachable, "systemd user manager is unreachable"@)
}

pub open spec fn found_status(found: bool) -> PrerequisiteStatus {
    if found { PrerequisiteStatus::Satisfied } else { PrerequisiteStatus::Missing }
}

/// The user manager is only probed when `systemd-run` exists.
pub open spec fn user_manager_status(probe: LinuxProbe) -> PrerequisiteStatus {
    if !probe.has_systemd_run {
        PrerequisiteStatus::Skipped
    } else if probe.user_manager_reachable {
        PrerequisiteStatus::Satisfied
    } else {
        PrerequisiteStatus::Unreachable
    }
}

fn found_status_exec(found: bool) -> (r: PrerequisiteStatus)
    ensures
        r == found_status(found),
{
    if found { PrerequisiteStatus::Satisfied } else { PrerequisiteStatus::Missing }
}

/// The capability report for a Linux host with the given probe results.
pub fn detect_linux_capabilities(probe: LinuxProbe) -> (r: CapabilityReport)
    ensures
        r.platform == Platform::Linux,
        r.backend == BackendKind::LinuxSystemd,
        r.backend_state == linux_level(probe),
        r.cpu == linux_level(probe),
        r.memory == linux_level(probe),
        r.interactive == linux_level(probe),
        r.prerequisites@.len() == 3,
        prerequisite_is(r.prerequisites@[0], "systemd_run"@, found_status(probe.has_systemd_run)),
        prerequisite_is(r.prerequisites@[1], "cgroup_v2"@, found_status(probe.has_cgroup_v2)),
        prerequisite_is(r.prerequisites@[2], "user_manager"@, user_manager_status(probe)),
        views(r.warnings@) == linux_warnings(probe),
{
    let level = if probe.has_systemd_run && probe.has_cgroup_v2 && probe.user_manager_reachable {
        CapabilityLevel::Enforced
    } else {
        CapabilityLevel::Unavailable
    };
    let mut warnings: Vec<String> = Vec::new();
    push_line_if(&mut warnings, !probe.has_systemd_run, "systemd-run is not available in PATH");
    push_line_if(&mut warnings, !probe.has_cgroup_v2, "unified cgroup v2 is not available");
    push_line_if(&mut warnings, !probe.user_manager_reachable, "systemd user manager is unreachable");
    assert(views(warnings@) =~= linux_warnings(probe));
    let user_manager = if !probe.has_systemd_run {
        PrerequisiteStatus::Skipped
    } else if probe.user_manager_reachable {
        PrerequisiteStatus::Satisfied
    } else {
        PrerequisiteStatus::Unreachable
    };
    let mut prerequisites: Vec<DoctorPrerequisite> = Vec::new();
    prerequisites.push(DoctorPrerequisite::check("systemd_run", found_status_exec(probe.has_systemd_run)));
    prerequisites.push(DoctorPrerequisite::check("cgroup_v2", found_status_exec(probe.has_cgroup_v2)));
    prerequisites.push(DoctorPrerequisite::check("user_manager", user_manager));
    CapabilityReport {
        platform: Platform::Linux,
        backend: BackendKind::LinuxSystemd,
        backend_state: level,
        cpu: level,
        memory: level,
        interactive: level,
        prerequisites,
        warnings,
    }
}

/// The backend that launches through `systemd-run --scope`. The scope
/// runs the command in the spawned process itself, so waiting, sampling
/// and signalling go to that process and its group; the caller does them
/// with the command line built here.
#[derive(Debug, Default, Clone, Copy)]
pub struct LinuxSystemdBackend;

} // verus!
