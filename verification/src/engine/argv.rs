//! Pieces shared by every launcher that turns a [`LaunchPlan`] into a
//! command line: the resource-limit properties understood by systemd and
//! the target command itself (plain or wrapped in a shell).

use vstd::prelude::*;
use crate::engine::types::{LaunchPlan, ResourceSpec, ShellKind, Platform};
use crate::text::{digits, views, push_digits};

verus! {

/// Why a launch plan cannot be turned into a command line.
#[derive(Debug, Clone, Copy, PartialEq, Eq, Structural)]
pub enum PlanError {
    NotLinux,
    NotMacos,
    EmptyArgv,
    EmptyUnitName,
    ShellTokenCount,
}

impl PlanError {
    pub open spec fn message_spec(self) -> Seq<char> {
        match self {
            PlanError::NotLinux => "linux systemd backend requires a linux launch plan"@,
            PlanError::NotMacos => "macos taskpolicy backend requires a macos launch plan"@,
            PlanError::EmptyArgv => "launch plan argv must not be empty"@,
            PlanError::EmptyUnitName => "unit name must not be empty"@,
            PlanError::ShellTokenCount => "shell launch plan requires exactly one script token"@,
        }
    }

    /// The human-readable error text.
    pub fn message(&self) -> (r: String)
        ensures
            r@ == self.message_spec(),
    {
        match self {
            PlanError::NotLinux => "linux systemd backend requires a linux launch plan".to_owned(),
            PlanError::NotMacos => "macos taskpolicy backend requires a macos launch plan".to_owned(),
            PlanError::EmptyArgv => "launch plan argv must not be empty".to_owned(),
            PlanError::EmptyUnitName => "unit name must not be empty".to_owned(),
            PlanError::ShellTokenCount => "shell launch plan requires exactly one script token".to_owned(),
        }
    }
}

/// The views of a command line built by this crate, or the error.
pub open spec fn argv_view(r: Result<Vec<String>, PlanError>) -> Result<Seq<Seq<char>>, PlanError> {
    match r {
        Ok(v) => Ok(views(v@)),
        Err(e) => Err(e),
    }
}

/// Shell mode needs exactly one script token.
pub open spec fn shell_tokens_ok(plan: LaunchPlan) -> bool {
    plan.resource_spec.shell.is_none() || plan.argv@.len() == 1
}

/// The checks shared by every launcher, in the order they are made.
pub open spec fn plan_check(plan: LaunchPlan, platform: Platform, wrong: PlanError) -> Option<PlanError> {
    if plan.platform != platform {
        Some(wrong)
    } else if plan.argv@.len() == 0 {
        Some(PlanError::EmptyArgv)
    } else if !shell_tokens_ok(plan) {
        Some(PlanError::ShellTokenCount)
    } else {
        None
    }
}

/// The target command: the argv itself, or `<shell> -lc <script>`.
pub open spec fn target_args(plan: LaunchPlan) -> Seq<Seq<char>> {
    match plan.resource_spec.shell {
        Some(shell) => seq![shell.program(), "-lc"@, plan.argv@[0]@],
        None => views(plan.argv@),
    }
}

/// `MemoryHigh` is 90 % of the cap, rounded half up.
pub open spec fn memory_high(bytes: nat) -> nat {
    (bytes * 9 + 5) / 10
}

/// `--property=CPUQuota=<centi-cores>%` when a CPU cap is set.
pub open spec fn cpu_quota_args(spec: ResourceSpec) -> Seq<Seq<char>> {
    match spec.cpu {
        Some(cpu) => seq!["--property=CPUQuota="@ + digits(cpu.spec_centi_cores() as nat) + "%"@],
        None => Seq::empty(),
    }
}

/// The three memory properties when a memory cap is set.
pub open spec fn memory_args(spec: ResourceSpec) -> Seq<Seq<char>> {
    match spec.mem {
        Some(mem) => seq![
            "--property=MemoryHigh="@ + digits(memory_high(mem.spec_bytes() as nat)),
            "--property=MemoryMax="@ + digits(mem.spec_bytes() as nat),
            "--property=MemorySwapMax=0"@,
        ],
        None => Seq::empty(),
    }
}

/// A string holding `prefix` followed by the digits of `n`.
pub fn prefixed_number(prefix: &str, n: u128) -> (r: String)
    ensures
        r@ == prefix@ + digits(n as nat),
{
    let mut s = prefix.to_owned();
    push_digits(&mut s, n);
    s
}

/// Appends the CPU and memory properties of `spec`.
pub fn push_limit_properties(argv: &mut Vec<String>, spec: &ResourceSpec)
    ensures
        views(final(argv)@) == views(old(argv)@) + cpu_quota_args(*spec) + memory_args(*spec),
{
    let ghost start = views(argv@);
    if let Some(cpu) = spec.cpu {
        let mut quota = prefixed_number("--property=CPUQuota=", cpu.centi_cores() as u128);
        quota.append("%");
        argv.push(quota);
    }
    assert(views(argv@) =~= start + cpu_quota_args(*spec));
    if let Some(mem) = spec.mem {
        let bytes = mem.bytes();
        let high = ((bytes as u128) * 9 + 5) / 10;
        argv.push(prefixed_number("--property=MemoryHigh=", high));
        argv.push(prefixed_number("--property=MemoryMax=", bytes as u128));
        argv.push("--property=MemorySwapMax=0".to_owned());
    }
    assert(views(argv@) =~= start + cpu_quota_args(*spec) + memory_args(*spec));
}

/// Appends the target command of `plan`.
pub fn push_target_args(argv: &mut Vec<String>, plan: &LaunchPlan)
    requires
        plan.argv@.len() > 0,
        shell_tokens_ok(*plan),
    ensures
        views(final(argv)@) == views(old(argv)@) + target_args(*plan),
{
    let ghost start = views(argv@);
    match plan.resource_spec.shell {
        Some(shell) => {
            argv.push(shell_program(shell).to_owned());
            argv.push("-lc".to_owned());
            argv.push(plan.argv[0].clone());
            assert(views(argv@) =~= start + target_args(*plan));
        },
        None => {
            let mut i: usize = 0;
            while i < plan.argv.len()
                invariant
                    i <= plan.argv@.len(),
                    views(argv@) =~= start + views(plan.argv@).take(i as int),
                decreases plan.argv@.len() - i,
            {
                let ghost before = argv@;
                argv.push(plan.argv[i].clone());
                assert(views(argv@) =~= views(before).push(plan.argv@[i as int]@));
                assert(views(plan.argv@).take(i + 1) =~= views(plan.argv@).take(i as int).push(plan.argv@[i as int]@));
                i = i + 1;
            }
            assert(views(plan.argv@).take(plan.argv@.len() as int) =~= views(plan.argv@));
        },
    }
}

/// The program that runs a one-token script for `shell`.
pub fn shell_program(shell: ShellKind) -> (r: &'static str)
    ensures
        r@ == shell.program(),
{
    shell.program_name()
}

} // verus!
