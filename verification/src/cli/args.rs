//! The parsed command line, its cross-flag rules, and how a `run`
//! command becomes a launch plan.

use vstd::prelude::*;
use crate::engine::types::{
    BackendKind, CpuLimit, ExitStatus, InteractiveMode, LaunchPlan, MemoryLimit, Platform,
    ResourceSpec, ShellKind,
};
use crate::text::str_eq;

verus! {

#[derive(Debug, Clone, Copy, PartialEq, Eq, Structural)]
pub enum InteractiveModeArg {
    Auto,
    Always,
    Never,
}

#[derive(Debug, Clone, Copy, PartialEq, Eq, Structural)]
pub enum ShellArg {
    Sh,
    Bash,
    Zsh,
}

/// `scaler run [flags] -- <command...>`.
#[derive(Debug, Clone)]
pub struct RunCommand {
    pub cpu: Option<CpuLimit>,
    pub mem: Option<MemoryLimit>,
    pub interactive: InteractiveModeArg,
    pub shell: Option<ShellArg>,
    pub monitor: bool,
    pub detach: bool,
    pub trailing: Vec<String>,
}

/// `scaler status [id] [--json]`.
#[derive(Debug, Clone)]
pub struct StatusCommand {
    pub id: Option<String>,
    pub json: bool,
}

#[derive(Debug, Clone)]
pub enum Command {
    Run(RunCommand),
    Doctor,
    Version,
    Status(StatusCommand),
    Finalize { id: String },
}

#[derive(Debug, Clone)]
pub struct Cli {
    pub command: Command,
}

/// The kind of usage error, as the argument parser classifies it.
#[derive(Debug, Clone, Copy, PartialEq, Eq, Structural)]
pub enum UsageErrorKind {
    ArgumentConflict,
    WrongNumberOfValues,
    MissingRequiredArgument,
}

/// A `run` command whose flags do not fit together.
#[derive(Debug, Clone, Copy, PartialEq, Eq, Structural)]
pub enum UsageError {
    DetachWithMonitor,
    DetachWithInteractiveAlways,
    ShellNeedsOneToken,
    MissingCommand,
}

impl UsageError {
    pub open spec fn message_spec(self) -> Seq<char> {
        match self {
            UsageError::DetachWithMonitor => "--detach cannot combine with --monitor"@,
            UsageError::DetachWithInteractiveAlways => "--detach cannot combine with --interactive always"@,
            UsageError::ShellNeedsOneToken => "shell mode requires exactly one script token after `--`"@,
            UsageError::MissingCommand => "run requires at least one command token after `--`"@,
        }
    }

    pub open spec fn kind_spec(self) -> UsageErrorKind {
        match self {
            UsageError::DetachWithMonitor => UsageErrorKind::ArgumentConflict,
            UsageError::DetachWithInteractiveAlways => UsageErrorKind::ArgumentConflict,
            UsageError::ShellNeedsOneToken => UsageErrorKind::WrongNumberOfValues,
            UsageError::MissingCommand => UsageErrorKind::MissingRequiredArgument,
        }
    }

    pub fn message(&self) -> (r: &'static str)
        ensures
            r@ == self.message_spec(),
    {
        match self {
            UsageError::DetachWithMonitor => "--detach cannot combine with --monitor",
            UsageError::DetachWithInteractiveAlways => "--detach cannot combine with --interactive always",
            UsageError::ShellNeedsOneToken => "shell mode requires exactly one script token after `--`",
            UsageError::MissingCommand => "run requires at least one command token after `--`",
        }
    }

    pub fn kind(&self) -> (r: UsageErrorKind)
        ensures
            r == self.kind_spec(),
    {
        match self {
            UsageError::DetachWithMonitor => UsageErrorKind::ArgumentConflict,
            UsageError::DetachWithInteractiveAlways => UsageErrorKind::ArgumentConflict,
            UsageError::ShellNeedsOneToken => UsageErrorKind::WrongNumberOfValues,
            UsageError::MissingCommand => UsageErrorKind::MissingRequiredArgument,
        }
    }
}

/// The first rule a `run` command breaks, checked in this order.
pub open spec fn run_check(run: RunCommand) -> Option<UsageError> {
    if run.detach && run.monitor {
        Some(UsageError::DetachWithMonitor)
    } else if run.detach && run.interactive == InteractiveModeArg::Always {
        Some(UsageError::DetachWithInteractiveAlways)
    } else if run.shell.is_some() && run.trailing@.len() != 1 {
        Some(UsageError::ShellNeedsOneToken)
    } else if run.shell.is_none() && run.trailing@.len() == 0 {
        Some(UsageError::MissingCommand)
    } else {
        None
    }
}

pub open spec fn as_result(check: Option<UsageError>) -> Result<(), UsageError> {
    match check {
        Some(e) => Err(e),
        None => Ok(()),
    }
}

impl RunCommand {
    /// Checks the rules that the flags of `run` must follow together.
    pub fn validate(&self) -> (r: Result<(), UsageError>)
        ensures
            r == as_result(run_check(*self)),
    {
        if self.detach && self.monitor {
            return Err(UsageError::DetachWithMonitor);
        }
        if self.detach && self.interactive == InteractiveModeArg::Always {
            return Err(UsageError::DetachWithInteractiveAlways);
        }
        match self.shell {
            Some(_) => if self.trailing.len() != 1 {
                Err(UsageError::ShellNeedsOneToken)
            } else {
                Ok(())
            },
            None => if self.trailing.len() == 0 {
                Err(UsageError::MissingCommand)
            } else {
                Ok(())
            },
        }
    }
}

pub open spec fn command_name_spec(command: Command) -> Seq<char> {
    match command {
        Command::Run(_) => "run"@,
        Command::Doctor => "doctor"@,
        Command::Version => "version"@,
        Command::Status(_) => "status"@,
        Command::Finalize { .. } => "__finalize"@,
    }
}

impl Cli {
    /// The subcommand's name as typed on the command line.
    pub fn command_name(&self) -> (r: &'static str)
        ensures
            r@ == command_name_spec(self.command),
    {
        match self.command {
            Command::Run(_) => "run",
            Command::Doctor => "doctor",
            Command::Version => "version",
            Command::Status(_) => "status",
            Command::Finalize { .. } => "__finalize",
        }
    }

    /// Checks the cross-flag rules; only `run` has any.
    pub fn validate(&self) -> (r: Result<(), UsageError>)
        ensures
            r == match self.command {
                Command::Run(run) => as_result(run_check(run)),
                _ => Ok(()),
            },
    {
        match &self.command {
            Command::Run(run) => run.validate(),
            _ => Ok(()),
        }
    }
}

pub open spec fn interactive_mode_of(arg: InteractiveModeArg) -> InteractiveMode {
    match arg {
        InteractiveModeArg::Auto => InteractiveMode::Auto,
        InteractiveModeArg::Always => InteractiveMode::Always,
        InteractiveModeArg::Never => InteractiveMode::Never,
    }
}

pub open spec fn shell_kind_of(arg: Option<ShellArg>) -> Option<ShellKind> {
    match arg {
        Some(ShellArg::Sh) => Some(ShellKind::Sh),
        Some(ShellArg::Bash) => Some(ShellKind::Bash),
        Some(ShellArg::Zsh) => Some(ShellKind::Zsh),
        None => None,
    }
}

/// The launch plan for a `run` command on `platform`.
pub fn build_launch_plan(run: RunCommand, platform: Platform) -> (r: LaunchPlan)
    ensures
        r.argv@ == run.trailing@,
        r.resource_spec == (ResourceSpec {
            cpu: run.cpu,
            mem: run.mem,
            interactive: interactive_mode_of(run.interactive),
            shell: shell_kind_of(run.shell),
            monitor: run.monitor,
        }),
        r.platform == platform,
{
    let interactive = match run.interactive {
        InteractiveModeArg::Auto => InteractiveMode::Auto,
        InteractiveModeArg::Always => InteractiveMode::Always,
        InteractiveModeArg::Never => InteractiveMode::Never,
    };
    let shell = match run.shell {
        Some(ShellArg::Sh) => Some(ShellKind::Sh),
        Some(ShellArg::Bash) => Some(ShellKind::Bash),
        Some(ShellArg::Zsh) => Some(ShellKind::Zsh),
        None => None,
    };
    LaunchPlan {
        argv: run.trailing,
        resource_spec: ResourceSpec { cpu: run.cpu, mem: run.mem, interactive, shell, monitor: run.monitor },
        platform,
    }
}

pub open spec fn platform_of(os: Seq<char>) -> Platform {
    if os == "linux"@ {
        Platform::Linux
    } else if os == "macos"@ {
        Platform::Macos
    } else {
        Platform::Unsupported
    }
}

/// The platform named by `std::env::consts::OS`.
pub fn current_platform(os: &str) -> (r: Platform)
    ensures
        r == platform_of(os@),
{
    if str_eq(os, "linux") {
        Platform::Linux
    } else if str_eq(os, "macos") {
        Platform::Macos
    } else {
        Platform::Unsupported
    }
}

/// Limits were asked for but the plain fallback will run the command,
/// so they will not be enforced.
pub open spec fn limits_dropped(plan: LaunchPlan, effective: BackendKind) -> bool {
    (plan.resource_spec.cpu.is_some() || plan.resource_spec.mem.is_some())
        && effective == BackendKind::PlainFallback
}

pub fn resource_limits_will_be_dropped(plan: &LaunchPlan, effective: BackendKind) -> (r: bool)
    ensures
        r == limits_dropped(*plan, effective),
{
    (plan.resource_spec.cpu.is_some() || plan.resource_spec.mem.is_some())
        && effective == BackendKind::PlainFallback
}

/// The notice printed when limits will not be enforced.
pub fn dropped_limits_notice() -> (r: &'static str)
    ensures
        r@ == "scaler: resource limits NOT being enforced on this host; run `scaler doctor` for details"@,
{
    "scaler: resource limits NOT being enforced on this host; run `scaler doctor` for details"
}

pub open spec fn exit_code_spec(status: ExitStatus) -> i32 {
    match status {
        ExitStatus::Exited(code) => code,
        ExitStatus::Signaled(signal) => (128 + signal) as i32,
    }
}

/// The exit code `scaler` passes on: the child's own, or 128 plus the
/// number of the signal that killed it.
pub fn resolved_exit_code(status: ExitStatus) -> (r: Option<i32>)
    requires
        status matches ExitStatus::Signaled(signal) ==> signal <= i32::MAX - 128,
    ensures
        r == Some(exit_code_spec(status)),
{
    match status {
        ExitStatus::Exited(code) => Some(code),
        ExitStatus::Signaled(signal) => Some(128 + signal),
    }
}

} // verus!
