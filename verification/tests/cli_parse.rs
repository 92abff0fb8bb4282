use scaler::cli::args::{
    build_launch_plan, current_platform, resolved_exit_code, Cli, Command, InteractiveModeArg,
    RunCommand, ShellArg, StatusCommand, UsageError, UsageErrorKind,
};
use scaler::cli::normalize_argv;
use scaler::cli::values::{is_plain_decimal, LimitError, LimitKind};
use scaler::engine::types::{CpuLimit, ExitStatus, InteractiveMode, MemoryLimit, Platform, ShellKind};

fn strings(items: &[&str]) -> Vec<String> {
    items.iter().map(|s| s.to_string()).collect()
}

fn run_command(trailing: &[&str]) -> RunCommand {
    RunCommand {
        cpu: None,
        mem: None,
        interactive: InteractiveModeArg::Auto,
        shell: None,
        monitor: false,
        detach: false,
        trailing: strings(trailing),
    }
}

#[test]
fn parses_decimal_cpu_limit() {
    assert_eq!(CpuLimit::parse("0.5c").unwrap().centi_cores(), 50);
}

#[test]
fn cpu_rounds_half_up_and_rejects_below_minimum() {
    assert_eq!(CpuLimit::parse(".005c").unwrap().centi_cores(), 1);
    assert!(CpuLimit::parse(".004c").is_err());
}

#[test]
fn rejects_zero_cpu_limit() {
    assert!(CpuLimit::parse("0c").is_err());
}

#[test]
fn parses_decimal_memory_limit() {
    assert_eq!(MemoryLimit::parse("1.5g").unwrap().bytes(), 1610612736);
}

#[test]
fn memory_units_are_case_insensitive_and_enforce_minimum() {
    assert_eq!(MemoryLimit::parse("1G").unwrap().bytes(), 1073741824);
    assert!(MemoryLimit::parse("0.5m").is_err());
}

#[test]
fn rejects_invalid_resource_forms() {
    for raw in ["-1c", "0c", "1e3c", "1_0c", "999999999999999999999999c"] {
        assert!(CpuLimit::parse(raw).is_err(), "{raw} should fail");
    }
    for raw in ["0m", "0.5k", "1e3m", "1_024m", "999999999999999999999999g"] {
        assert!(MemoryLimit::parse(raw).is_err(), "{raw} should fail");
    }
}

#[test]
fn normalize_argv_only_rewrites_literal_delimiter_form() {
    assert_eq!(
        normalize_argv(strings(&["scaler", "--", "echo", "ok"])),
        strings(&["scaler", "run", "--", "echo", "ok"])
    );
    assert_eq!(normalize_argv(strings(&["scaler", "--help"])), strings(&["scaler", "--help"]));
    assert_eq!(normalize_argv(strings(&["scaler", "--version"])), strings(&["scaler", "--version"]));
    assert_eq!(normalize_argv(strings(&["scaler", "foo"])), strings(&["scaler", "foo"]));
}

#[test]
fn shorthand_run_rewrites_without_guessing_shell() {
    assert_eq!(
        normalize_argv(strings(&["scaler", "--cpu", "1c", "--", "echo", "ok"])),
        strings(&["scaler", "run", "--cpu", "1c", "--", "echo", "ok"])
    );
    assert_eq!(
        normalize_argv(strings(&["scaler", "--mem=1g", "--", "echo"])),
        strings(&["scaler", "run", "--mem=1g", "--", "echo"])
    );
    assert_eq!(
        normalize_argv(strings(&["scaler", "-d", "--", "echo"])),
        strings(&["scaler", "run", "-d", "--", "echo"])
    );
}

#[test]
fn normalize_argv_leaves_flags_without_delimiter_alone() {
    assert_eq!(normalize_argv(strings(&["scaler", "--cpu", "1c"])), strings(&["scaler", "--cpu", "1c"]));
    assert_eq!(normalize_argv(strings(&["scaler", "--cpus", "--", "x"])), strings(&["scaler", "--cpus", "--", "x"]));
    assert_eq!(normalize_argv(strings(&["scaler"])), strings(&["scaler"]));
    assert_eq!(normalize_argv(Vec::new()), Vec::<String>::new());
}

#[test]
fn normalize_argv_is_idempotent() {
    let once = normalize_argv(strings(&["scaler", "--cpu", "1c", "--", "echo"]));
    let twice = normalize_argv(once.clone());
    assert_eq!(once, twice);
    let once = normalize_argv(strings(&["scaler", "--", "echo"]));
    assert_eq!(normalize_argv(once.clone()), once);
}

#[test]
fn shell_mode_requires_exactly_one_script() {
    let mut run = run_command(&[]);
    run.shell = Some(ShellArg::Sh);
    assert_eq!(run.validate(), Err(UsageError::ShellNeedsOneToken));
    run.trailing = strings(&["echo", "ok"]);
    assert_eq!(run.validate(), Err(UsageError::ShellNeedsOneToken));
    assert_eq!(UsageError::ShellNeedsOneToken.kind(), UsageErrorKind::WrongNumberOfValues);
}

#[test]
fn shell_mode_accepts_one_script() {
    let mut run = run_command(&["echo ok"]);
    run.shell = Some(ShellArg::Sh);
    assert_eq!(run.validate(), Ok(()));
    let cli = Cli { command: Command::Run(run) };
    assert_eq!(cli.command_name(), "run");
}

#[test]
fn bare_invocation_is_a_usage_error() {
    let run = run_command(&[]);
    assert_eq!(run.validate(), Err(UsageError::MissingCommand));
    assert_eq!(
        UsageError::MissingCommand.message(),
        "run requires at least one command token after `--`"
    );
    assert_eq!(UsageError::MissingCommand.kind(), UsageErrorKind::MissingRequiredArgument);
}

#[test]
fn run_detach_plus_interactive_always_errors() {
    let mut run = run_command(&["echo"]);
    run.detach = true;
    run.interactive = InteractiveModeArg::Always;
    let err = run.validate().unwrap_err();
    let rendered = err.message();
    assert!(rendered.contains("--detach") && rendered.contains("--interactive always"));
    assert_eq!(err.kind(), UsageErrorKind::ArgumentConflict);
}

#[test]
fn run_detach_plus_monitor_errors() {
    let mut run = run_command(&["echo"]);
    run.detach = true;
    run.monitor = true;
    let err = run.validate().unwrap_err();
    let rendered = err.message();
    assert!(rendered.contains("--detach") && rendered.contains("--monitor"));
}

#[test]
fn run_detach_plus_interactive_auto_is_fine() {
    let mut run = run_command(&["echo"]);
    run.detach = true;
    assert_eq!(run.validate(), Ok(()));
}

#[test]
fn command_names_match_subcommands() {
    assert_eq!(Cli { command: Command::Doctor }.command_name(), "doctor");
    assert_eq!(Cli { command: Command::Version }.command_name(), "version");
    let status = StatusCommand { id: None, json: false };
    assert_eq!(Cli { command: Command::Status(status) }.command_name(), "status");
    assert_eq!(Cli { command: Command::Finalize { id: "x".to_string() } }.command_name(), "__finalize");
    assert_eq!(Cli { command: Command::Doctor }.validate(), Ok(()));
}

#[test]
fn launch_plan_carries_flags_over() {
    let mut run = run_command(&["echo ok"]);
    run.cpu = Some(CpuLimit::from_centi_cores(50));
    run.mem = Some(MemoryLimit::from_bytes(1024));
    run.shell = Some(ShellArg::Zsh);
    run.interactive = InteractiveModeArg::Never;
    run.monitor = true;
    let plan = build_launch_plan(run, Platform::Linux);
    assert_eq!(plan.argv, strings(&["echo ok"]));
    assert_eq!(plan.resource_spec.cpu, Some(CpuLimit::from_centi_cores(50)));
    assert_eq!(plan.resource_spec.mem, Some(MemoryLimit::from_bytes(1024)));
    assert_eq!(plan.resource_spec.shell, Some(ShellKind::Zsh));
    assert_eq!(plan.resource_spec.interactive, InteractiveMode::Never);
    assert!(plan.resource_spec.monitor);
    assert_eq!(plan.platform, Platform::Linux);
}

#[test]
fn platform_follows_os_name() {
    assert_eq!(current_platform("linux"), Platform::Linux);
    assert_eq!(current_platform("macos"), Platform::Macos);
    assert_eq!(current_platform("windows"), Platform::Unsupported);
}

#[test]
fn exit_code_passes_codes_and_maps_signals() {
    assert_eq!(resolved_exit_code(ExitStatus::Exited(3)), Some(3));
    assert_eq!(resolved_exit_code(ExitStatus::Signaled(9)), Some(137));
}

#[test]
fn limits_follow_the_plain_decimal_grammar() {
    assert!(CpuLimit::parse("+0.5c").is_err());
    assert!(MemoryLimit::parse("+1g").is_err());
    assert!(CpuLimit::parse("1.c").is_err());
    assert!(CpuLimit::parse("-1c").is_err());
    assert!(CpuLimit::parse("1_0c").is_err());
    assert!(CpuLimit::parse("1e3c").is_err());
    assert!(CpuLimit::parse("1..5c").is_err());
    assert_eq!(CpuLimit::parse(".25c").unwrap().centi_cores(), 25);
    assert_eq!(CpuLimit::parse("2C").unwrap().centi_cores(), 200);
    assert_eq!(MemoryLimit::parse("512m").unwrap().bytes(), 536_870_912);
    assert_eq!(
        CpuLimit::parse("+0.5c").unwrap_err(),
        LimitError::NotPlainDecimal(LimitKind::Cpu)
    );
    assert!(is_plain_decimal("12.5"));
    assert!(is_plain_decimal(".5"));
    assert!(is_plain_decimal("7"));
    assert!(!is_plain_decimal(""));
    assert!(!is_plain_decimal("."));
    assert!(!is_plain_decimal("5."));
    assert!(!is_plain_decimal("+5"));
    assert!(!is_plain_decimal("1.2.3"));
}

#[test]
fn limits_are_determined_by_their_counts() {
    assert_eq!(CpuLimit::from_centi_cores(50), CpuLimit::from_centi_cores(50));
    assert_ne!(CpuLimit::from_centi_cores(50), CpuLimit::from_centi_cores(51));
    assert_eq!(CpuLimit::from_centi_cores(7).centi_cores(), 7);
    assert_eq!(MemoryLimit::from_bytes(1 << 20), MemoryLimit::from_bytes(1 << 20));
    assert_ne!(MemoryLimit::from_bytes(1 << 20), MemoryLimit::from_bytes((1 << 20) + 1));
    assert_eq!(MemoryLimit::from_bytes(4096).bytes(), 4096);
}

#[test]
fn limit_values_follow_the_written_number() {
    assert_eq!(
        CpuLimit::parse("999999999999999999999999c").unwrap_err(),
        LimitError::OutOfRange(LimitKind::Cpu)
    );
    assert_eq!(CpuLimit::parse(".004c").unwrap_err(), LimitError::CpuBelowMinimum);
    assert_eq!(CpuLimit::parse("0c").unwrap_err(), LimitError::NotPositive(LimitKind::Cpu));
    assert_eq!(CpuLimit::parse("0.125c").unwrap().centi_cores(), 13);
    assert_eq!(CpuLimit::parse("0.50c").unwrap().centi_cores(), 50);
    assert_eq!(MemoryLimit::parse("0.5m").unwrap_err(), LimitError::MemoryBelowMinimum);
    assert_eq!(MemoryLimit::parse("0.0g").unwrap_err(), LimitError::NotPositive(LimitKind::Memory));
    assert_eq!(MemoryLimit::parse("1.0000001m").unwrap().bytes(), 1_048_576);
}
