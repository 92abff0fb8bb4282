use scaler::engine::argv::PlanError;
use scaler::engine::output::{next_sequence, OutputCollector};
use scaler::engine::run_loop::{
    build_local_command, check_command, control_interval_millis, display_command, events_matching,
    plain_fallback_command_preview_for_test, preferred_io_mode, process_group_kill_args,
    pty_path_available, render_launch_target_command, select_execution, shell_escape, ui_start_events,
    update_peak_memory, InterruptEscalation, InterruptPlan, LoopState, SelectionError, TerminalState,
};
use scaler::engine::types::{
    CapabilityReport, CpuLimit, ExitStatus, InteractiveMode, IoMode, LaunchPlan, MemoryLimit, OutputStream,
    Platform, ResourceSpec, ShellKind, Signal,
};

fn plan(argv: &[&str], platform: Platform) -> LaunchPlan {
    LaunchPlan {
        argv: argv.iter().map(|s| s.to_string()).collect(),
        resource_spec: ResourceSpec::default(),
        platform,
    }
}

fn terminals(all: bool) -> TerminalState {
    TerminalState { stdin: all, stdout: all, stderr: all }
}

#[test]
fn pipe_frames_keep_per_stream_order() {
    let mut sequence = 0;

    assert_eq!(next_sequence(&mut sequence), 0);
    assert_eq!(next_sequence(&mut sequence), 1);
    assert_eq!(next_sequence(&mut sequence), 2);

    let mut collector = OutputCollector::default();
    let stdout_first = collector.push_stdout(b"first");
    let stdout_second = collector.push_stdout(b"second");

    assert_eq!(stdout_first.sequence + 1, stdout_second.sequence);
    assert_eq!(stdout_first.sequence, 0);
    assert_eq!(stdout_second.sequence, 1);
    assert_eq!(stdout_first.stream, OutputStream::Stdout);
    assert_eq!(stdout_second.stream, OutputStream::Stdout);
    assert_eq!(stdout_first.bytes, b"first");
    assert_eq!(stdout_second.bytes, b"second");
}

#[test]
fn stderr_and_pty_frames_are_tagged_correctly() {
    let mut collector = OutputCollector::default();

    let stderr = collector.push_stderr(b"problem");
    let pty = collector.push_pty(b"prompt");

    assert_eq!(stderr.stream, OutputStream::Stderr);
    assert_eq!(pty.stream, OutputStream::PtyMerged);
    assert!(stderr.sequence < pty.sequence);
}

#[test]
fn interrupt_plan_is_sigint_then_sigterm_then_sigkill() {
    let plan = InterruptPlan::default();

    assert_eq!(plan.sigterm_after() / 1000, 2);
    assert_eq!(plan.sigkill_after() / 1000, 5);
}

#[test]
fn escalation_sends_each_signal_once_in_order() {
    let plan = InterruptPlan::new(20, 40);
    let mut esc = InterruptEscalation::new();
    assert!(esc.step(&plan, 0, false).is_empty());
    assert!(esc.awaiting_interrupt());
    assert_eq!(esc.step(&plan, 5, true), vec![Signal::Interrupt]);
    assert!(!esc.awaiting_interrupt());
    assert!(esc.step(&plan, 24, false).is_empty());
    assert_eq!(esc.step(&plan, 25, false), vec![Signal::Terminate]);
    assert!(esc.step(&plan, 44, true).is_empty());
    assert_eq!(esc.step(&plan, 45, false), vec![Signal::Kill]);
    assert!(esc.step(&plan, 1000, true).is_empty());
}

#[test]
fn escalation_catches_up_after_a_long_pause() {
    let plan = InterruptPlan::new(20, 40);
    let mut esc = InterruptEscalation::new();
    assert_eq!(esc.step(&plan, 100, true), vec![Signal::Interrupt]);
    assert_eq!(esc.step(&plan, 500, false), vec![Signal::Terminate, Signal::Kill]);
}

#[test]
fn peak_memory_never_goes_down() {
    assert_eq!(update_peak_memory(None, None, 10), Some(10));
    assert_eq!(update_peak_memory(Some(10), None, 5), Some(10));
    assert_eq!(update_peak_memory(Some(10), Some(30), 5), Some(30));
    assert_eq!(update_peak_memory(None, Some(7), 100), Some(7));
}

#[test]
fn control_interval_is_capped() {
    assert_eq!(control_interval_millis(500), 10);
    assert_eq!(control_interval_millis(5), 5);
}

#[test]
fn io_mode_selection() {
    assert_eq!(preferred_io_mode(InteractiveMode::Always), IoMode::Pty);
    assert_eq!(preferred_io_mode(InteractiveMode::Auto), IoMode::Pipes);
    assert!(pty_path_available(Platform::Linux, true));
    assert!(!pty_path_available(Platform::Macos, false));

    let mut p = plan(&["echo"], Platform::Linux);
    p.resource_spec.monitor = true;
    let sel = select_execution(&p, terminals(true), true).unwrap();
    assert_eq!(sel.io_mode, IoMode::Pty);
    assert!(sel.use_tui && sel.compact);
    assert_eq!(sel.plan.resource_spec.interactive, InteractiveMode::Always);

    let sel = select_execution(&p, terminals(false), true).unwrap();
    assert_eq!(sel.io_mode, IoMode::Pipes);
    assert!(!sel.use_tui && !sel.compact);
    assert_eq!(sel.plan.resource_spec.interactive, InteractiveMode::Never);

    p.resource_spec.interactive = InteractiveMode::Always;
    let err = select_execution(&p, terminals(true), false).unwrap_err();
    assert_eq!(err, SelectionError::PtyUnavailable);
    assert_eq!(err.message(), "interactive=always requires PTY support before launch");
}

#[test]
fn shell_escape_quotes_only_when_needed() {
    assert_eq!(shell_escape("/usr/bin/env"), "/usr/bin/env");
    assert_eq!(shell_escape("a b"), "'a b'");
    assert_eq!(shell_escape("it's"), "'it'\"'\"'s'");
    assert_eq!(shell_escape(""), "");
}

#[test]
fn launch_target_renders_one_command_line() {
    assert_eq!(render_launch_target_command(&plan(&["echo", "a b"], Platform::Linux)).unwrap(), "echo 'a b'");
    let mut p = plan(&["echo $HOME"], Platform::Linux);
    p.resource_spec.shell = Some(ShellKind::Bash);
    assert_eq!(render_launch_target_command(&p).unwrap(), "bash -lc 'echo $HOME'");
    assert_eq!(display_command(&p), "bash -lc 'echo $HOME'");
    let mut bad = plan(&["a", "b"], Platform::Linux);
    bad.resource_spec.shell = Some(ShellKind::Sh);
    assert_eq!(render_launch_target_command(&bad).unwrap_err(), PlanError::ShellTokenCount);
    assert_eq!(display_command(&bad), "a b");
}

#[test]
fn linux_pty_fallback_command_preview_uses_util_linux_script_shape() {
    let mut p = plan(&["printf", "ready"], Platform::Linux);
    p.resource_spec.interactive = InteractiveMode::Always;
    let preview = plain_fallback_command_preview_for_test(&p).unwrap();
    assert_eq!(preview, vec!["script", "-q", "-e", "-c", "printf ready", "/dev/null"]);
}

#[test]
fn macos_pty_command_passes_the_target_as_arguments() {
    let p = plan(&["printf", "a b"], Platform::Macos);
    let argv = build_local_command(&p, IoMode::Pty).unwrap();
    assert_eq!(argv, vec!["script", "-q", "/dev/null", "printf", "a b"]);
    let argv = build_local_command(&p, IoMode::Pipes).unwrap();
    assert_eq!(argv, vec!["printf", "a b"]);
    assert_eq!(build_local_command(&plan(&[], Platform::Macos), IoMode::Pipes).unwrap_err(), PlanError::EmptyArgv);
}

#[test]
fn process_group_signals() {
    assert_eq!(process_group_kill_args(42, Signal::Interrupt), vec!["-INT", "--", "-42"]);
    assert_eq!(process_group_kill_args(7, Signal::Kill), vec!["-KILL", "--", "-7"]);
}

#[test]
fn recorded_events_are_filtered_in_order() {
    let events = vec!["launch", "noise", "restore_terminal", "launch", "render_summary"];
    let interesting = vec!["launch", "render_summary"];
    assert_eq!(events_matching(&events, &interesting), vec!["launch", "launch", "render_summary"]);
}

#[test]
fn empty_command_is_refused_before_launch() {
    let p = plan(&[], Platform::Linux);
    assert_eq!(check_command(&p), Err(PlanError::EmptyArgv));
    assert_eq!(PlanError::EmptyArgv.message(), "launch plan argv must not be empty");
    assert_eq!(check_command(&plan(&["echo"], Platform::Linux)), Ok(()));
    // Selection itself does not look at the command.
    let mut never = plan(&[], Platform::Linux);
    never.resource_spec.interactive = InteractiveMode::Never;
    assert_eq!(select_execution(&never, terminals(false), false).unwrap().io_mode, IoMode::Pipes);
}

#[test]
fn finished_loop_state_becomes_the_run_outcome() {
    let mut p = plan(&["echo"], Platform::Linux);
    p.resource_spec.cpu = Some(CpuLimit::from_centi_cores(50));
    p.resource_spec.mem = Some(MemoryLimit::from_bytes(1 << 30));
    let mut state = LoopState::new(0);
    state.peak_memory = Some(4096);
    let outcome = state.into_outcome(
        &p,
        ExitStatus::Exited(3),
        1_500_000_000,
        Some(8 << 30),
        Some(4),
        CapabilityReport::fully_enforced_for_test(),
        vec!["careful".to_string()],
    );
    assert_eq!(outcome.exit_status, ExitStatus::Exited(3));
    assert_eq!(outcome.elapsed_nanos, 1_500_000_000);
    assert_eq!(outcome.peak_memory, Some(4096));
    assert_eq!(outcome.mem_limit_bytes, Some(1 << 30));
    assert_eq!(outcome.cpu_limit_centi_cores, Some(50));
    assert_eq!(outcome.system_memory_bytes, Some(8 << 30));
    assert_eq!(outcome.host_logical_cores, Some(4));
    assert!(outcome.samples.is_empty());
    assert_eq!(outcome.warnings, vec!["careful".to_string()]);
    assert_eq!(outcome.total_cpu_nanos, None);
}

#[test]
fn escalation_sends_each_signal_on_its_own_delay_for_any_plan() {
    // SIGKILL's delay shorter than SIGTERM's: each still goes out on its own.
    let plan = InterruptPlan::new(5_000, 2_000);
    let mut e = InterruptEscalation::new();
    assert_eq!(e.step(&plan, 100, true), vec![Signal::Interrupt]);
    assert_eq!(e.step(&plan, 2_100, false), vec![Signal::Kill]);
    assert_eq!(e.step(&plan, 5_100, false), vec![Signal::Terminate]);
    assert!(e.step(&plan, 9_000, true).is_empty());
}

#[test]
fn plain_start_always_records_the_monitor_as_unavailable() {
    assert_eq!(ui_start_events(false, false, false), vec!["monitor_unavailable", "plain_renderer_active"]);
    assert_eq!(ui_start_events(true, false, true), vec!["monitor_unavailable", "plain_renderer_active"]);
    assert_eq!(ui_start_events(true, true, false), vec!["tui_renderer_active"]);
    assert_eq!(ui_start_events(true, true, true), vec!["tui_renderer_active", "compact_interactive_mode"]);
}
