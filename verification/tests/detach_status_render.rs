use scaler::cli::status::{
    duration_from_timestamps, format_list_row, format_mib, format_secs, render_detail_text,
    render_list_text, LiveSnapshot, RunView,
};
use scaler::detach::state::{Meta, RunResult, RunState};

fn meta(id: &str) -> Meta {
    Meta {
        version: 1,
        id: id.to_string(),
        started: "2026-04-08T14:30:22+00:00".into(),
        command: vec!["npm".into(), "install".into()],
        cwd: "/tmp".into(),
        cpu_limit_centi_cores: Some(80),
        mem_limit_bytes: Some(600 * 1024 * 1024),
        platform: "linux".into(),
        backend: "linux_systemd".into(),
        backend_state: "enforced".into(),
        pid: None,
        unit_name: Some(format!("scaler-run-{id}.service")),
        scaler_exe: "/usr/local/bin/scaler".into(),
        scaler_version: "1.0.1".into(),
        stdout_log: format!("/tmp/runs/{id}/stdout.log"),
        stderr_log: format!("/tmp/runs/{id}/stderr.log"),
    }
}

fn exited_result(id: &str, code: i32) -> RunResult {
    RunResult {
        version: 1,
        id: id.into(),
        ended: "2026-04-08T14:45:00+00:00".into(),
        state: RunState::Exited,
        exit_code: Some(code),
        signal: None,
        cpu_total_nanos: Some(600_000_000_000),
        memory_peak_bytes: Some(500 * 1024 * 1024),
        launch_error: None,
    }
}

#[test]
fn list_shows_exited_success() {
    let view = RunView {
        meta: meta("20260408-143022-a1b2"),
        result: Some(exited_result("20260408-143022-a1b2", 0)),
        live: None,
        gone: false,
    };
    let s = render_list_text(&vec![view]);
    assert!(s.contains("20260408-143022-a1b2"));
    assert!(s.contains("exited(0)"));
    assert!(s.contains("npm install"));
}

#[test]
fn list_shows_running_with_live_duration() {
    let view = RunView {
        meta: meta("20260408-143022-a1b2"),
        result: None,
        live: Some(LiveSnapshot {
            cpu_total_nanos: Some(12_000_000_000),
            memory_current_bytes: Some(200 * 1024 * 1024),
            elapsed_secs: Some(125),
        }),
        gone: false,
    };
    let s = render_list_text(&vec![view]);
    assert!(s.contains("running"));
    assert!(s.contains("2m05s"));
}

#[test]
fn list_marks_gone_runs() {
    let view = RunView {
        meta: meta("20260408-143022-a1b2"),
        result: None,
        live: None,
        gone: true,
    };
    let s = render_list_text(&vec![view]);
    assert!(s.contains("gone"));
}

#[test]
fn detail_contains_all_expected_fields_for_exited() {
    let view = RunView {
        meta: meta("20260408-143022-a1b2"),
        result: Some(exited_result("20260408-143022-a1b2", 0)),
        live: None,
        gone: false,
    };
    let s = render_detail_text(&view);
    for needle in [
        "id:",
        "command:  npm install",
        "limits:   cpu=0.80c  mem=600 MiB",
        "backend:  linux_systemd (enforced)",
        "started:  2026-04-08T14:30:22+00:00",
        "ended:    2026-04-08T14:45:00+00:00",
        "state:    exited(0)",
        "cpu:      total",
        "memory:   peak 500 MiB",
        "stdout:   /tmp/runs/20260408-143022-a1b2/stdout.log",
    ] {
        assert!(s.contains(needle), "missing {needle:?} in:\n{s}");
    }
}

#[test]
fn list_row_aligns_columns_and_shows_duration() {
    let view = RunView {
        meta: meta("20260408-143022-a1b2"),
        result: Some(exited_result("20260408-143022-a1b2", 0)),
        live: None,
        gone: false,
    };
    let row = format_list_row(&view);
    assert_eq!(row, "20260408-143022-a1b2  exited(0)         14m38s  npm install");
    let text = render_list_text(&vec![view]);
    assert_eq!(text, format!("{row}\n"));
}

#[test]
fn detail_for_killed_and_failed_runs() {
    let mut killed = exited_result("20260408-143022-a1b2", 137);
    killed.state = RunState::Killed;
    killed.signal = Some("SIGKILL".to_string());
    killed.cpu_total_nanos = None;
    killed.memory_peak_bytes = None;
    let view = RunView { meta: meta("20260408-143022-a1b2"), result: Some(killed), live: None, gone: false };
    let s = render_detail_text(&view);
    assert!(s.contains("state:    killed(SIGKILL)\n"));
    assert!(!s.contains("cpu:      total"));

    let mut failed = exited_result("20260408-143022-a1b2", 0);
    failed.state = RunState::LaunchFailed;
    failed.launch_error = Some("no such file".to_string());
    let view = RunView { meta: meta("20260408-143022-a1b2"), result: Some(failed), live: None, gone: false };
    let s = render_detail_text(&view);
    assert!(s.contains("state:    launch_failed\nerror:    no such file\n"));
    assert!(!s.contains("ended:"));

    let view = RunView { meta: meta("20260408-143022-a1b2"), result: None, live: None, gone: true };
    let s = render_detail_text(&view);
    assert!(s.contains("state:    gone (no result.json and process is not running)\n"));
    assert!(s.ends_with("stderr:   /tmp/runs/20260408-143022-a1b2/stderr.log\n"));
}

#[test]
fn detail_for_running_shows_live_metrics() {
    let view = RunView {
        meta: meta("20260408-143022-a1b2"),
        result: None,
        live: Some(LiveSnapshot {
            cpu_total_nanos: Some(12_500_000_000),
            memory_current_bytes: Some(200 * 1024 * 1024),
            elapsed_secs: Some(3725),
        }),
        gone: false,
    };
    let s = render_detail_text(&view);
    assert!(s.contains("state:    running\nmemory:   current 200 MiB\ncpu:      total 12s\nelapsed:  1h02m05s\n"));
}

#[test]
fn secs_and_mib_formats() {
    assert_eq!(format_secs(0), "0s");
    assert_eq!(format_secs(59), "59s");
    assert_eq!(format_secs(60), "1m00s");
    assert_eq!(format_secs(3600), "1h00m00s");
    assert_eq!(format_mib(0), "0 MiB");
    assert_eq!(format_mib(512 * 1024 * 1024), "512 MiB");
    assert_eq!(format_mib(1536 * 1024 * 1024), "1.50 GiB");
    // 2.5 MiB rounds to the even neighbour, 2.
    assert_eq!(format_mib(2 * 1024 * 1024 + 512 * 1024), "2 MiB");
}

#[test]
fn duration_column_uses_timestamps_then_live_time() {
    assert_eq!(duration_from_timestamps(true, Some(100), Some(225), None), "2m05s");
    assert_eq!(duration_from_timestamps(true, Some(225), Some(100), None), "0s");
    assert_eq!(duration_from_timestamps(true, None, Some(100), Some(7)), "7s");
    assert_eq!(duration_from_timestamps(false, None, None, None), "-");
}
