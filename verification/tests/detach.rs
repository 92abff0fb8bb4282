use scaler::cli::status::LiveSnapshot;
use scaler::detach::id::{random_hex4, RunId};
use scaler::detach::linux::{detach_unit_name, finalize_result, parse_show_metrics, signal_name, FinalizeError};
use scaler::detach::macos::{etime_in_range, parse_ps_etime, snapshot_from_ps_output, snapshot_in_range, to_result_json};
use scaler::detach::state::{select_run_ids, RunState, StateRoot, StateRootError};
use scaler::engine::types::{ExitStatus, RunOutcome};

fn generated_id(seq: u32) -> RunId {
    let tag = random_hex4(123_456_789, 4242, seq);
    RunId::from_parts("20260408-143022", &tag)
}

#[test]
fn run_id_format_is_timestamp_plus_4_hex() {
    let id = generated_id(0);
    let s = id.as_str();
    assert_eq!(s.len(), 20, "id = {s:?}");
    let bytes = s.as_bytes();
    assert_eq!(bytes[8], b'-');
    assert_eq!(bytes[15], b'-');
    for &b in &bytes[..8] {
        assert!(b.is_ascii_digit());
    }
    for &b in &bytes[9..15] {
        assert!(b.is_ascii_digit());
    }
    for &b in &bytes[16..20] {
        assert!(b.is_ascii_hexdigit() && !b.is_ascii_uppercase());
    }
    assert!(RunId::parse(s).is_some());
}

#[test]
fn run_id_parse_accepts_canonical_form() {
    let id = RunId::parse("20260408-143022-a1b2").expect("valid id");
    assert_eq!(id.as_str(), "20260408-143022-a1b2");
}

#[test]
fn run_id_parse_rejects_malformed_input() {
    assert!(RunId::parse("").is_none());
    assert!(RunId::parse("20260408-143022").is_none());
    assert!(RunId::parse("20260408_143022-a1b2").is_none());
    assert!(RunId::parse("20260408-143022-A1B2").is_none());
    assert!(RunId::parse("20260408-143022-a1b2z").is_none());
    assert!(RunId::parse("2026040é-143022-a1b2").is_none());
}

#[test]
fn run_id_two_generated_ids_differ() {
    let a = generated_id(0);
    let b = generated_id(1);
    assert_ne!(a.as_str(), b.as_str(), "entropy source produced duplicate");
}

#[test]
fn random_hex4_mixes_its_inputs() {
    // x = 0 mixes to 0; other inputs spread out.
    assert_eq!(random_hex4(0, 0, 0), "0000");
    assert_ne!(random_hex4(1, 0, 0), random_hex4(2, 0, 0));
    assert_eq!(random_hex4(1, 2, 3).len(), 4);
}

#[test]
fn run_id_prefix_match_exact_wins() {
    let all = vec![
        RunId::parse("20260408-143022-a1b2").unwrap(),
        RunId::parse("20260408-143022-a1b3").unwrap(),
    ];
    let hit = RunId::find_by_prefix("20260408-143022-a1b2", &all).unwrap();
    assert_eq!(hit.as_str(), "20260408-143022-a1b2");
}

#[test]
fn run_id_prefix_match_unique_prefix_wins() {
    let all = vec![
        RunId::parse("20260408-143022-a1b2").unwrap(),
        RunId::parse("20260408-090000-cdef").unwrap(),
    ];
    let hit = RunId::find_by_prefix("20260408-143", &all).unwrap();
    assert_eq!(hit.as_str(), "20260408-143022-a1b2");
}

#[test]
fn run_id_prefix_match_ambiguous_returns_none() {
    let all = vec![
        RunId::parse("20260408-143022-a1b2").unwrap(),
        RunId::parse("20260408-143022-a1b3").unwrap(),
    ];
    assert!(RunId::find_by_prefix("20260408-143022-a1b", &all).is_none());
    assert!(RunId::find_by_prefix("x", &all).is_none());
}

#[test]
fn state_root_honors_xdg_state_home() {
    let root = StateRoot::from_env(Some("/xdg".to_string()), Some("/home/u".to_string())).unwrap();
    assert_eq!(root.runs_dir(), "/xdg/scaler/runs");
    let root = StateRoot::from_env(Some(String::new()), Some("/home/u".to_string())).unwrap();
    assert_eq!(root.runs_dir(), "/home/u/.local/state/scaler/runs");
    assert_eq!(StateRoot::from_env(None, None).unwrap_err(), StateRootError::NoHome);
}

#[test]
fn state_paths_live_under_the_run_dir() {
    let root = StateRoot::with_base("/var/state/".to_string());
    let id = RunId::parse("20260408-143022-a1b2").unwrap();
    assert_eq!(root.run_dir(&id), "/var/state/scaler/runs/20260408-143022-a1b2");
    assert_eq!(root.meta_path(&id), "/var/state/scaler/runs/20260408-143022-a1b2/meta.json");
    assert_eq!(root.result_path(&id), "/var/state/scaler/runs/20260408-143022-a1b2/result.json");
    assert_eq!(root.stdout_log_path(&id), "/var/state/scaler/runs/20260408-143022-a1b2/stdout.log");
    assert_eq!(root.stderr_log_path(&id), "/var/state/scaler/runs/20260408-143022-a1b2/stderr.log");
}

#[test]
fn list_run_ids_returns_sorted_newest_first() {
    let names = vec![
        "20260101-000000-aaaa".to_string(),
        "not-a-run".to_string(),
        "20260301-000000-bbbb".to_string(),
        "20260201-000000-cccc".to_string(),
    ];
    let ids = select_run_ids(&names);
    let got: Vec<&str> = ids.iter().map(|id| id.as_str()).collect();
    assert_eq!(got, vec!["20260301-000000-bbbb", "20260201-000000-cccc", "20260101-000000-aaaa"]);
}

#[test]
fn finalize_writes_exited_result_from_env() {
    let result = finalize_result("20260408-143022-a1b2", Some("exited"), Some("0"), None, "now".to_string()).unwrap();
    assert!(matches!(result.state, RunState::Exited));
    assert_eq!(result.exit_code, Some(0));
    assert_eq!(result.signal, None);
    assert!(!result.ended.is_empty());
    assert_eq!(result.id, "20260408-143022-a1b2");
}

#[test]
fn finalize_writes_killed_result_from_env() {
    let result = finalize_result("20260408-143022-a1b2", Some("killed"), Some("9"), None, "now".to_string()).unwrap();
    assert!(matches!(result.state, RunState::Killed));
    assert_eq!(result.signal.as_deref(), Some("SIGKILL"));
    assert_eq!(result.exit_code, Some(128 + 9));
    let dumped = finalize_result("20260408-143022-a1b2", Some("dumped"), Some("4"), None, "now".to_string()).unwrap();
    assert_eq!(dumped.signal.as_deref(), Some("signal"));
    assert_eq!(dumped.exit_code, Some(132));
}

#[test]
fn finalize_without_exit_code_is_a_launch_failure() {
    let result = finalize_result("20260408-143022-a1b2", None, Some("1"), None, "now".to_string()).unwrap();
    assert!(matches!(result.state, RunState::LaunchFailed));
    assert_eq!(result.exit_code, Some(1));
    assert_eq!(finalize_result("bogus", Some("exited"), None, None, "now".to_string()).unwrap_err(), FinalizeError::InvalidRunId);
}

#[test]
fn finalize_includes_cpu_and_mem_metrics_from_show_output() {
    let show = "\
CPUUsageNSec=2892000000000
MemoryPeak=615514112
ExecMainStartTimestamp=Wed 2026-04-08 14:30:22 UTC
ExecMainExitTimestamp=Wed 2026-04-08 14:45:00 UTC
";
    let result = finalize_result("20260408-143022-a1b2", Some("exited"), Some("0"), Some(show), "now".to_string()).unwrap();
    assert_eq!(result.cpu_total_nanos, Some(2_892_000_000_000));
    assert_eq!(result.memory_peak_bytes, Some(615_514_112));
}

#[test]
fn show_metrics_last_value_wins_and_bad_values_are_none() {
    assert_eq!(parse_show_metrics(None), (None, None));
    assert_eq!(parse_show_metrics(Some("CPUUsageNSec=5\r\nMemoryPeak=[not set]\n")), (Some(5), None));
    assert_eq!(parse_show_metrics(Some("CPUUsageNSec=1\nCPUUsageNSec= 7 \n")), (Some(7), None));
}

#[test]
fn detach_names_and_signals() {
    let id = RunId::parse("20260408-143022-a1b2").unwrap();
    assert_eq!(detach_unit_name(&id), "scaler-run-20260408-143022-a1b2.service");
    assert_eq!(signal_name(15), Some("SIGTERM"));
    assert_eq!(signal_name(4), None);
}

#[test]
fn parse_etime_seconds() {
    assert_eq!(parse_ps_etime("42"), Some(42));
}

#[test]
fn parse_etime_mm_ss() {
    assert_eq!(parse_ps_etime("02:05"), Some(125));
}

#[test]
fn parse_etime_hh_mm_ss() {
    assert_eq!(parse_ps_etime("01:02:03"), Some(3723));
}

#[test]
fn parse_etime_dd_hh_mm_ss() {
    assert_eq!(parse_ps_etime("2-01:00:00"), Some(2 * 86400 + 3600));
}

#[test]
fn parse_etime_garbage() {
    assert_eq!(parse_ps_etime("garbage"), None);
}

#[test]
fn parse_etime_rejects_extra_fields_and_empty_text() {
    assert_eq!(parse_ps_etime("1:2:3:4"), None);
    assert_eq!(parse_ps_etime(""), None);
    assert_eq!(parse_ps_etime("x-01:00"), None);
}

#[test]
fn ps_snapshot_reads_rss_and_elapsed() {
    let live: LiveSnapshot = snapshot_from_ps_output("  2048  3.5  01:05\n");
    assert_eq!(live.memory_current_bytes, Some(2048 * 1024));
    assert_eq!(live.elapsed_secs, Some(65));
    assert_eq!(live.cpu_total_nanos, None);
    let empty = snapshot_from_ps_output("");
    assert_eq!(empty.memory_current_bytes, Some(0));
    assert_eq!(empty.elapsed_secs, None);
}

#[test]
fn result_json_records_exit_signal_or_failure() {
    let id = RunId::parse("20260408-143022-a1b2").unwrap();
    let mut outcome = RunOutcome::fixture_for_test();
    let exited = to_result_json(&id, "t".to_string(), Some(&outcome), None);
    assert!(matches!(exited.state, RunState::Exited));
    assert_eq!(exited.exit_code, Some(0));
    assert_eq!(exited.memory_peak_bytes, Some(4_194_304));
    outcome.exit_status = ExitStatus::Signaled(15);
    let killed = to_result_json(&id, "t".to_string(), Some(&outcome), None);
    assert!(matches!(killed.state, RunState::Killed));
    assert_eq!(killed.exit_code, Some(143));
    assert_eq!(killed.signal.as_deref(), Some("SIGTERM"));
    let failed = to_result_json(&id, "t".to_string(), None, Some("spawn failed".to_string()));
    assert!(matches!(failed.state, RunState::LaunchFailed));
    assert_eq!(failed.launch_error.as_deref(), Some("spawn failed"));
    assert_eq!(failed.exit_code, None);
}

#[test]
fn etime_range_check_flags_only_overflowing_fields() {
    assert!(etime_in_range("2-01:00:00"));
    assert!(etime_in_range("garbage"));
    assert!(etime_in_range("18446744073709551615"));
    assert!(!etime_in_range("1-18446744073709551615"));
    assert!(!etime_in_range("18446744073709551615:00"));
}

#[test]
fn snapshot_range_check_flags_overflowing_memory_or_time() {
    assert!(snapshot_in_range("  2048  3.5  01:05\n"));
    assert!(snapshot_in_range(""));
    assert!(!snapshot_in_range("18446744073709551615 0.0 01:00"));
    assert!(!snapshot_in_range("10 0.0 18446744073709551615:00"));
}
