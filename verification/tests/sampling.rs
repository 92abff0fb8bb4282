use scaler::engine::sampling::{aggregate_descendants, parse_cpu_field, parse_ps_table, PsRow};
use scaler::engine::system_memory::mem_total_from_meminfo;
use scaler::engine::types::{Sample, SummarySample};
use std::time::SystemTime;

fn row(pid: u32, ppid: u32, rss_kib: u64, cpu_milli_percent: u64) -> PsRow {
    PsRow { pid, ppid, rss_kib, cpu_milli_percent }
}

#[test]
fn parses_simple_ps_lines() {
    let input = "  100   1  4096  3.5\n  101 100  2048  1.0\n";
    let rows = parse_ps_table(input);
    assert_eq!(rows.len(), 2);
    assert_eq!(rows[0].pid, 100);
    assert_eq!(rows[0].ppid, 1);
    assert_eq!(rows[0].rss_kib, 4096);
    assert_eq!(rows[0].cpu_milli_percent, 3_500);
    assert_eq!(rows[1].pid, 101);
    assert_eq!(rows[1].ppid, 100);
}

#[test]
fn ignores_unparseable_rows() {
    let input = "header line\n100 1 4096 3.5\n  garbage\n";
    let rows = parse_ps_table(input);
    assert_eq!(rows.len(), 1);
    assert_eq!(rows[0].pid, 100);
}

#[test]
fn cpu_field_forms() {
    assert_eq!(parse_cpu_field("3.5"), Some(3_500));
    assert_eq!(parse_cpu_field("12"), Some(12_000));
    assert_eq!(parse_cpu_field(".25"), Some(250));
    assert_eq!(parse_cpu_field("7."), Some(7_000));
    assert_eq!(parse_cpu_field("+0.1234"), Some(123));
    assert_eq!(parse_cpu_field("."), None);
    assert_eq!(parse_cpu_field(""), None);
    assert_eq!(parse_cpu_field("1.2.3"), None);
    assert_eq!(parse_cpu_field("-1"), None);
}

#[test]
fn aggregates_only_descendants_of_root() {
    let rows = vec![
        row(1, 0, 100, 0),
        row(100, 1, 4096, 5_000),
        row(200, 100, 2048, 2_000),
        row(201, 100, 1024, 1_000),
        row(300, 200, 512, 500),
        row(999, 1, 10000, 50_000),
    ];

    let metrics = aggregate_descendants(&rows, 100);

    assert_eq!(metrics.process_count, 4);
    assert_eq!(metrics.rss_bytes, (4096 + 2048 + 1024 + 512) * 1024);
    assert_eq!(metrics.cpu_milli_percent, 8_500);
}

#[test]
fn aggregates_root_only_when_no_children() {
    let rows = vec![row(100, 1, 4096, 5_000)];
    let metrics = aggregate_descendants(&rows, 100);
    assert_eq!(metrics.process_count, 1);
    assert_eq!(metrics.rss_bytes, 4096 * 1024);
}

#[test]
fn aggregates_zero_when_root_missing() {
    let rows = vec![row(200, 100, 1024, 1_000)];
    let metrics = aggregate_descendants(&rows, 100);
    assert_eq!(metrics.process_count, 0);
    assert_eq!(metrics.rss_bytes, 0);
    assert_eq!(metrics.cpu_milli_percent, 0);
}

#[test]
fn handles_ppid_cycle_without_hanging() {
    let rows = vec![row(100, 101, 1024, 1_000), row(101, 100, 512, 500)];
    let metrics = aggregate_descendants(&rows, 100);
    assert_eq!(metrics.process_count, 2);
    assert_eq!(metrics.rss_bytes, (1024 + 512) * 1024);
    assert_eq!(metrics.cpu_milli_percent, 1_500);
}

#[test]
fn children_listed_before_their_parent_are_found() {
    let rows = vec![row(300, 200, 1, 0), row(200, 100, 1, 0), row(100, 1, 1, 0)];
    let metrics = aggregate_descendants(&rows, 100);
    assert_eq!(metrics.process_count, 3);
}

#[test]
fn meminfo_total_is_read_in_bytes() {
    let content = "MemFree:  10 kB\nMemTotal:       16338204 kB\nMemTotal: 1 kB\n";
    assert_eq!(mem_total_from_meminfo(content), Some(16338204 * 1024));
    assert_eq!(mem_total_from_meminfo("MemTotal: x kB\n"), None);
    assert_eq!(mem_total_from_meminfo("nothing\n"), None);
}

#[test]
fn sample_contract_uses_concrete_numeric_fields() {
    let captured_at = SystemTime::UNIX_EPOCH;
    let sample = Sample {
        captured_at,
        cpu_milli_percent: 12_500,
        memory_bytes: 1024,
        peak_memory_bytes: Some(2048),
        child_process_count: Some(3),
    };
    let summary = SummarySample { captured_at, cpu_milli_percent: 6_250, memory_bytes: 512 };

    assert_eq!(sample.captured_at, captured_at);
    assert_eq!(sample.cpu_milli_percent, 12_500);
    assert_eq!(sample.memory_bytes, 1024);
    assert_eq!(sample.peak_memory_bytes, Some(2048));
    assert_eq!(sample.child_process_count, Some(3));
    assert_eq!(summary.captured_at, captured_at);
    assert_eq!(summary.cpu_milli_percent, 6_250);
    assert_eq!(summary.memory_bytes, 512);
}
