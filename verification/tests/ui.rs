use scaler::engine::types::{
    BackendKind, CapabilityLevel, CapabilityReport, DoctorPrerequisite, Platform, PrerequisiteStatus,
};
use scaler::ui::plain::{NoopRenderer, PlainRenderer};
use scaler::ui::tui::{header_line, metrics_body, trim_output, warning_height, warnings_body};
use scaler::ui::{context_with_extra_warning, MonitorSnapshot, UiContext};

fn context() -> UiContext {
    UiContext {
        command: "echo hello".to_string(),
        capabilities: CapabilityReport {
            platform: Platform::Macos,
            backend: BackendKind::PlainFallback,
            backend_state: CapabilityLevel::BestEffort,
            cpu: CapabilityLevel::BestEffort,
            memory: CapabilityLevel::BestEffort,
            interactive: CapabilityLevel::BestEffort,
            prerequisites: vec![DoctorPrerequisite::check("taskpolicy", PrerequisiteStatus::Satisfied)],
            warnings: vec!["host probe failed".to_string()],
        },
        compact: false,
        warnings: vec!["host probe failed".to_string()],
    }
}

#[test]
fn new_does_not_write_anything_to_stderr() {
    let context = context();
    let _renderer = PlainRenderer::new(&context).expect("plain renderer must construct");
    let _noop = NoopRenderer::new();
}

#[test]
fn extra_warning_is_appended() {
    let base = context();
    let extended = context_with_extra_warning(&base, "monitor disabled: boom".to_string());
    assert_eq!(extended.warnings, vec!["host probe failed", "monitor disabled: boom"]);
    assert_eq!(extended.command, base.command);
    assert_eq!(base.warnings.len(), 1);
}

#[test]
fn warning_panel_height_and_body() {
    assert_eq!(warning_height(&vec![]), 3);
    assert_eq!(warning_height(&vec!["a".to_string()]), 3);
    assert_eq!(warning_height(&vec!["a".to_string(); 9]), 6);
    assert_eq!(warnings_body(&vec![]), "No warnings");
    assert_eq!(warnings_body(&vec!["a".to_string(), "b".to_string()]), "a\nb");
}

#[test]
fn dashboard_text() {
    let ctx = context();
    assert_eq!(
        header_line(&ctx.capabilities),
        "backend: plain_fallback  backend_state: best_effort  cpu: best_effort  memory: best_effort  interactive: best_effort"
    );
    let mut snapshot = MonitorSnapshot::empty();
    snapshot.elapsed_nanos = 1_500_000_000;
    snapshot.cpu_milli_percent = Some(12_345);
    snapshot.memory_bytes = Some(2048);
    snapshot.run_status = "running".to_string();
    assert_eq!(
        metrics_body(&ctx, &snapshot),
        "command: echo hello\nbackend: plain_fallback\nelapsed: 1.500s\ncpu: 12.3%\nmemory: 2.0 KiB\npeak_memory: n/a\nchild_count: n/a\nstatus: running"
    );
}

#[test]
fn output_keeps_the_last_bytes() {
    let mut short = "abc".to_string();
    trim_output(&mut short);
    assert_eq!(short, "abc");
    let mut long = "x".repeat(70_000);
    trim_output(&mut long);
    assert_eq!(long.len(), 65_536);
    let mut exact = "y".repeat(65_536);
    trim_output(&mut exact);
    assert_eq!(exact.len(), 65_536);
}

#[test]
fn output_trim_moves_to_the_next_character_boundary() {
    // 3 ASCII bytes then 3-byte characters: the 64 KiB window starts one
    // byte into a character, so the cut moves to the next boundary.
    let mut text = "abc".to_string();
    text.push_str(&"\u{20ac}".repeat(21_846));
    let original = text.clone();
    assert_eq!(text.len(), 3 + 3 * 21_846);
    trim_output(&mut text);
    assert!(text.len() <= 65_536);
    assert_eq!(text.len(), 65_535);
    assert!(original.ends_with(&text));
    assert!(text.chars().all(|c| c == '\u{20ac}'));
}
