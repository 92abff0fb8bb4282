use scaler::backend::{effective_backend_kind, forced_backend_kind, selected_backend_kind};
use scaler::cli::{render_doctor_output, sorted_warning_lines};
use scaler::engine::types::{
    BackendKind, CapabilityLevel, CapabilityReport, DoctorPrerequisite, Platform, PrerequisiteStatus,
};

fn linux_report(level: CapabilityLevel) -> CapabilityReport {
    CapabilityReport {
        platform: Platform::Linux,
        backend: BackendKind::LinuxSystemd,
        backend_state: level,
        cpu: level,
        memory: level,
        interactive: level,
        prerequisites: vec![],
        warnings: vec![],
    }
}

#[test]
fn doctor_renderer_uses_structured_prerequisites_in_declared_order() {
    let report = CapabilityReport {
        platform: Platform::Linux,
        backend: BackendKind::LinuxSystemd,
        backend_state: CapabilityLevel::Unavailable,
        cpu: CapabilityLevel::Unavailable,
        memory: CapabilityLevel::Unavailable,
        interactive: CapabilityLevel::Unavailable,
        prerequisites: vec![
            DoctorPrerequisite::check("systemd_run", PrerequisiteStatus::Missing),
            DoctorPrerequisite::check("cgroup_v2", PrerequisiteStatus::Missing),
            DoctorPrerequisite::check("user_manager", PrerequisiteStatus::Skipped),
        ],
        warnings: vec!["z warning".to_string(), "a warning".to_string()],
    };

    let stdout = render_doctor_output(&report, BackendKind::PlainFallback);
    let expected = [
        "platform: linux",
        "backend: linux_systemd",
        "backend_state: unavailable",
        "cpu: unavailable",
        "memory: unavailable",
        "interactive: unavailable",
        "effective_backend: plain_fallback",
        "prerequisite: systemd_run=missing",
        "prerequisite: cgroup_v2=missing",
        "prerequisite: user_manager=skipped",
        "warning: a warning",
        "warning: z warning",
    ]
    .join("\n");

    assert_eq!(stdout, expected);
}

#[test]
fn doctor_renderer_emits_effective_backend_line() {
    let mut report = linux_report(CapabilityLevel::Enforced);
    report.prerequisites = vec![
        DoctorPrerequisite::check("systemd_run", PrerequisiteStatus::Satisfied),
        DoctorPrerequisite::check("cgroup_v2", PrerequisiteStatus::Satisfied),
        DoctorPrerequisite::check("user_manager", PrerequisiteStatus::Satisfied),
    ];
    let stdout = render_doctor_output(&report, BackendKind::LinuxSystemd);
    assert!(stdout.contains("effective_backend: linux_systemd"), "got: {stdout}");
    assert!(stdout.contains("prerequisite: systemd_run=ok"));
}

#[test]
fn doctor_renders_notes_verbatim() {
    let report = CapabilityReport::unsupported();
    let stdout = render_doctor_output(&report, BackendKind::PlainFallback);
    assert!(stdout.ends_with("prerequisite: no supported backend for this host"));
    assert!(stdout.starts_with("platform: unsupported\nbackend: unsupported\n"));
}

#[test]
fn warnings_are_sorted_with_duplicates_kept() {
    let warnings = vec!["b".to_string(), "a".to_string(), "b".to_string(), "Z".to_string(), "é".to_string()];
    let sorted = sorted_warning_lines(&warnings);
    assert_eq!(sorted, vec!["Z", "a", "b", "b", "é"]);
    assert!(sorted.windows(2).all(|pair| pair[0] <= pair[1]));
}

#[test]
fn unsupported_capability_report_has_no_warnings() {
    let report = CapabilityReport::unsupported();
    assert_eq!(report.backend_state, CapabilityLevel::Unavailable);
    assert!(report.warnings.is_empty());
    assert_eq!(report.prerequisites.len(), 1);
}

#[test]
fn forced_backend_override_names_known_backends_only() {
    assert_eq!(forced_backend_kind(Some("linux_systemd")), Some(BackendKind::LinuxSystemd));
    assert_eq!(forced_backend_kind(Some("macos_taskpolicy")), Some(BackendKind::MacosTaskpolicy));
    assert_eq!(forced_backend_kind(Some("plain_fallback")), Some(BackendKind::PlainFallback));
    assert_eq!(forced_backend_kind(Some("other")), None);
    assert_eq!(forced_backend_kind(None), None);
}

#[test]
fn effective_and_selected_backends() {
    let ready = linux_report(CapabilityLevel::Enforced);
    let down = linux_report(CapabilityLevel::Unavailable);
    assert_eq!(effective_backend_kind(Platform::Linux, None, &ready), BackendKind::LinuxSystemd);
    assert_eq!(effective_backend_kind(Platform::Linux, None, &down), BackendKind::PlainFallback);
    assert_eq!(effective_backend_kind(Platform::Linux, Some(BackendKind::MacosTaskpolicy), &ready), BackendKind::PlainFallback);
    assert_eq!(selected_backend_kind(Platform::Linux, None, &ready), BackendKind::LinuxSystemd);
    assert_eq!(selected_backend_kind(Platform::Linux, None, &down), BackendKind::PlainFallback);
    assert_eq!(
        selected_backend_kind(Platform::Linux, Some(BackendKind::MacosTaskpolicy), &ready),
        BackendKind::PlainFallback
    );
    assert_eq!(
        selected_backend_kind(Platform::Linux, Some(BackendKind::LinuxSystemd), &down),
        BackendKind::LinuxSystemd
    );
    assert_eq!(selected_backend_kind(Platform::Unsupported, None, &ready), BackendKind::PlainFallback);
}
