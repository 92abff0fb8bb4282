use vstd::prelude::*;

verus! {

#[verifier::external_type_specification]
#[verifier::external_body]
pub struct ExSystemTime(std::time::SystemTime);

/// `SystemTime` is `Copy`; its clone is the same instant.
pub assume_specification [<std::time::SystemTime as std::clone::Clone>::clone] (t: &std::time::SystemTime) -> (r: std::time::SystemTime)
    ensures
        r == *t;

/// A CPU budget in hundredths of a logical core (`0.5c` is 50).
#[derive(Debug, Clone, Copy, PartialEq, Eq, Structural)]
pub struct CpuLimit(u32);

impl CpuLimit {
    /// The budget in centi-cores.
    pub closed spec fn spec_centi_cores(self) -> u32 {
        self.0
    }

    pub fn from_centi_cores(value: u32) -> (r: Self)
        ensures
            r.spec_centi_cores() == value,
    {
        Self(value)
    }

    pub fn centi_cores(self) -> (r: u32)
        ensures
            r == self.spec_centi_cores(),
    {
        self.0
    }

    /// A CPU limit is its centi-core count and nothing more: two limits
    /// are equal exactly when their counts are, so `from_centi_cores`
    /// gives equal limits for equal counts and different ones otherwise.
    pub proof fn lemma_determined_by_centi_cores(a: CpuLimit, b: CpuLimit)
        ensures
            (a == b) <==> (a.spec_centi_cores() == b.spec_centi_cores()),
    {
    }
}

/// A memory budget in bytes.
#[derive(Debug, Clone, Copy, PartialEq, Eq, Structural)]
pub struct MemoryLimit(u64);

impl MemoryLimit {
    /// The budget in bytes.
    pub closed spec fn spec_bytes(self) -> u64 {
        self.0
    }

    pub fn from_bytes(value: u64) -> (r: Self)
        ensures
            r.spec_bytes() == value,
    {
        Self(value)
    }

    pub fn bytes(self) -> (r: u64)
        ensures
            r == self.spec_bytes(),
    {
        self.0
    }

    /// A memory limit is its byte count and nothing more: two limits are
    /// equal exactly when their counts are, so `from_bytes` gives equal
    /// limits for equal counts and different ones otherwise.
    pub proof fn lemma_determined_by_bytes(a: MemoryLimit, b: MemoryLimit)
        ensures
            (a == b) <==> (a.spec_bytes() == b.spec_bytes()),
    {
    }
}

#[derive(Debug, Clone, Copy, PartialEq, Eq, Structural)]
pub enum Platform {
    Linux,
    Macos,
    Unsupported,
}

impl Platform {
    pub open spec fn name(self) -> Seq<char> {
        match self {
            Platform::Linux => "linux"@,
            Platform::Macos => "macos"@,
            Platform::Unsupported => "unsupported"@,
        }
    }

    pub fn as_str(self) -> (r: &'static str)
        ensures
            r@ == self.name(),
    {
        match self {
            Platform::Linux => "linux",
            Platform::Macos => "macos",
            Platform::Unsupported => "unsupported",
        }
    }
}

#[derive(Debug, Clone, Copy, PartialEq, Eq, Structural)]
pub enum PrerequisiteStatus {
    Satisfied,
    Missing,
    Unreachable,
    Unsupported,
    Skipped,
}

#[derive(Debug, Clone, Copy, PartialEq, Eq)]
pub enum DoctorPrerequisite {
    Check { key: &'static str, status: PrerequisiteStatus },
    Note(&'static str),
}

impl DoctorPrerequisite {
    pub fn check(key: &'static str, status: PrerequisiteStatus) -> (r: Self)
        ensures
            r == (DoctorPrerequisite::Check { key, status }),
    {
        DoctorPrerequisite::Check { key, status }
    }

    pub fn note(message: &'static str) -> (r: Self)
        ensures
            r == DoctorPrerequisite::Note(message),
    {
        DoctorPrerequisite::Note(message)
    }
}


#[derive(Debug, Clone, Copy, PartialEq, Eq, Structural)]
pub enum BackendKind {
    LinuxSystemd,
    MacosTaskpolicy,
    PlainFallback,
    Unsupported,
}

impl BackendKind {
    pub open spec fn name(self) -> Seq<char> {
        match self {
            BackendKind::LinuxSystemd => "linux_systemd"@,
            BackendKind::MacosTaskpolicy => "macos_taskpolicy"@,
            BackendKind::PlainFallback => "plain_fallback"@,
            BackendKind::Unsupported => "unsupported"@,
        }
    }

    pub fn as_str(self) -> (r: &'static str)
        ensures
            r@ == self.name(),
    {
        match self {
            BackendKind::LinuxSystemd => "linux_systemd",
            BackendKind::MacosTaskpolicy => "macos_taskpolicy",
            BackendKind::PlainFallback => "plain_fallback",
            BackendKind::Unsupported => "unsupported",
        }
    }
}

#[derive(Debug, Clone, Copy, PartialEq, Eq, Structural)]
pub enum CapabilityLevel {
    Enforced,
    BestEffort,
    Unavailable,
}

impl CapabilityLevel {
    pub open spec fn name(self) -> Seq<char> {
        match self {
            CapabilityLevel::Enforced => "enforced"@,
            CapabilityLevel::BestEffort => "best_effort"@,
            CapabilityLevel::Unavailable => "unavailable"@,
        }
    }

    pub fn as_str(self) -> (r: &'static str)
        ensures
            r@ == self.name(),
    {
        match self {
            CapabilityLevel::Enforced => "enforced",
            CapabilityLevel::BestEffort => "best_effort",
            CapabilityLevel::Unavailable => "unavailable",
        }
    }
}

#[derive(Debug, Clone, Copy, PartialEq, Eq, Structural)]
pub enum Signal {
    Interrupt,
    Terminate,
    Kill,
}

#[derive(Debug, Clone, Copy, PartialEq, Eq, Structural)]
pub enum InteractiveMode {
    Auto,
    Always,
    Never,
}

#[derive(Debug, Clone, Copy, PartialEq, Eq, Structural)]
pub enum ShellKind {
    Sh,
    Bash,
    Zsh,
}

impl ShellKind {
    /// The program that runs an inline script for this shell.
    pub open spec fn program(self) -> Seq<char> {
        match self {
            ShellKind::Sh => "sh"@,
            ShellKind::Bash => "bash"@,
            ShellKind::Zsh => "zsh"@,
        }
    }

    pub fn program_name(self) -> (r: &'static str)
        ensures
            r@ == self.program(),
    {
        match self {
            ShellKind::Sh => "sh",
            ShellKind::Bash => "bash",
            ShellKind::Zsh => "zsh",
        }
    }
}

#[derive(Debug, Clone, Copy, PartialEq, Eq, Structural)]
pub enum IoMode {
    Pty,
    Pipes,
}

#[derive(Debug, Clone, Copy, PartialEq, Eq, Structural)]
pub enum OutputStream {
    Stdout,
    Stderr,
    PtyMerged,
}

/// How a child process ended: with an exit code, or killed by a signal.
#[derive(Debug, Clone, Copy, PartialEq, Eq, Structural)]
pub enum ExitStatus {
    Exited(i32),
    Signaled(i32),
}

#[derive(Debug, Clone, Copy, PartialEq, Eq, Structural)]
pub struct ResourceSpec {
    pub cpu: Option<CpuLimit>,
    pub mem: Option<MemoryLimit>,
    pub interactive: InteractiveMode,
    pub shell: Option<ShellKind>,
    pub monitor: bool,
}

impl Default for ResourceSpec {
    fn default() -> (r: Self)
        ensures
            r.cpu.is_none(),
            r.mem.is_none(),
            r.interactive == InteractiveMode::Auto,
            r.shell.is_none(),
            !r.monitor,
    {
        ResourceSpec {
            cpu: None,
            mem: None,
            interactive: InteractiveMode::Auto,
            shell: None,
            monitor: false,
        }
    }
}

/// What to launch: the command line, the limits and the host platform.
#[derive(Debug, Clone, PartialEq, Eq)]
pub struct LaunchPlan {
    pub argv: Vec<String>,
    pub resource_spec: ResourceSpec,
    pub platform: Platform,
}

#[derive(Debug, Clone, PartialEq, Eq)]
pub struct CapabilityReport {
    pub platform: Platform,
    pub backend: BackendKind,
    pub backend_state: CapabilityLevel,
    pub cpu: CapabilityLevel,
    pub memory: CapabilityLevel,
    pub interactive: CapabilityLevel,
    pub prerequisites: Vec<DoctorPrerequisite>,
    pub warnings: Vec<String>,
}

/// Two reports say the same thing.
pub open spec fn same_report(a: CapabilityReport, b: CapabilityReport) -> bool {
    &&& a.platform == b.platform
    &&& a.backend == b.backend
    &&& a.backend_state == b.backend_state
    &&& a.cpu == b.cpu
    &&& a.memory == b.memory
    &&& a.interactive == b.interactive
    &&& a.prerequisites@ == b.prerequisites@
    &&& a.warnings@.len() == b.warnings@.len()
    &&& forall|i: int| 0 <= i < a.warnings@.len() ==> #[trigger] a.warnings@[i]@ == b.warnings@[i]@
}

impl CapabilityReport {
    /// A copy of the report.
    pub fn duplicate(&self) -> (r: Self)
        ensures
            same_report(r, *self),
    {
        let prerequisites = self.prerequisites.clone();
        assert(prerequisites@ =~= self.prerequisites@);
        let warnings = self.warnings.clone();
        CapabilityReport {
            platform: self.platform,
            backend: self.backend,
            backend_state: self.backend_state,
            cpu: self.cpu,
            memory: self.memory,
            interactive: self.interactive,
            prerequisites,
            warnings,
        }
    }

    /// The report for a host that no backend supports.
    pub fn unsupported() -> (r: Self)
        ensures
            r.platform == Platform::Unsupported,
            r.backend == BackendKind::Unsupported,
            r.backend_state == CapabilityLevel::Unavailable,
            r.cpu == CapabilityLevel::Unavailable,
            r.memory == CapabilityLevel::Unavailable,
            r.interactive == CapabilityLevel::Unavailable,
            r.prerequisites@.len() == 1,
            r.prerequisites@[0] matches DoctorPrerequisite::Note(m) && m@ == "no supported backend for this host"@,
            r.warnings@.len() == 0,
    {
        let mut prerequisites = Vec::new();
        prerequisites.push(DoctorPrerequisite::note("no supported backend for this host"));
        CapabilityReport {
            platform: Platform::Unsupported,
            backend: BackendKind::Unsupported,
            backend_state: CapabilityLevel::Unavailable,
            cpu: CapabilityLevel::Unavailable,
            memory: CapabilityLevel::Unavailable,
            interactive: CapabilityLevel::Unavailable,
            prerequisites,
            warnings: Vec::new(),
        }
    }

    /// A Linux report on which every facet is enforced, with no
    /// prerequisites and no warnings.
    pub fn fully_enforced_for_test() -> (r: Self)
        ensures
            r.platform == Platform::Linux,
            r.backend == BackendKind::LinuxSystemd,
            r.backend_state == CapabilityLevel::Enforced,
            r.cpu == CapabilityLevel::Enforced,
            r.memory == CapabilityLevel::Enforced,
            r.interactive == CapabilityLevel::Enforced,
            r.prerequisites@.len() == 0,
            r.warnings@.len() == 0,
    {
        CapabilityReport {
            platform: Platform::Linux,
            backend: BackendKind::LinuxSystemd,
            backend_state: CapabilityLevel::Enforced,
            cpu: CapabilityLevel::Enforced,
            memory: CapabilityLevel::Enforced,
            interactive: CapabilityLevel::Enforced,
            prerequisites: Vec::new(),
            warnings: Vec::new(),
        }
    }
}


/// A launched child: its pid, when it started and how its I/O is wired.
#[derive(Debug, Clone)]
pub struct RunningHandle {
    pub root_pid: u32,
    pub launch_time: std::time::SystemTime,
    pub io_mode: IoMode,
}

/// One sample of the child's process tree. CPU use is in thousandths of
/// a percent of one core.
#[derive(Debug, Clone)]
pub struct Sample {
    pub captured_at: std::time::SystemTime,
    pub cpu_milli_percent: u64,
    pub memory_bytes: u64,
    pub peak_memory_bytes: Option<u64>,
    pub child_process_count: Option<u32>,
}

/// What the summary keeps of a sample.
#[derive(Debug, Clone)]
pub struct SummarySample {
    pub captured_at: std::time::SystemTime,
    pub cpu_milli_percent: u64,
    pub memory_bytes: u64,
}

/// Everything the end-of-run summary card shows.
#[derive(Debug, Clone)]
pub struct RunOutcome {
    pub exit_status: ExitStatus,
    pub elapsed_nanos: u64,
    pub peak_memory: Option<u64>,
    /// Memory cap requested via `--mem`, in bytes.
    pub mem_limit_bytes: Option<u64>,
    /// Host physical memory in bytes, the fallback denominator of the
    /// memory row.
    pub system_memory_bytes: Option<u64>,
    /// CPU and memory samples taken while the child ran.
    pub samples: Vec<SummarySample>,
    /// CPU cap requested via `--cpu`, in centi-cores.
    pub cpu_limit_centi_cores: Option<u32>,
    /// Host logical core count.
    pub host_logical_cores: Option<u32>,
    /// Capability snapshot from the backend at launch time.
    pub capabilities: CapabilityReport,
    /// Warnings accumulated over the run.
    pub warnings: Vec<String>,
    /// Total CPU time consumed by the child, in nanoseconds.
    pub total_cpu_nanos: Option<u128>,
}

} // verus!
