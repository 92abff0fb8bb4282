pub mod argv;
pub mod output;
pub mod run_loop;
pub mod sampling;
pub mod summary;
pub mod system_memory;
pub mod types;

pub use types::{
    BackendKind, CapabilityLevel, CapabilityReport, CpuLimit, DoctorPrerequisite, ExitStatus,
    InteractiveMode, IoMode, LaunchPlan, MemoryLimit, OutputStream, Platform, PrerequisiteStatus,
    ResourceSpec, RunOutcome, ShellKind, Signal,
};
