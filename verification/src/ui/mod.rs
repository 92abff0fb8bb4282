//! What the renderers show: the context handed to them, the live
//! snapshot of a run, and the text of the dashboard panels.

use vstd::prelude::*;
use crate::engine::types::{CapabilityReport, same_report};
use crate::text::views;

pub mod plain;
pub mod tui;

verus! {

/// What a renderer knows about the run it shows.
#[derive(Debug, Clone)]
pub struct UiContext {
    pub command: String,
    pub capabilities: CapabilityReport,
    pub compact: bool,
    pub warnings: Vec<String>,
}

/// The live state of a run, as the dashboard shows it. CPU use is in
/// thousandths of a percent of one core.
#[derive(Debug, Clone)]
pub struct MonitorSnapshot {
    pub elapsed_nanos: u64,
    pub cpu_milli_percent: Option<u64>,
    pub memory_bytes: Option<u64>,
    pub peak_memory_bytes: Option<u64>,
    pub child_count: Option<u32>,
    pub run_status: String,
}

impl MonitorSnapshot {
    /// Nothing measured yet.
    pub fn empty() -> (r: Self)
        ensures
            r.elapsed_nanos == 0,
            r.cpu_milli_percent.is_none(),
            r.memory_bytes.is_none(),
            r.peak_memory_bytes.is_none(),
            r.child_count.is_none(),
            r.run_status@.len() == 0,
    {
        MonitorSnapshot {
            elapsed_nanos: 0,
            cpu_milli_percent: None,
            memory_bytes: None,
            peak_memory_bytes: None,
            child_count: None,
            run_status: String::new(),
        }
    }
}

/// `base` with one more warning at the end.
pub fn context_with_extra_warning(base: &UiContext, warning: String) -> (r: UiContext)
    ensures
        r.command@ == base.command@,
        same_report(r.capabilities, base.capabilities),
        r.compact == base.compact,
        views(r.warnings@) == views(base.warnings@).push(warning@),
{
    let mut warnings = base.warnings.clone();
    assert(views(warnings@) =~= views(base.warnings@));
    let ghost before = warnings@;
    warnings.push(warning);
    assert(views(warnings@) =~= views(before).push(warnings@.last()@));
    UiContext {
        command: base.command.clone(),
        capabilities: base.capabilities.duplicate(),
        compact: base.compact,
        warnings,
    }
}

} // verus!
