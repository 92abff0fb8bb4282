//! The plain renderer streams the child's output unchanged; the
//! no-op renderer, used for detached runs, shows nothing.

use vstd::prelude::*;
use crate::ui::UiContext;

verus! {

/// Writes stdout frames to stdout and stderr frames to stderr.
#[derive(Debug)]
pub struct PlainRenderer;

impl PlainRenderer {
    /// Builds the renderer. Nothing is printed at construction: the
    /// capability context appears in the summary card instead.
    pub fn new(context: &UiContext) -> (r: Result<PlainRenderer, String>)
        ensures
            r is Ok,
    {
        Ok(PlainRenderer)
    }
}

/// Accepts frames and snapshots and shows nothing.
#[derive(Debug, Default)]
pub struct NoopRenderer;

impl NoopRenderer {
    pub fn new() -> (r: NoopRenderer) {
        NoopRenderer
    }
}

} // verus!
