//! Placeholder for AI agent coordination; nothing is wired up yet, and
//! the readiness label says so.

use vstd::prelude::*;

verus! {

/// Coordinates AI agents once they exist; stateless until then.
pub struct AiOrchestrator;

impl AiOrchestrator {
    pub fn new() -> (r: Self) {
        AiOrchestrator
    }

    /// The readiness label shown in the status line.
    pub fn readiness_label(&self) -> (r: &'static str)
        ensures
            r@ == "AI offline"@,
    {
        "AI offline"
    }
}

} // verus!
