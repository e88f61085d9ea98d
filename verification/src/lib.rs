//! Capture-to-text pipeline rules: configuration checks, frame pacing,
//! video chunk rotation, bounded processing queues and ordered results.

use vstd::prelude::*;

pub mod capture;
pub mod chunk;
pub mod image;
pub mod naming;
pub mod orchestrator;

pub mod pipeline;
pub mod queue;
pub mod types;

verus! {

/// The version string of this library.
pub open spec fn version_text() -> Seq<char> {
    "0.1.0"@
}

/// Returns the version of this library.
pub fn version() -> (v: &'static str)
    ensures
        v@ == version_text(),
{
    "0.1.0"
}

} // verus!
