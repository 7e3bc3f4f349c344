//! Sampling of CPU and memory use for a process tree, from the kernel's
//! per-process accounting records.
use vstd::prelude::*;

pub mod cli;
pub mod record;
pub mod report;
pub mod sampler;
pub mod text;
pub mod tree;

verus! {

} // verus!
