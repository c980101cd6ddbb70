//! Sovereign Orchestrator: routing, registry, memory and cache logic for a
//! fleet of locally hosted language models, with verified contracts.

pub mod base;
pub mod text;
pub mod routing;
pub mod memory;
pub mod inference;
pub mod gateway;

use vstd::prelude::*;

verus! {

/// Library version.
pub const VERSION: &'static str = "0.1.0";

/// Library name.
pub const NAME: &'static str = "Sovereign Orchestrator";

} // verus!
