//! Client-side vocabulary.

pub mod bench;

pub use bench::{ClientBench, ModeParamsBench};

use vstd::prelude::*;

verus! {

/// Client stub ID type.
pub type ClientId = u64;

} // verus!
