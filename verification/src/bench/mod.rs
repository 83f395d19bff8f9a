use vstd::prelude::*;

pub mod report;

verus! {

/// Default amount of games to play for a benchmark
pub const DEFAULT_N: usize = 50;

} // verus!
