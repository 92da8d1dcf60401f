//! The extraction schedule label: the phase that copies data from the
//! main world into the render world, kept as short as possible so the
//! next frame can be simulated while the current one renders.

use vstd::prelude::*;

verus! {

/// Schedule which extracts data from the main world and inserts it into
/// the render world.
#[derive(Clone, Copy, PartialEq, Eq, Structural, Debug, Hash)]
pub struct ExtractSchedule;

} // verus!
