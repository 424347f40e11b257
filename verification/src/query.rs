//! The adjacent-ZZ observable evaluated after a simulation.

use vstd::prelude::*;
use vstd::string::*;
use crate::error::SimulationError;

verus! {

/// Hyper-samples the native expectation uses for the Query.
pub const EXPECTATION_HYPER_SAMPLES: i32 = 8;

/// The sum over bonds of Z(left) Z(left + 1), one ordered product per bond.
#[derive(Debug, Clone, PartialEq, Eq)]
pub struct AdjacentZQuery {
    pub width: u32,
    pub terms: Vec<[u32; 2]>,
}

impl AdjacentZQuery {
    /// The query over `width` qubits; it needs at least one bond.
    pub fn new(width: u32) -> (r: Result<Self, SimulationError>)
        ensures
            width < 2 ==> (r matches Err(SimulationError::InvalidCircuit { reason })
                && reason@ == "adjacent-ZZ Query requires at least two qubits"@),
            width >= 2 ==> (r matches Ok(query)
                && query.width == width
                && query.terms@.len() == width - 1
                && forall|i: int| 0 <= i < width - 1 ==>
                    (#[trigger] query.terms@[i])[0] == i && query.terms@[i][1] == i + 1),
    {
        if width < 2 {
            return Err(SimulationError::InvalidCircuit {
                reason: String::from_str("adjacent-ZZ Query requires at least two qubits"),
            });
        }
        let mut terms: Vec<[u32; 2]> = Vec::new();
        let mut left: u32 = 0;
        while left < width - 1
            invariant
                width >= 2,
                left <= width - 1,
                terms@.len() == left,
                forall|i: int| 0 <= i < left ==> (#[trigger] terms@[i])[0] == i && terms@[i][1] == i + 1,
            decreases width - 1 - left,
        {
            terms.push([left, left + 1]);
            left = left + 1;
        }
        Ok(AdjacentZQuery { width, terms })
    }
}

} // verus!
