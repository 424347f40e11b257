//! Checks applied at the boundary with the native CUDA / cuTensorNet calls:
//! status codes, size conversions and results the native side hands back.

use vstd::prelude::*;
use vstd::string::*;
use crate::error::SimulationError;

verus! {

/// Status code the CUDA runtime returns on success.
pub const CUDA_SUCCESS: u32 = 0;

/// Status code cuTensorNet returns on success.
pub const CUTENSORNET_STATUS_SUCCESS: u32 = 0;

/// Size in bytes of one double-precision complex element as laid out for the
/// native library.
pub const COMPLEX64_BYTES: usize = 16;

/// Turns a CUDA runtime status into a result; `message` is the runtime's
/// description of that status.
pub fn check_cuda(operation: &'static str, status: u32, message: String) -> (r: Result<(), SimulationError>)
    ensures
        status == CUDA_SUCCESS ==> r is Ok,
        status != CUDA_SUCCESS ==> (r matches Err(SimulationError::NativeCallFailed { component, operation: o, status: s, message: m })
            && component == "CUDA Runtime" && o == operation && s == status && m == message),
{
    if status == CUDA_SUCCESS {
        Ok(())
    } else {
        Err(SimulationError::NativeCallFailed { component: "CUDA Runtime", operation, status, message })
    }
}

/// Turns a cuTensorNet status into a result; `message` is the library's
/// description of that status.
pub fn check_cutensornet(operation: &'static str, status: u32, message: String) -> (r: Result<(), SimulationError>)
    ensures
        status == CUTENSORNET_STATUS_SUCCESS ==> r is Ok,
        status != CUTENSORNET_STATUS_SUCCESS ==> (r matches Err(SimulationError::NativeCallFailed { component, operation: o, status: s, message: m })
            && component == "cuTensorNet" && o == operation && s == status && m == message),
{
    if status == CUTENSORNET_STATUS_SUCCESS {
        Ok(())
    } else {
        Err(SimulationError::NativeCallFailed { component: "cuTensorNet", operation, status, message })
    }
}

/// Integer types that native counts and seeds are given in.
pub trait NativeCount: Copy {
    spec fn value(&self) -> int;

    fn is_positive(&self) -> (b: bool)
        ensures
            b == (self.value() > 0);
}

impl NativeCount for i32 {
    open spec fn value(&self) -> int {
        *self as int
    }

    fn is_positive(&self) -> (b: bool) {
        *self > 0
    }
}

impl NativeCount for i64 {
    open spec fn value(&self) -> int {
        *self as int
    }

    fn is_positive(&self) -> (b: bool) {
        *self > 0
    }
}

impl NativeCount for usize {
    open spec fn value(&self) -> int {
        *self as int
    }

    fn is_positive(&self) -> (b: bool) {
        *self > 0
    }
}

/// Accepts strictly positive sampler counts and seeds.
pub fn require_positive<T: NativeCount>(value: T, reason: &'static str) -> (r: Result<(), SimulationError>)
    ensures
        r is Ok <==> value.value() > 0,
        r is Err ==> r == Err::<(), SimulationError>(SimulationError::InvalidSamplerConfiguration { reason }),
{
    if value.is_positive() {
        Ok(())
    } else {
        Err(SimulationError::InvalidSamplerConfiguration { reason })
    }
}

/// Narrows a metadata count (tensor rank, path length) to the native `int32_t`.
pub fn contraction_count(count: usize) -> (r: Result<i32, SimulationError>)
    ensures
        count <= i32::MAX ==> r == Ok::<i32, SimulationError>(count as i32),
        count > i32::MAX ==> r == Err::<i32, SimulationError>(
            SimulationError::ResourceSizeOverflow { resource: "contraction metadata count" }),
{
    if count <= i32::MAX as usize {
        Ok(count as i32)
    } else {
        Err(SimulationError::ResourceSizeOverflow { resource: "contraction metadata count" })
    }
}

/// Byte size of a host/device copy of `elements` complex values; empty copies
/// are rejected.
pub fn complex_bytes(elements: usize) -> (r: Result<usize, SimulationError>)
    ensures
        elements == 0 ==> (r matches Err(SimulationError::InvalidNativeResult { reason })
            && reason@ == "complex tensor copy requires at least one element"@),
        elements > 0 && elements * COMPLEX64_BYTES <= usize::MAX ==> r == Ok::<usize, SimulationError>(
            (elements * COMPLEX64_BYTES) as usize),
        elements > 0 && elements * COMPLEX64_BYTES > usize::MAX ==> r == Err::<usize, SimulationError>(
            SimulationError::ResourceSizeOverflow { resource: "complex tensor" }),
{
    if elements == 0 {
        return Err(SimulationError::InvalidNativeResult {
            reason: String::from_str("complex tensor copy requires at least one element"),
        });
    }
    match elements.checked_mul(COMPLEX64_BYTES) {
        Some(bytes) => Ok(bytes),
        None => Err(SimulationError::ResourceSizeOverflow { resource: "complex tensor" }),
    }
}

/// The native state computation must write into the caller's output
/// allocations, not replace them: the returned address table must equal the
/// one passed in.
pub fn validate_output_pointers(expected: &[u64], actual: &[u64]) -> (r: Result<(), SimulationError>)
    ensures
        r is Ok <==> actual@ == expected@,
        r is Err ==> (r matches Err(SimulationError::InvalidNativeResult { reason })
            && reason@ == "cutensornetStateCompute replaced caller-owned output pointers"@),
{
    let mut same = actual.len() == expected.len();
    if same {
        let mut i: usize = 0;
        while i < actual.len()
            invariant
                actual@.len() == expected@.len(),
                i <= actual@.len(),
                same == (forall|j: int| 0 <= j < i ==> actual@[j] == expected@[j]),
            decreases actual@.len() - i,
        {
            if actual[i] != expected[i] {
                same = false;
            }
            i = i + 1;
        }
        if same {
            assert(actual@ =~= expected@);
        }
    }
    if same {
        Ok(())
    } else {
        Err(SimulationError::InvalidNativeResult {
            reason: String::from_str("cutensornetStateCompute replaced caller-owned output pointers"),
        })
    }
}

} // verus!
