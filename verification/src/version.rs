use vstd::prelude::*;

verus! {

/// Reasons the native runtime libraries cannot be used.
#[derive(Debug, PartialEq, Eq)]
pub enum AvailabilityError {
    UnsupportedVersion { component: &'static str, found: u64, supported: &'static str },
}

/// The exact runtime versions this backend has been audited against.
pub struct VersionPolicy {
    cutensornet_runtime: usize,
    cuda_runtime: i32,
}

/// The audited cuTensorNet 2.13 / CUDA Runtime 12.9 pair.
pub fn audited_policy() -> (policy: VersionPolicy)
    ensures
        policy.cutensornet() == 21_300,
        policy.cuda() == 12_090,
{
    VersionPolicy { cutensornet_runtime: 21_300, cuda_runtime: 12_090 }
}

impl VersionPolicy {
    pub closed spec fn cutensornet(&self) -> int {
        self.cutensornet_runtime as int
    }

    pub closed spec fn cuda(&self) -> int {
        self.cuda_runtime as int
    }

    /// Accepts exactly the audited cuTensorNet runtime version.
    pub fn validate_cutensornet(&self, found: usize) -> (r: Result<(), AvailabilityError>)
        ensures
            r is Ok <==> found == self.cutensornet(),
            r is Err ==> r == Err::<(), AvailabilityError>(AvailabilityError::UnsupportedVersion {
                component: "cuTensorNet runtime",
                found: found as u64,
                supported: "21300",
            }),
    {
        if found == self.cutensornet_runtime {
            Ok(())
        } else {
            Err(AvailabilityError::UnsupportedVersion {
                component: "cuTensorNet runtime",
                found: found as u64,
                supported: "21300",
            })
        }
    }

    /// Accepts exactly the audited CUDA runtime version; a negative report is
    /// shown as zero.
    pub fn validate_cuda_runtime(&self, found: i32) -> (r: Result<(), AvailabilityError>)
        ensures
            r is Ok <==> found == self.cuda(),
            r is Err ==> r == Err::<(), AvailabilityError>(AvailabilityError::UnsupportedVersion {
                component: "CUDA Runtime",
                found: if found >= 0 { found as u64 } else { 0 },
                supported: "12090",
            }),
    {
        if found == self.cuda_runtime {
            Ok(())
        } else {
            let shown: u64 = if found >= 0 { found as u64 } else { 0 };
            Err(AvailabilityError::UnsupportedVersion {
                component: "CUDA Runtime",
                found: shown,
                supported: "12090",
            })
        }
    }
}

} // verus!
