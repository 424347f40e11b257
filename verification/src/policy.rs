//! The qualified MPS execution policies and their validation.
//!
//! SVD cutoffs are IEEE-754 binary64 values carried as their bit patterns.

use vstd::prelude::*;
use crate::error::SimulationError;

verus! {

/// Largest device workspace any policy may grant, in bytes (64 GiB).
pub const MAXIMUM_WORKSPACE_BYTES: u64 = 68_719_476_736;

/// Bit pattern of 1.0e-10.
pub const CUTOFF_1E_10: u64 = 0x3ddb_7cdf_d9d7_bdbb;
/// Bit pattern of 1.0e-12.
pub const CUTOFF_1E_12: u64 = 0x3d71_9799_812d_ea11;
/// Bit pattern of 1.0e-16.
pub const CUTOFF_1E_16: u64 = 0x3c9c_d2b2_97d8_89bc;

#[derive(Clone, Copy, Debug, PartialEq, Eq, Structural)]
pub enum Precision {
    F32,
    F64,
}

#[derive(Clone, Copy, Debug, PartialEq, Eq, Structural)]
pub enum SvdAlgorithm {
    Gesvd,
    Gesvdj,
}

#[derive(Clone, Copy, Debug, PartialEq, Eq, Structural)]
pub enum Gauge {
    Simple,
    Free,
}

/// A binary64 bit pattern whose exponent is not all ones (neither infinite
/// nor NaN).
pub open spec fn binary64_is_finite(bits: u64) -> bool {
    (bits / 0x10_0000_0000_0000) % 0x800 != 0x7ff
}

/// A binary64 bit pattern below zero: sign bit set and not negative zero.
pub open spec fn binary64_is_negative(bits: u64) -> bool {
    bits >= 0x8000_0000_0000_0000 && bits != 0x8000_0000_0000_0000
}

/// A usable SVD cutoff: finite and not negative.
pub open spec fn valid_cutoff(bits: u64) -> bool {
    binary64_is_finite(bits) && !binary64_is_negative(bits)
}

/// How the MPS simulation runs on the device.
#[derive(Clone, Copy, Debug, PartialEq, Eq, Structural)]
pub struct ExecutionPolicy {
    pub device_ordinal: i32,
    pub precision: Precision,
    pub bond_cap: i64,
    pub absolute_cutoff: u64,
    pub relative_cutoff: u64,
    pub svd_algorithm: SvdAlgorithm,
    pub gauge: Gauge,
    pub maximum_workspace_bytes: u64,
}

/// The first setting of a policy that is not qualified, if any.
pub open spec fn policy_rejection(p: ExecutionPolicy) -> Option<&'static str> {
    if p.device_ordinal < 0 {
        Some("device ordinal must be nonnegative")
    } else if p.precision != Precision::F64 {
        Some("only fp64 is qualified")
    } else if p.bond_cap <= 0 {
        Some("bond cap must be positive")
    } else if !valid_cutoff(p.absolute_cutoff) {
        Some("absolute cutoff")
    } else if !valid_cutoff(p.relative_cutoff) {
        Some("relative cutoff")
    } else if p.svd_algorithm != SvdAlgorithm::Gesvd {
        Some("only GESVD is qualified")
    } else if p.gauge != Gauge::Simple {
        Some("only SIMPLE gauge is qualified")
    } else if !(1 <= p.maximum_workspace_bytes <= MAXIMUM_WORKSPACE_BYTES) {
        Some("workspace budget is outside the approved range")
    } else {
        None
    }
}

fn validate_cutoff(label: &'static str, bits: u64) -> (r: Result<(), SimulationError>)
    ensures
        valid_cutoff(bits) ==> r is Ok,
        !valid_cutoff(bits) ==> r == Err::<(), SimulationError>(SimulationError::InvalidExecutionPolicy { reason: label }),
{
    let exponent = (bits / 0x10_0000_0000_0000) % 0x800;
    if exponent == 0x7ff || (bits >= 0x8000_0000_0000_0000 && bits != 0x8000_0000_0000_0000) {
        Err(SimulationError::InvalidExecutionPolicy { reason: label })
    } else {
        Ok(())
    }
}

impl ExecutionPolicy {
    /// The two-qubit Bell regression policy: bond cap 2, both cutoffs 1e-10.
    pub fn bell_regression() -> (p: Self)
        ensures
            p == (ExecutionPolicy {
                device_ordinal: 0,
                precision: Precision::F64,
                bond_cap: 2,
                absolute_cutoff: CUTOFF_1E_10,
                relative_cutoff: CUTOFF_1E_10,
                svd_algorithm: SvdAlgorithm::Gesvd,
                gauge: Gauge::Simple,
                maximum_workspace_bytes: MAXIMUM_WORKSPACE_BYTES,
            }),
    {
        ExecutionPolicy {
            device_ordinal: 0,
            precision: Precision::F64,
            bond_cap: 2,
            absolute_cutoff: CUTOFF_1E_10,
            relative_cutoff: CUTOFF_1E_10,
            svd_algorithm: SvdAlgorithm::Gesvd,
            gauge: Gauge::Simple,
            maximum_workspace_bytes: MAXIMUM_WORKSPACE_BYTES,
        }
    }

    /// The base qualification policy: bond cap 128, absolute cutoff 1e-10,
    /// relative cutoff 1e-16.
    pub fn base_qualification() -> (p: Self)
        ensures
            p == (ExecutionPolicy {
                device_ordinal: 0,
                precision: Precision::F64,
                bond_cap: 128,
                absolute_cutoff: CUTOFF_1E_10,
                relative_cutoff: CUTOFF_1E_16,
                svd_algorithm: SvdAlgorithm::Gesvd,
                gauge: Gauge::Simple,
                maximum_workspace_bytes: MAXIMUM_WORKSPACE_BYTES,
            }),
    {
        ExecutionPolicy {
            device_ordinal: 0,
            precision: Precision::F64,
            bond_cap: 128,
            absolute_cutoff: CUTOFF_1E_10,
            relative_cutoff: CUTOFF_1E_16,
            svd_algorithm: SvdAlgorithm::Gesvd,
            gauge: Gauge::Simple,
            maximum_workspace_bytes: MAXIMUM_WORKSPACE_BYTES,
        }
    }

    /// The base policy with the historical matched-bond absolute cutoff 1e-12.
    pub fn b3_matched_bond_qualification() -> (p: Self)
        ensures
            p == (ExecutionPolicy { absolute_cutoff: CUTOFF_1E_12, ..Self::base_qualification_spec() }),
    {
        let base = Self::base_qualification();
        ExecutionPolicy { absolute_cutoff: CUTOFF_1E_12, ..base }
    }

    /// The matched-bond policy with only the bond cap changed.
    pub fn b4_convergence_qualification(bond_cap: i64) -> (p: Self)
        ensures
            p == (ExecutionPolicy { bond_cap, absolute_cutoff: CUTOFF_1E_12, ..Self::base_qualification_spec() }),
    {
        let matched = Self::b3_matched_bond_qualification();
        ExecutionPolicy { bond_cap, ..matched }
    }

    pub open spec fn base_qualification_spec() -> Self {
        ExecutionPolicy {
            device_ordinal: 0,
            precision: Precision::F64,
            bond_cap: 128,
            absolute_cutoff: CUTOFF_1E_10,
            relative_cutoff: CUTOFF_1E_16,
            svd_algorithm: SvdAlgorithm::Gesvd,
            gauge: Gauge::Simple,
            maximum_workspace_bytes: MAXIMUM_WORKSPACE_BYTES,
        }
    }

    /// Returns the policy unchanged when every setting is qualified, else the
    /// first unqualified setting.
    pub fn validate(self) -> (r: Result<Self, SimulationError>)
        ensures
            match policy_rejection(self) {
                Some(reason) => r == Err::<Self, SimulationError>(SimulationError::InvalidExecutionPolicy { reason }),
                None => r == Ok::<Self, SimulationError>(self),
            },
            r is Ok ==> (self.absolute_cutoff / 0x10_0000_0000_0000) % 0x800 != 0x7ff
                && (self.absolute_cutoff < 0x8000_0000_0000_0000 || self.absolute_cutoff == 0x8000_0000_0000_0000),
            r is Ok ==> (self.relative_cutoff / 0x10_0000_0000_0000) % 0x800 != 0x7ff
                && (self.relative_cutoff < 0x8000_0000_0000_0000 || self.relative_cutoff == 0x8000_0000_0000_0000),
    {
        if self.device_ordinal < 0 {
            return Err(SimulationError::InvalidExecutionPolicy { reason: "device ordinal must be nonnegative" });
        }
        if self.precision != Precision::F64 {
            return Err(SimulationError::InvalidExecutionPolicy { reason: "only fp64 is qualified" });
        }
        if self.bond_cap <= 0 {
            return Err(SimulationError::InvalidExecutionPolicy { reason: "bond cap must be positive" });
        }
        validate_cutoff("absolute cutoff", self.absolute_cutoff)?;
        validate_cutoff("relative cutoff", self.relative_cutoff)?;
        if self.svd_algorithm != SvdAlgorithm::Gesvd {
            return Err(SimulationError::InvalidExecutionPolicy { reason: "only GESVD is qualified" });
        }
        if self.gauge != Gauge::Simple {
            return Err(SimulationError::InvalidExecutionPolicy { reason: "only SIMPLE gauge is qualified" });
        }
        if self.maximum_workspace_bytes < 1 || self.maximum_workspace_bytes > MAXIMUM_WORKSPACE_BYTES {
            return Err(SimulationError::InvalidExecutionPolicy { reason: "workspace budget is outside the approved range" });
        }
        Ok(self)
    }
}

/// A cutoff is accepted exactly when it is a finite binary64 value that is
/// not below zero: a NaN or infinity (exponent field all ones) or a negative
/// value (sign bit set, other than negative zero) is refused, naming the
/// absolute cutoff before the relative one, once the device, precision and
/// bond cap are settled.
pub proof fn law_cutoffs_must_be_finite_and_nonnegative(p: ExecutionPolicy)
    requires
        p.device_ordinal >= 0,
        p.precision == Precision::F64,
        p.bond_cap > 0,
    ensures
        (p.absolute_cutoff / 0x10_0000_0000_0000) % 0x800 == 0x7ff
            ==> policy_rejection(p) == Some("absolute cutoff"),
        p.absolute_cutoff > 0x8000_0000_0000_0000 ==> policy_rejection(p) == Some("absolute cutoff"),
        (p.absolute_cutoff / 0x10_0000_0000_0000) % 0x800 != 0x7ff
            && p.absolute_cutoff <= 0x8000_0000_0000_0000
            && (p.relative_cutoff / 0x10_0000_0000_0000) % 0x800 == 0x7ff
            ==> policy_rejection(p) == Some("relative cutoff"),
        (p.absolute_cutoff / 0x10_0000_0000_0000) % 0x800 != 0x7ff
            && p.absolute_cutoff <= 0x8000_0000_0000_0000
            && p.relative_cutoff > 0x8000_0000_0000_0000
            ==> policy_rejection(p) == Some("relative cutoff"),
        policy_rejection(p) is None ==> p.absolute_cutoff <= 0x8000_0000_0000_0000
            && p.relative_cutoff <= 0x8000_0000_0000_0000
            && (p.absolute_cutoff / 0x10_0000_0000_0000) % 0x800 != 0x7ff
            && (p.relative_cutoff / 0x10_0000_0000_0000) % 0x800 != 0x7ff,
{
}

/// Every preset policy passes validation unchanged.
pub proof fn law_presets_are_qualified(bond_cap: i64)
    requires
        bond_cap > 0,
    ensures
        policy_rejection(ExecutionPolicy::base_qualification_spec()) is None,
        policy_rejection(ExecutionPolicy { bond_cap: 2, relative_cutoff: CUTOFF_1E_10, ..ExecutionPolicy::base_qualification_spec() }) is None,
        policy_rejection(ExecutionPolicy { absolute_cutoff: CUTOFF_1E_12, ..ExecutionPolicy::base_qualification_spec() }) is None,
        policy_rejection(ExecutionPolicy { bond_cap, absolute_cutoff: CUTOFF_1E_12, ..ExecutionPolicy::base_qualification_spec() }) is None,
{
}

} // verus!
