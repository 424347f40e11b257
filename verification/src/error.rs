//! Failures of the simulation backend and how execution and cleanup
//! failures are combined.

use vstd::prelude::*;
use vstd::string::*;
use crate::text::{append_decimal, decimal};

verus! {

/// Every failure the backend reports.
#[derive(Debug)]
#[allow(inconsistent_fields)]
pub enum SimulationError {
    InvalidCircuit { reason: String },
    InvalidExecutionPolicy { reason: &'static str },
    InvalidSamplerConfiguration { reason: &'static str },
    InvalidContractionConfiguration { reason: &'static str },
    UnusableContraction,
    InvalidContractionPlan { reason: String },
    UnsupportedContraction { reason: &'static str },
    NoDevice,
    NativeCallFailed {
        component: &'static str,
        operation: &'static str,
        status: u32,
        message: String,
    },
    MissingNativeResource { operation: &'static str, resource: &'static str },
    ResourceSizeOverflow { resource: &'static str },
    WorkspaceLimitExceeded { required: u64, maximum: u64 },
    HostScratchAllocationFailed { bytes: usize },
    InvalidNativeResult { reason: String },
    ExecutionAndCleanupFailed { execution: Box<SimulationError>, cleanup: Box<SimulationError> },
}

impl SimulationError {
    /// The human-readable description of the failure.
    pub open spec fn describe(self) -> Seq<char>
        decreases self,
    {
        match self {
            SimulationError::InvalidCircuit { reason } => "invalid circuit: "@ + reason@,
            SimulationError::InvalidExecutionPolicy { reason } =>
                "invalid native execution policy: "@ + reason@,
            SimulationError::InvalidSamplerConfiguration { reason } =>
                "invalid sampler configuration: "@ + reason@,
            SimulationError::InvalidContractionConfiguration { reason } =>
                "invalid contraction configuration: "@ + reason@,
            SimulationError::UnusableContraction =>
                "contraction executable is unusable after an input or execution failure"@,
            SimulationError::InvalidContractionPlan { reason } =>
                "invalid portable contraction plan: "@ + reason@,
            SimulationError::UnsupportedContraction { reason } =>
                "unsupported contraction capability: "@ + reason@,
            SimulationError::NoDevice => "no CUDA-capable device is available"@,
            SimulationError::NativeCallFailed { component, operation, status, message } =>
                component@ + " "@ + operation@ + " failed with status "@ + decimal(status as nat)
                    + ": "@ + message@,
            SimulationError::MissingNativeResource { operation, resource } =>
                operation@ + " succeeded without returning a "@ + resource@,
            SimulationError::ResourceSizeOverflow { resource } =>
                resource@ + " size overflows the native address space"@,
            SimulationError::WorkspaceLimitExceeded { required, maximum } =>
                "native workspace requires "@ + decimal(required as nat) + " bytes, exceeding the "@
                    + decimal(maximum as nat) + "-byte limit"@,
            SimulationError::HostScratchAllocationFailed { bytes } =>
                "failed to allocate "@ + decimal(bytes as nat) + " bytes of host scratch"@,
            SimulationError::InvalidNativeResult { reason } => "invalid native result: "@ + reason@,
            SimulationError::ExecutionAndCleanupFailed { execution, cleanup } =>
                "execution failed ("@ + (*execution).describe() + "); cleanup also failed ("@
                    + (*cleanup).describe() + ")"@,
        }
    }

    /// Renders the failure as text (the `Display` form of the error).
    pub fn message(&self) -> (text: String)
        ensures
            text@ == self.describe(),
        decreases self,
    {
        let mut out = String::new();
        match self {
            SimulationError::InvalidCircuit { reason } => {
                out.append("invalid circuit: ");
                out.append(reason.as_str());
            },
            SimulationError::InvalidExecutionPolicy { reason } => {
                out.append("invalid native execution policy: ");
                out.append(reason);
            },
            SimulationError::InvalidSamplerConfiguration { reason } => {
                out.append("invalid sampler configuration: ");
                out.append(reason);
            },
            SimulationError::InvalidContractionConfiguration { reason } => {
                out.append("invalid contraction configuration: ");
                out.append(reason);
            },
            SimulationError::UnusableContraction => {
                out.append("contraction executable is unusable after an input or execution failure");
            },
            SimulationError::InvalidContractionPlan { reason } => {
                out.append("invalid portable contraction plan: ");
                out.append(reason.as_str());
            },
            SimulationError::UnsupportedContraction { reason } => {
                out.append("unsupported contraction capability: ");
                out.append(reason);
            },
            SimulationError::NoDevice => {
                out.append("no CUDA-capable device is available");
            },
            SimulationError::NativeCallFailed { component, operation, status, message } => {
                out.append(component);
                out.append(" ");
                out.append(operation);
                out.append(" failed with status ");
                append_decimal(&mut out, *status as u64);
                out.append(": ");
                out.append(message.as_str());
            },
            SimulationError::MissingNativeResource { operation, resource } => {
                out.append(operation);
                out.append(" succeeded without returning a ");
                out.append(resource);
            },
            SimulationError::ResourceSizeOverflow { resource } => {
                out.append(resource);
                out.append(" size overflows the native address space");
            },
            SimulationError::WorkspaceLimitExceeded { required, maximum } => {
                out.append("native workspace requires ");
                append_decimal(&mut out, *required);
                out.append(" bytes, exceeding the ");
                append_decimal(&mut out, *maximum);
                out.append("-byte limit");
            },
            SimulationError::HostScratchAllocationFailed { bytes } => {
                out.append("failed to allocate ");
                append_decimal(&mut out, *bytes as u64);
                out.append(" bytes of host scratch");
            },
            SimulationError::InvalidNativeResult { reason } => {
                out.append("invalid native result: ");
                out.append(reason.as_str());
            },
            SimulationError::ExecutionAndCleanupFailed { execution, cleanup } => {
                let first = execution.message();
                let second = cleanup.message();
                out.append("execution failed (");
                out.append(first.as_str());
                out.append("); cleanup also failed (");
                out.append(second.as_str());
                out.append(")");
            },
        }
        out
    }
}

/// The outcome of an operation followed by its cleanup: the value when both
/// succeed, the single failure when one fails, and both failures when both do.
pub open spec fn combined<T>(
    execution: Result<T, SimulationError>,
    cleanup: Result<(), SimulationError>,
) -> Result<T, SimulationError> {
    match (execution, cleanup) {
        (Ok(value), Ok(())) => Ok(value),
        (Err(error), Ok(())) => Err(error),
        (Ok(_), Err(error)) => Err(error),
        (Err(execution), Err(cleanup)) => Err(SimulationError::ExecutionAndCleanupFailed {
            execution: Box::new(execution),
            cleanup: Box::new(cleanup),
        }),
    }
}

/// Combines an operation's result with the result of the cleanup that
/// followed it, keeping every failure observable.
pub fn combine_execution_and_cleanup<T>(
    execution: Result<T, SimulationError>,
    cleanup: Result<(), SimulationError>,
) -> (r: Result<T, SimulationError>)
    ensures
        r == combined(execution, cleanup),
{
    match (execution, cleanup) {
        (Ok(value), Ok(())) => Ok(value),
        (Err(error), Ok(())) => Err(error),
        (Ok(_), Err(error)) => Err(error),
        (Err(execution), Err(cleanup)) => Err(SimulationError::ExecutionAndCleanupFailed {
            execution: Box::new(execution),
            cleanup: Box::new(cleanup),
        }),
    }
}

} // verus!
