//! One simulation replay on the native MPS library: the state, workspace and
//! Query resources it acquires, the order in which it uses and releases them,
//! and the checks it applies to what the library reports back.
//!
//! Every acquisition and release is recorded in a ghost history. A replay
//! always owns exactly the resources its history leaves live, and closing it
//! releases all of them in dependency order.

use vstd::prelude::*;
use vstd::multiset::*;
use vstd::string::*;
use crate::error::SimulationError;
use crate::circuit::{gate_modes, modes_fit, operator_modes, validate_open_mps, Circuit, Gate};
use crate::error::combine_execution_and_cleanup;
use crate::mps::{
    all_qubits, convert_layout, fits_within, is_chain, max_bond_prefix, maximum_bond, mode_id, usize_rows,
    validate_realized_extents, validate_workspace_size, MpsTarget, OwnedOperator,
};
use crate::native::COMPLEX64_BYTES;
use crate::text::append_signed_decimal;
use crate::query::{AdjacentZQuery, EXPECTATION_HYPER_SAMPLES};
use crate::sampler::{FullBitstringSamples, PreparedSampler, SamplerApi, SamplerContext, SamplingRequest};
use crate::circuit::outside_message;
use crate::text::{append_decimal, decimal};
use crate::policy::{policy_rejection, ExecutionPolicy};

verus! {

broadcast use vstd::multiset::group_multiset_axioms;

/// A native object or device allocation a replay can own, with its handle.
#[derive(Clone, Copy, Debug, PartialEq, Eq, Structural)]
pub enum Resource {
    State(u64),
    Workspace(u64),
    QueryWorkspace(u64),
    NetworkOperator(u64),
    Expectation(u64),
    DeviceMemory(u64),
    Stream(u64),
    LibraryHandle(u64),
    Network(u64),
    OptimizerConfig(u64),
    OptimizerInfo(u64),
}

/// One step of a replay's resource history. A release records the failure of
/// the destroying call, if it failed; the resource is given up either way.
pub enum ReplayEvent {
    Acquired(Resource),
    Released(Resource, Option<SimulationError>),
    Synchronized(Option<SimulationError>),
    DeviceSelected(Option<SimulationError>),
}

/// One native call of a replay, with what was handed to the library or, for a
/// query, what it answered.
#[derive(Clone, Copy, Debug, PartialEq, Eq, Structural)]
pub enum NativeCall {
    /// Free and total device memory, as the library reported them.
    MemoryObserved { free: usize, total: usize },
    /// The state was prepared under this workspace ceiling.
    StatePrepared { maximum_bytes: u64 },
    /// The library recommended this many workspace bytes for the state.
    WorkspaceSized { bytes: i64 },
    /// Scratch of this many bytes was attached to the state workspace.
    WorkspaceAttached { bytes: i64 },
    /// The state was computed into one output buffer per site.
    StateComputed { outputs: usize },
    /// The stream was synchronized; whether the wait failed.
    Synchronized { failed: bool },
    /// The output buffer of one site was copied back to the host.
    SiteCopied { site: usize },
    /// A product of one-site operators on these modes, in order.
    ProductAppended { first: i32, second: Option<i32> },
    /// The expectation was configured with this many hyper-samples.
    HyperSamplesConfigured { samples: i32 },
    /// The expectation was computed.
    ExpectationComputed,
    /// A projector onto an outcome was uploaded: as it is, or scaled to
    /// renormalize the state.
    ProjectorUploaded { selected: SelectedBranch, normalized: bool },
    /// The library answered whether the selected outcome has mass.
    MassChecked { positive: bool },
    /// The uploaded projector was applied to the state on this mode.
    ProjectionApplied { mode: i32 },
    /// A sampler over this many modes was created and prepared.
    SamplerCreated { modes: usize },
    /// The sampler was destroyed.
    SamplerDestroyed,
}

/// Whether no barrier among the calls failed.
pub open spec fn barriers_held(calls: Seq<NativeCall>) -> bool {
    forall|i: int| 0 <= i < calls.len() ==> calls[i] != (NativeCall::Synchronized { failed: true })
}

/// Whether a failed barrier, if any, is the last call: nothing runs past a
/// failed barrier.
pub open spec fn stops_at_failed_barrier(calls: Seq<NativeCall>) -> bool {
    forall|i: int| 0 <= i < calls.len() && calls[i] == (NativeCall::Synchronized { failed: true }) ==> i == calls.len()
        - 1
}

/// Calls after calls whose barriers held: a stop at a failed barrier
/// carries over, and so do held barriers.
pub proof fn lemma_barriers_concat(a: Seq<NativeCall>, b: Seq<NativeCall>)
    requires
        barriers_held(a),
        stops_at_failed_barrier(b),
    ensures
        stops_at_failed_barrier(a + b),
        barriers_held(b) ==> barriers_held(a + b),
{
    assert forall|i: int| 0 <= i < (a + b).len() && (a + b)[i] == (NativeCall::Synchronized { failed: true }) implies i
        == (a + b).len() - 1 by {
        if i >= a.len() {
            assert((a + b)[i] == b[i - a.len()]);
        }
    }
    if barriers_held(b) {
        assert forall|i: int| 0 <= i < (a + b).len() implies (a + b)[i] != (NativeCall::Synchronized { failed: true }) by {
            if i >= a.len() {
                assert((a + b)[i] == b[i - a.len()]);
            }
        }
    }
}

/// Calls in two stretches, the first with its barriers held: the whole
/// stops at a failed barrier if the second does, and holds its barriers if
/// the second does.
pub proof fn lemma_segment_barriers(a: Seq<NativeCall>, b: Seq<NativeCall>, c: Seq<NativeCall>)
    requires
        a.len() <= b.len() <= c.len(),
        b.subrange(0, a.len() as int) =~= a,
        c.subrange(0, b.len() as int) =~= b,
        barriers_held(b.subrange(a.len() as int, b.len() as int)),
        stops_at_failed_barrier(c.subrange(b.len() as int, c.len() as int)),
    ensures
        c.subrange(0, a.len() as int) =~= a,
        stops_at_failed_barrier(c.subrange(a.len() as int, c.len() as int)),
        barriers_held(c.subrange(b.len() as int, c.len() as int)) ==> barriers_held(
            c.subrange(a.len() as int, c.len() as int),
        ),
{
    lemma_calls_concat(a, b, c);
    lemma_barriers_concat(b.subrange(a.len() as int, b.len() as int), c.subrange(b.len() as int, c.len() as int));
}

/// Logging a call that is not a failed barrier keeps the barriers held.
pub proof fn lemma_held_push(calls: Seq<NativeCall>, call: NativeCall)
    requires
        barriers_held(calls),
        call != (NativeCall::Synchronized { failed: true }),
    ensures
        barriers_held(calls.push(call)),
{
    assert forall|i: int| 0 <= i < calls.push(call).len() implies calls.push(call)[i] != (NativeCall::Synchronized {
        failed: true,
    }) by {
        if i < calls.len() {
            assert(calls.push(call)[i] == calls[i]);
        }
    }
}

/// Calls logged in two stretches: those up to `b` after `a`, then those up
/// to `c` after `b`.
pub proof fn lemma_calls_concat(a: Seq<NativeCall>, b: Seq<NativeCall>, c: Seq<NativeCall>)
    requires
        a.len() <= b.len() <= c.len(),
        b.subrange(0, a.len() as int) =~= a,
        c.subrange(0, b.len() as int) =~= b,
    ensures
        c.subrange(0, a.len() as int) =~= a,
        c.subrange(a.len() as int, c.len() as int) =~= b.subrange(a.len() as int, b.len() as int) + c.subrange(
            b.len() as int,
            c.len() as int,
        ),
{
    assert forall|m: int| 0 <= m < b.len() implies c[m] == b[m] by {
        assert(c.subrange(0, b.len() as int)[m] == c[m]);
    }
    assert forall|m: int| 0 <= m < a.len() implies b[m] == a[m] by {
        assert(b.subrange(0, a.len() as int)[m] == b[m]);
    }
}

/// The resources a history leaves live: acquired and not yet released.
pub open spec fn live(history: Seq<ReplayEvent>) -> Multiset<Resource>
    decreases history.len(),
{
    if history.len() == 0 {
        Multiset::empty()
    } else {
        let before = live(history.drop_last());
        match history.last() {
            ReplayEvent::Acquired(r) => before.insert(r),
            ReplayEvent::Released(r, _) => before.remove(r),
            ReplayEvent::Synchronized(_) => before,
            ReplayEvent::DeviceSelected(_) => before,
        }
    }
}

/// The failure a step reports, if any.
pub open spec fn step_failure(event: ReplayEvent) -> Option<SimulationError> {
    match event {
        ReplayEvent::Acquired(_) => None,
        ReplayEvent::Released(_, failure) => failure,
        ReplayEvent::Synchronized(failure) => failure,
        ReplayEvent::DeviceSelected(failure) => failure,
    }
}

/// The first failure among a run of steps.
pub open spec fn first_failure(steps: Seq<ReplayEvent>) -> Option<SimulationError>
    decreases steps.len(),
{
    if steps.len() == 0 {
        None
    } else {
        match first_failure(steps.drop_last()) {
            Some(failure) => Some(failure),
            None => step_failure(steps.last()),
        }
    }
}

/// The outcome of a cleanup run: its first failure, or success.
pub open spec fn cleanup_outcome(steps: Seq<ReplayEvent>) -> Result<(), SimulationError> {
    match first_failure(steps) {
        Some(failure) => Err(failure),
        None => Ok(()),
    }
}

/// The outcome of a step as a result.
pub open spec fn step_outcome(event: ReplayEvent) -> Result<(), SimulationError> {
    match step_failure(event) {
        Some(failure) => Err(failure),
        None => Ok(()),
    }
}

/// The outcome of a run of steps whose failures are folded together with
/// `combined`, starting from `start`: later failures are kept beside earlier
/// ones rather than dropped.
pub open spec fn combined_outcome(start: Result<(), SimulationError>, steps: Seq<ReplayEvent>) -> Result<
    (),
    SimulationError,
>
    decreases steps.len(),
{
    if steps.len() == 0 {
        start
    } else {
        crate::error::combined(combined_outcome(start, steps.drop_last()), step_outcome(steps.last()))
    }
}

/// The resources a run of steps releases, in order.
pub open spec fn released(steps: Seq<ReplayEvent>) -> Seq<Resource>
    decreases steps.len(),
{
    if steps.len() == 0 {
        Seq::empty()
    } else {
        let before = released(steps.drop_last());
        match steps.last() {
            ReplayEvent::Released(r, _) => before.push(r),
            _ => before,
        }
    }
}

/// Whether a run of steps only releases resources.
pub open spec fn only_releases(steps: Seq<ReplayEvent>) -> bool {
    forall|i: int| 0 <= i < steps.len() ==> #[trigger] steps[i] is Released
}

/// Whether a run of steps only acquires resources.
pub open spec fn only_acquires(steps: Seq<ReplayEvent>) -> bool {
    forall|i: int| 0 <= i < steps.len() ==> #[trigger] steps[i] is Acquired
}

/// Whether `later` continues `earlier` with acquisitions only: nothing that
/// was held has been given up.
pub open spec fn grows_by_acquisition(later: Seq<ReplayEvent>, earlier: Seq<ReplayEvent>) -> bool {
    &&& earlier.len() <= later.len()
    &&& later.subrange(0, earlier.len() as int) =~= earlier
    &&& only_acquires(later.subrange(earlier.len() as int, later.len() as int))
}

/// A history grows by acquisition from itself.
pub proof fn lemma_grows_refl(history: Seq<ReplayEvent>)
    ensures
        grows_by_acquisition(history, history),
{
    assert(history.subrange(0, history.len() as int) =~= history);
}

/// Acquiring one resource grows a history by acquisition.
pub proof fn lemma_grows_push(history: Seq<ReplayEvent>, resource: Resource)
    ensures
        grows_by_acquisition(history.push(ReplayEvent::Acquired(resource)), history),
{
    let later = history.push(ReplayEvent::Acquired(resource));
    assert(later.subrange(0, history.len() as int) =~= history);
    let tail = later.subrange(history.len() as int, later.len() as int);
    assert(tail =~= seq![ReplayEvent::Acquired(resource)]);
}

/// Growth by acquisition is transitive.
pub proof fn lemma_grows_trans(a: Seq<ReplayEvent>, b: Seq<ReplayEvent>, c: Seq<ReplayEvent>)
    requires
        grows_by_acquisition(b, a),
        grows_by_acquisition(c, b),
    ensures
        grows_by_acquisition(c, a),
{
    assert forall|m: int| 0 <= m < a.len() implies c[m] == a[m] by {
        assert(c.subrange(0, b.len() as int)[m] == c[m]);
        assert(b.subrange(0, a.len() as int)[m] == b[m]);
    }
    assert(c.subrange(0, a.len() as int) =~= a);
    let tail = c.subrange(a.len() as int, c.len() as int);
    assert forall|i: int| 0 <= i < tail.len() implies #[trigger] tail[i] is Acquired by {
        let j = a.len() + i;
        if j < b.len() {
            assert(c.subrange(0, b.len() as int)[j] == c[j]);
            assert(b.subrange(a.len() as int, b.len() as int)[i] == b[j]);
        } else {
            assert(c.subrange(b.len() as int, c.len() as int)[j - b.len()] == c[j]);
        }
    }
}

pub open spec fn held(r: Option<Resource>) -> Multiset<Resource> {
    match r {
        Some(x) => Multiset::singleton(x),
        None => Multiset::empty(),
    }
}

/// The device allocations of a list, as resources.
pub open spec fn device_memory(allocations: Seq<u64>) -> Multiset<Resource>
    decreases allocations.len(),
{
    if allocations.len() == 0 {
        Multiset::empty()
    } else {
        device_memory(allocations.drop_last()).insert(Resource::DeviceMemory(allocations.last()))
    }
}

/// The device allocations of a list, last first: the order they are freed.
pub open spec fn freeing_order(allocations: Seq<u64>) -> Seq<Resource>
    decreases allocations.len(),
{
    if allocations.len() == 0 {
        Seq::empty()
    } else {
        seq![Resource::DeviceMemory(allocations.last())] + freeing_order(allocations.drop_last())
    }
}

pub open spec fn optional(r: Option<Resource>) -> Seq<Resource> {
    match r {
        Some(x) => seq![x],
        None => Seq::empty(),
    }
}

pub open spec fn state_resource(h: Option<u64>) -> Option<Resource> {
    match h {
        Some(x) => Some(Resource::State(x)),
        None => None,
    }
}

pub open spec fn workspace_resource(h: Option<u64>) -> Option<Resource> {
    match h {
        Some(x) => Some(Resource::Workspace(x)),
        None => None,
    }
}

pub open spec fn query_workspace_resource(h: Option<u64>) -> Option<Resource> {
    match h {
        Some(x) => Some(Resource::QueryWorkspace(x)),
        None => None,
    }
}

pub open spec fn operator_resource(h: Option<u64>) -> Option<Resource> {
    match h {
        Some(x) => Some(Resource::NetworkOperator(x)),
        None => None,
    }
}

pub open spec fn expectation_resource(h: Option<u64>) -> Option<Resource> {
    match h {
        Some(x) => Some(Resource::Expectation(x)),
        None => None,
    }
}

/// SVD cutoffs set on a state before it is finalized.
#[derive(Clone, Copy, Debug, PartialEq, Eq, Structural)]
pub enum StateCutoff {
    SvdAbsoluteCutoff,
    SvdRelativeCutoff,
}

/// Discrete state configurations set before a state is finalized.
#[derive(Clone, Copy, Debug, PartialEq, Eq, Structural)]
pub enum StateConfiguration {
    SvdAlgorithmGesvd,
    MpsGaugeSimple,
}

/// How much of a materialized state is copied back to the host.
#[derive(Clone, Copy, Debug, PartialEq, Eq, Structural)]
pub enum StateReadout {
    MetadataOnly,
    FullAmplitudes,
}

/// The outcome a projective branch keeps.
#[derive(Clone, Copy, Debug, PartialEq, Eq, Structural)]
pub enum SelectedBranch {
    Zero,
    One,
}

/// Extents and strides the library reports for each site of a computed
/// state, in buffers shaped like the requested chain.
#[derive(Debug)]
pub struct OutputMetadata {
    pub extents: Vec<Vec<i64>>,
    pub strides: Vec<Vec<i64>>,
}

/// The native library as a replay uses it, with handles as addresses.
///
/// Besides the native calls it supplies the host-side numerics a replay
/// needs (operator matrices, expectation normalization, branch masses and
/// the dense readout), which work on floating-point values this library
/// does not model: their results pass through a replay unexamined.
pub trait ReplayApi {
    /// A complex entry of a host tensor.
    type Element;
    /// The raw value and squared norm one expectation computation returns.
    type Expectation;
    /// A normalized Query result.
    type QueryValue;
    /// The dense amplitudes read back from a state.
    type Amplitudes;
    /// The outcome masses of a projective measurement.
    type Masses;
    /// A branch probability or its logarithm.
    type Probability;

    fn memory_info(&self) -> Result<(usize, usize), SimulationError>;

    fn allocate(&self, bytes: usize) -> Result<u64, SimulationError>;

    fn free(&self, allocation: u64) -> Result<(), SimulationError>;

    fn copy_to_device(&self, destination: u64, source: &Vec<Self::Element>) -> Result<
        (),
        SimulationError,
    >;

    fn copy_from_device(&self, source: u64, elements: usize) -> Result<
        Vec<Self::Element>,
        SimulationError,
    >;

    fn create_state(&self, handle: u64, mode_extents: &Vec<i64>) -> Result<u64, SimulationError>;

    fn destroy_state(&self, state: u64) -> Result<(), SimulationError>;

    fn apply_tensor_operator(
        &self,
        handle: u64,
        state: u64,
        modes: &Vec<i32>,
        tensor: u64,
        unitary: bool,
    ) -> Result<(), SimulationError>;

    fn finalize_mps(&self, handle: u64, state: u64, target: &MpsTarget) -> Result<
        (),
        SimulationError,
    >;

    fn capture_mps(&self, handle: u64, state: u64) -> Result<(), SimulationError>;

    /// Sets an SVD cutoff, given as the bit pattern of the binary64 value.
    fn configure_state_cutoff(
        &self,
        handle: u64,
        state: u64,
        attribute: StateCutoff,
        value_bits: u64,
    ) -> Result<(), SimulationError>;

    fn configure_state(
        &self,
        handle: u64,
        state: u64,
        configuration: StateConfiguration,
    ) -> Result<(), SimulationError>;

    fn create_workspace(&self, handle: u64) -> Result<u64, SimulationError>;

    fn destroy_workspace(&self, workspace: u64) -> Result<(), SimulationError>;

    fn prepare_state(
        &self,
        handle: u64,
        state: u64,
        maximum_workspace_bytes: u64,
        workspace: u64,
        stream: u64,
    ) -> Result<(), SimulationError>;

    fn workspace_size(&self, handle: u64, workspace: u64) -> Result<i64, SimulationError>;

    fn set_workspace(&self, handle: u64, workspace: u64, allocation: u64, bytes: i64) -> Result<
        (),
        SimulationError,
    >;

    fn compute_state(
        &self,
        handle: u64,
        state: u64,
        workspace: u64,
        metadata: &mut OutputMetadata,
        outputs: &Vec<u64>,
        stream: u64,
    ) -> Result<(), SimulationError>;

    fn synchronize_stream(&self, stream: u64) -> Result<(), SimulationError>;

    fn create_network_operator(&self, handle: u64, mode_extents: &Vec<i64>) -> Result<
        u64,
        SimulationError,
    >;

    fn destroy_network_operator(&self, operator: u64) -> Result<(), SimulationError>;

    /// Appends a product of one-site factors with unit coefficient.
    fn append_product(
        &self,
        handle: u64,
        operator: u64,
        factor_modes: &Vec<Vec<i32>>,
        factor_tensors: &Vec<u64>,
    ) -> Result<(), SimulationError>;

    fn create_expectation(&self, handle: u64, state: u64, operator: u64) -> Result<
        u64,
        SimulationError,
    >;

    fn destroy_expectation(&self, expectation: u64) -> Result<(), SimulationError>;

    fn configure_expectation_hyper_samples(
        &self,
        handle: u64,
        expectation: u64,
        hyper_samples: i32,
    ) -> Result<(), SimulationError>;

    fn prepare_expectation(
        &self,
        handle: u64,
        expectation: u64,
        maximum_workspace_bytes: u64,
        workspace: u64,
        stream: u64,
    ) -> Result<(), SimulationError>;

    fn compute_expectation(&self, handle: u64, expectation: u64, workspace: u64, stream: u64) -> Result<
        Self::Expectation,
        SimulationError,
    >;

    /// The matrix of a gate's operator, row-major.
    fn gate_matrix(&self, gate: crate::circuit::Gate) -> Vec<Self::Element>;

    /// The Pauli Z matrix.
    fn pauli_z_matrix(&self) -> Vec<Self::Element>;

    /// The projector onto one computational outcome.
    fn outcome_projector(&self, outcome: SelectedBranch) -> Vec<Self::Element>;

    /// The projector onto the selected outcome scaled to renormalize the
    /// state; fails unless the selected mass is finite and positive.
    fn normalized_projector(&self, masses: &Self::Masses, selected: SelectedBranch) -> Result<
        Vec<Self::Element>,
        SimulationError,
    >;

    /// Divides a raw expectation by its squared norm, rejecting unusable
    /// outputs.
    fn normalize_expectation(&self, value: Self::Expectation) -> Result<
        Self::QueryValue,
        SimulationError,
    >;

    /// The two outcome masses of a qubit from its projector expectations.
    fn branch_masses(&self, zero: Self::Expectation, one: Self::Expectation) -> Result<
        Self::Masses,
        SimulationError,
    >;

    /// Whether the selected outcome has positive mass.
    fn selected_mass_is_positive(&self, masses: &Self::Masses, selected: SelectedBranch) -> bool;

    fn probability(&self, masses: &Self::Masses, selected: SelectedBranch) -> Result<
        Self::Probability,
        SimulationError,
    >;

    fn log_probability(&self, masses: &Self::Masses, selected: SelectedBranch) -> Result<
        Self::Probability,
        SimulationError,
    >;

    /// Contracts a validated open chain into dense little-endian amplitudes.
    fn contract_chain(
        &self,
        realized: &Vec<Vec<usize>>,
        outputs: Vec<Vec<Self::Element>>,
        strides: &Vec<Vec<usize>>,
    ) -> Result<Self::Amplitudes, SimulationError>;
}

/// One replay of a circuit on a native session.
pub struct Replay<'a, A: ReplayApi> {
    api: &'a A,
    handle: u64,
    stream: u64,
    state: Option<u64>,
    workspace: Option<u64>,
    query_workspace: Option<u64>,
    network_operator: Option<u64>,
    expectation: Option<u64>,
    allocations: Vec<u64>,
    qubit_count: usize,
    operator_modes: Vec<Vec<i32>>,
    target: MpsTarget,
    policy: ExecutionPolicy,
    closed: bool,
    history: Ghost<Seq<ReplayEvent>>,
    calls: Ghost<Seq<NativeCall>>,
    mass_checks: Ghost<Seq<bool>>,
    state_extents: Ghost<Seq<i64>>,
}

impl<'a, A: ReplayApi> Replay<'a, A> {
    /// The resource history of this replay.
    pub closed spec fn history(&self) -> Seq<ReplayEvent> {
        self.history@
    }

    /// The native calls this replay has made that its contracts speak of.
    pub closed spec fn call_log(&self) -> Seq<NativeCall> {
        self.calls@
    }

    /// The mode extents the state was created with.
    pub closed spec fn created_state_extents(&self) -> Seq<i64> {
        self.state_extents@
    }

    /// The modes of every operator applied to the state so far, in order.
    pub closed spec fn applied_modes(&self) -> Seq<Seq<i32>> {
        self.operator_modes@.map_values(|modes: Vec<i32>| modes@)
    }

    /// Whether the call log of `self` continues that of `other`.
    pub open spec fn extends_calls(&self, other: &Self) -> bool {
        other.call_log().len() <= self.call_log().len() && self.call_log().subrange(
            0,
            other.call_log().len() as int,
        ) =~= other.call_log()
    }

    /// The calls made since `other`.
    pub open spec fn calls_since(&self, other: &Self) -> Seq<NativeCall> {
        self.call_log().subrange(other.call_log().len() as int, self.call_log().len() as int)
    }

    /// Whether the replay has been closed.
    pub closed spec fn is_closed(&self) -> bool {
        self.closed
    }

    /// The resources the replay owns.
    pub closed spec fn owned(&self) -> Multiset<Resource> {
        held(state_resource(self.state)).add(held(workspace_resource(self.workspace))).add(
            self.query_owned(),
        ).add(device_memory(self.allocations@))
    }

    /// The resources of the Query lifecycle the replay owns.
    pub closed spec fn query_owned(&self) -> Multiset<Resource> {
        held(query_workspace_resource(self.query_workspace)).add(
            held(expectation_resource(self.expectation)),
        ).add(held(operator_resource(self.network_operator)))
    }

    /// The order in which closing the Query lifecycle releases its
    /// resources: workspace, then expectation, then operator.
    pub closed spec fn query_release_order(&self) -> Seq<Resource> {
        optional(query_workspace_resource(self.query_workspace)) + optional(
            expectation_resource(self.expectation),
        ) + optional(operator_resource(self.network_operator))
    }

    /// The order in which closing the replay releases what it owns: the
    /// Query lifecycle, the state workspace, the state, then device memory
    /// from the most recent allocation back.
    pub closed spec fn release_order(&self) -> Seq<Resource> {
        self.query_release_order() + optional(workspace_resource(self.workspace)) + optional(
            state_resource(self.state),
        ) + freeing_order(self.allocations@)
    }

    /// The qubit count of the simulated circuit.
    pub closed spec fn width(&self) -> nat {
        self.qubit_count as nat
    }

    /// The chain the replay asks the library for, site by site.
    pub closed spec fn requested_sites(&self) -> Seq<Seq<i64>> {
        self.target.sites()
    }

    /// The validated policy the replay runs under.
    pub closed spec fn execution_policy(&self) -> ExecutionPolicy {
        self.policy
    }

    /// Whether the replay owns a Query lifecycle.
    pub closed spec fn owns_query(&self) -> bool {
        self.query_workspace is Some || self.expectation is Some || self.network_operator is Some
    }

    /// The replay's bookkeeping is consistent: its history leaves live
    /// exactly what it owns, and a replay owns its state until it is closed.
    pub closed spec fn wf(&self) -> bool {
        &&& live(self.history@) =~= self.owned()
        &&& !self.closed ==> self.state is Some
        &&& self.closed ==> self.state is None && self.workspace is None && !self.owns_query()
            && self.allocations@.len() == 0
        &&& self.qubit_count >= 2
        &&& self.target.sites().len() == self.qubit_count
        &&& self.target.elements().len() == self.qubit_count
        &&& policy_rejection(self.policy) is None
    }

    /// An open replay with its state and state workspace, ready to run.
    pub open spec fn ready(&self) -> bool {
        &&& self.wf()
        &&& !self.is_closed()
        &&& self.has_workspace()
    }

    /// Whether the replay owns its state workspace.
    pub closed spec fn has_workspace(&self) -> bool {
        self.workspace is Some
    }

    /// Everything but the owned resources and the history is unchanged.
    pub closed spec fn same_session(&self, other: &Self) -> bool {
        &&& self.same_session_checks_aside(other)
        &&& self.mass_checks == other.mass_checks
    }

    /// The session is unchanged, whatever branch mass checks were made.
    pub closed spec fn same_session_checks_aside(&self, other: &Self) -> bool {
        &&& self.api == other.api
        &&& self.handle == other.handle
        &&& self.stream == other.stream
        &&& self.qubit_count == other.qubit_count
        &&& self.target == other.target
        &&& self.policy == other.policy
        &&& self.closed == other.closed
    }

    /// The answers of the branch mass checks made so far, in order.
    pub closed spec fn mass_check_log(&self) -> Seq<bool> {
        self.mass_checks@
    }

    /// Replays on the same session have the same width and policy.
    pub proof fn lemma_same_session(&self, other: &Self)
        requires
            self.same_session(other),
        ensures
            self.width() == other.width(),
            self.execution_policy() == other.execution_policy(),
    {
    }

    /// The history of `self` continues the history of `other`.
    pub open spec fn continues(&self, other: &Self) -> bool {
        other.history().len() <= self.history().len() && self.history().subrange(
            0,
            other.history().len() as int,
        ) == other.history()
    }

    /// The steps recorded since `other`.
    pub open spec fn steps_since(&self, other: &Self) -> Seq<ReplayEvent> {
        self.history().subrange(other.history().len() as int, self.history().len() as int)
    }
}

pub(crate) proof fn lemma_live_acquired(history: Seq<ReplayEvent>, r: Resource)
    ensures
        live(history.push(ReplayEvent::Acquired(r))) == live(history).insert(r),
{
    assert(history.push(ReplayEvent::Acquired(r)).drop_last() =~= history);
}

pub(crate) proof fn lemma_live_released(history: Seq<ReplayEvent>, r: Resource, failure: Option<SimulationError>)
    ensures
        live(history.push(ReplayEvent::Released(r, failure))) == live(history).remove(r),
{
    assert(history.push(ReplayEvent::Released(r, failure)).drop_last() =~= history);
}

pub(crate) proof fn lemma_live_synchronized(history: Seq<ReplayEvent>, failure: Option<SimulationError>)
    ensures
        live(history.push(ReplayEvent::Synchronized(failure))) == live(history),
{
    assert(history.push(ReplayEvent::Synchronized(failure)).drop_last() =~= history);
}

pub(crate) proof fn lemma_steps_push(history: Seq<ReplayEvent>, start: int, e: ReplayEvent)
    requires
        0 <= start <= history.len(),
    ensures
        history.push(e).subrange(start, history.len() as int + 1) == history.subrange(
            start,
            history.len() as int,
        ).push(e),
        history.push(e).subrange(0, start) == history.subrange(0, start),
{
    assert(history.push(e).subrange(start, history.len() as int + 1) =~= history.subrange(
        start,
        history.len() as int,
    ).push(e));
    assert(history.push(e).subrange(0, start) =~= history.subrange(0, start));
}

proof fn lemma_only_releases_push(history: Seq<ReplayEvent>, start: int, e: ReplayEvent)
    requires
        0 <= start <= history.len(),
        only_releases(history.subrange(start, history.len() as int)),
        e is Released,
    ensures
        only_releases(history.push(e).subrange(start, history.len() as int + 1)),
{
    let tail = history.subrange(start, history.len() as int);
    assert(history.push(e).subrange(start, history.len() as int + 1) =~= tail.push(e));
    assert forall|i: int| 0 <= i < tail.push(e).len() implies #[trigger] tail.push(e)[i] is Released by {
        if i < tail.len() {
            assert(tail.push(e)[i] == tail[i]);
        }
    }
}

pub(crate) proof fn lemma_run_push(steps: Seq<ReplayEvent>, e: ReplayEvent)
    ensures
        first_failure(steps.push(e)) == (match first_failure(steps) {
            Some(f) => Some(f),
            None => step_failure(e),
        }),
        released(steps.push(e)) == (match e {
            ReplayEvent::Released(r, _) => released(steps).push(r),
            _ => released(steps),
        }),
{
    assert(steps.push(e).drop_last() =~= steps);
}

/// The failure a call reported, if any.
pub open spec fn failure_of<T>(outcome: Result<T, SimulationError>) -> Option<SimulationError> {
    match outcome {
        Ok(_) => None,
        Err(e) => Some(e),
    }
}

proof fn lemma_run_concat(a: Seq<ReplayEvent>, b: Seq<ReplayEvent>)
    ensures
        first_failure(a + b) == (match first_failure(a) {
            Some(f) => Some(f),
            None => first_failure(b),
        }),
        released(a + b) == released(a) + released(b),
        only_releases(a) && only_releases(b) ==> only_releases(a + b),
    decreases b.len(),
{
    if b.len() == 0 {
        assert(a + b =~= a);
        assert(released(a) + released(b) =~= released(a));
    } else {
        lemma_run_concat(a, b.drop_last());
        assert((a + b).drop_last() =~= a + b.drop_last());
        assert((a + b).last() == b.last());
        assert(released(a) + released(b.drop_last()).push(b.last()->Released_0) =~= (released(a)
            + released(b.drop_last())).push(b.last()->Released_0));
        if only_releases(a) && only_releases(b) {
            assert forall|i: int| 0 <= i < (a + b).len() implies #[trigger] (a + b)[i] is Released by {
                if i < a.len() {
                    assert((a + b)[i] == a[i]);
                } else {
                    assert((a + b)[i] == b[i - a.len()]);
                }
            }
        }
    }
}

impl<'a, A: ReplayApi> Replay<'a, A> {
    /// Everything but the resources and the history is unchanged.
    closed spec fn same_setup(&self, other: &Self) -> bool {
        &&& self.same_session(other)
        &&& self.operator_modes == other.operator_modes
        &&& self.calls == other.calls
    }

    /// The session, circuit shape and policy are unchanged.
    closed spec fn same_configuration(&self, other: &Self) -> bool {
        &&& self.api == other.api
        &&& self.handle == other.handle
        &&& self.stream == other.stream
        &&& self.qubit_count == other.qubit_count
        &&& self.target == other.target
        &&& self.policy == other.policy
        &&& self.operator_modes == other.operator_modes
    }

    /// Records one step of the history.
    fn record(&mut self, event: Ghost<ReplayEvent>)
        ensures
            final(self).state_extents == old(self).state_extents,
            final(self).mass_checks == old(self).mass_checks,
            final(self).history@ == old(self).history@.push(event@),
            final(self).api == old(self).api,
            final(self).handle == old(self).handle,
            final(self).stream == old(self).stream,
            final(self).state == old(self).state,
            final(self).workspace == old(self).workspace,
            final(self).query_workspace == old(self).query_workspace,
            final(self).network_operator == old(self).network_operator,
            final(self).expectation == old(self).expectation,
            final(self).allocations == old(self).allocations,
            final(self).qubit_count == old(self).qubit_count,
            final(self).operator_modes == old(self).operator_modes,
            final(self).target == old(self).target,
            final(self).policy == old(self).policy,
            final(self).closed == old(self).closed,
            final(self).calls == old(self).calls,
    {
        self.history = Ghost(self.history@.push(event@));
    }

    /// Everything but the call log is unchanged.
    closed spec fn only_logged(&self, other: &Self) -> bool {
        &&& self.mass_checks == other.mass_checks
        &&& self.history == other.history
        &&& self.api == other.api
        &&& self.handle == other.handle
        &&& self.stream == other.stream
        &&& self.state == other.state
        &&& self.workspace == other.workspace
        &&& self.query_workspace == other.query_workspace
        &&& self.network_operator == other.network_operator
        &&& self.expectation == other.expectation
        &&& self.allocations == other.allocations
        &&& self.qubit_count == other.qubit_count
        &&& self.operator_modes == other.operator_modes
        &&& self.target == other.target
        &&& self.policy == other.policy
        &&& self.closed == other.closed
    }

    /// Logs one native call, built from the arguments the caller hands on.
    fn log(&mut self, call: Ghost<NativeCall>)
        ensures
            final(self).calls@ == old(self).calls@.push(call@),
            final(self).only_logged(old(self)),
    {
        self.calls = Ghost(self.calls@.push(call@));
    }

    /// Asks the library for free and total device memory; a successful
    /// answer is logged.
    fn native_memory_info(&mut self) -> (r: Result<(usize, usize), SimulationError>)
        ensures
            final(self).only_logged(old(self)),
            r matches Ok((free, total)) ==> final(self).calls@ == old(self).calls@.push(
                NativeCall::MemoryObserved { free, total },
            ),
            r is Err ==> final(self).calls == old(self).calls,
    {
        let answer = self.api.memory_info();
        if let Ok((free, total)) = answer {
            self.log(Ghost(NativeCall::MemoryObserved { free, total }));
        }
        answer
    }

    /// Prepares the state under `maximum_bytes` of workspace.
    fn native_prepare_state(&mut self, maximum_bytes: u64) -> (r: Result<(), SimulationError>)
        requires
            old(self).state is Some,
            old(self).workspace is Some,
        ensures
            final(self).only_logged(old(self)),
            final(self).calls@ == old(self).calls@.push(NativeCall::StatePrepared { maximum_bytes }),
    {
        self.log(Ghost(NativeCall::StatePrepared { maximum_bytes }));
        self.api.prepare_state(self.handle, self.state.unwrap(), maximum_bytes, self.workspace.unwrap(), self.stream)
    }

    /// Asks for the workspace size the library recommends; a successful
    /// answer is logged.
    fn native_workspace_size(&mut self, workspace: u64) -> (r: Result<i64, SimulationError>)
        ensures
            final(self).only_logged(old(self)),
            r matches Ok(bytes) ==> final(self).calls@ == old(self).calls@.push(NativeCall::WorkspaceSized { bytes }),
            r is Err ==> final(self).calls == old(self).calls,
    {
        let answer = self.api.workspace_size(self.handle, workspace);
        if let Ok(bytes) = answer {
            self.log(Ghost(NativeCall::WorkspaceSized { bytes }));
        }
        answer
    }

    /// Attaches `bytes` of scratch at `scratch` to the state workspace.
    fn native_set_workspace(&mut self, workspace: u64, scratch: u64, bytes: i64) -> (r: Result<(), SimulationError>)
        ensures
            final(self).only_logged(old(self)),
            final(self).calls@ == old(self).calls@.push(NativeCall::WorkspaceAttached { bytes }),
    {
        self.log(Ghost(NativeCall::WorkspaceAttached { bytes }));
        self.api.set_workspace(self.handle, workspace, scratch, bytes)
    }

    /// Computes the state into `outputs`, one buffer per site.
    fn native_compute_state(&mut self, metadata: &mut OutputMetadata, outputs: &Vec<u64>) -> (r: Result<
        (),
        SimulationError,
    >)
        requires
            old(self).state is Some,
            old(self).workspace is Some,
        ensures
            final(self).only_logged(old(self)),
            final(self).calls@ == old(self).calls@.push(NativeCall::StateComputed { outputs: outputs@.len() as usize }),
    {
        self.log(Ghost(NativeCall::StateComputed { outputs: outputs.len() }));
        self.api.compute_state(self.handle, self.state.unwrap(), self.workspace.unwrap(), metadata, outputs, self.stream)
    }

    /// Waits for the replay's stream.
    fn native_synchronize(&mut self) -> (r: Result<(), SimulationError>)
        ensures
            final(self).only_logged(old(self)),
            final(self).calls@ == old(self).calls@.push(NativeCall::Synchronized { failed: r is Err }),
    {
        let waited = self.api.synchronize_stream(self.stream);
        self.log(Ghost(NativeCall::Synchronized { failed: waited.is_err() }));
        waited
    }

    /// Copies the output buffer of `site` back to the host.
    fn native_copy_site(&mut self, outputs: &Vec<u64>, site: usize, elements: usize) -> (r: Result<
        Vec<A::Element>,
        SimulationError,
    >)
        requires
            site < outputs@.len(),
        ensures
            final(self).only_logged(old(self)),
            final(self).calls@ == old(self).calls@.push(NativeCall::SiteCopied { site }),
    {
        self.log(Ghost(NativeCall::SiteCopied { site }));
        self.api.copy_from_device(outputs[site], elements)
    }

    /// Appends a product of one-site factors on the given modes to an
    /// operator.
    fn native_append_product(&mut self, operator: u64, factor_modes: &Vec<Vec<i32>>, factor_tensors: &Vec<u64>) -> (r:
        Result<(), SimulationError>)
        requires
            1 <= factor_modes@.len() <= 2,
            forall|f: int| 0 <= f < factor_modes@.len() ==> (#[trigger] factor_modes@[f])@.len() == 1,
        ensures
            final(self).only_logged(old(self)),
            final(self).calls@ == old(self).calls@.push(
                NativeCall::ProductAppended {
                    first: factor_modes@[0]@[0],
                    second: if factor_modes@.len() == 2 { Some(factor_modes@[1]@[0]) } else { None },
                },
            ),
    {
        let first = factor_modes[0][0];
        let second = if factor_modes.len() == 2 { Some(factor_modes[1][0]) } else { None };
        self.log(Ghost(NativeCall::ProductAppended { first, second }));
        self.api.append_product(self.handle, operator, factor_modes, factor_tensors)
    }

    /// Configures an expectation's hyper-samples.
    fn native_configure_hyper_samples(&mut self, expectation: u64, samples: i32) -> (r: Result<(), SimulationError>)
        ensures
            final(self).only_logged(old(self)),
            final(self).calls@ == old(self).calls@.push(NativeCall::HyperSamplesConfigured { samples }),
    {
        self.log(Ghost(NativeCall::HyperSamplesConfigured { samples }));
        self.api.configure_expectation_hyper_samples(self.handle, expectation, samples)
    }

    /// Computes an expectation on the replay's stream.
    fn native_compute_expectation(&mut self, expectation: u64, workspace: u64) -> (r: Result<
        A::Expectation,
        SimulationError,
    >)
        ensures
            final(self).only_logged(old(self)),
            final(self).calls@ == old(self).calls@.push(NativeCall::ExpectationComputed),
    {
        self.log(Ghost(NativeCall::ExpectationComputed));
        self.api.compute_expectation(self.handle, expectation, workspace, self.stream)
    }

    /// The projector onto `outcome`, as the library builds it.
    fn native_outcome_projector(&mut self, outcome: SelectedBranch) -> (matrix: Vec<A::Element>)
        ensures
            final(self).only_logged(old(self)),
            final(self).calls@ == old(self).calls@.push(
                NativeCall::ProjectorUploaded { selected: outcome, normalized: false },
            ),
    {
        self.log(Ghost(NativeCall::ProjectorUploaded { selected: outcome, normalized: false }));
        self.api.outcome_projector(outcome)
    }

    /// The projector onto `selected` scaled by the masses, as the library
    /// builds it.
    fn native_normalized_projector(&mut self, masses: &A::Masses, selected: SelectedBranch) -> (r: Result<
        Vec<A::Element>,
        SimulationError,
    >)
        ensures
            final(self).only_logged(old(self)),
            final(self).calls@ == old(self).calls@.push(NativeCall::ProjectorUploaded { selected, normalized: true }),
    {
        self.log(Ghost(NativeCall::ProjectorUploaded { selected, normalized: true }));
        self.api.normalized_projector(masses, selected)
    }

    /// Applies a one-mode projector tensor to the state.
    fn native_apply_projection(&mut self, modes: &Vec<i32>, tensor: u64) -> (r: Result<(), SimulationError>)
        requires
            old(self).state is Some,
            modes@.len() == 1,
        ensures
            final(self).only_logged(old(self)),
            final(self).calls@ == old(self).calls@.push(NativeCall::ProjectionApplied { mode: modes@[0] }),
    {
        self.log(Ghost(NativeCall::ProjectionApplied { mode: modes[0] }));
        self.api.apply_tensor_operator(self.handle, self.state.unwrap(), modes, tensor, false)
    }

    /// Creates and prepares a sampler over `modes` on the current state.
    fn native_create_sampler(&mut self, context: SamplerContext, modes: &Vec<i32>, request: &SamplingRequest) -> (r:
        Result<PreparedSampler<'a, A>, SimulationError>)
        where A: SamplerApi,
        ensures
            final(self).only_logged(old(self)),
            r matches Ok(sampler) ==> sampler.is_live() && sampler.modes() == modes@.len()
                && final(self).calls@ == old(self).calls@.push(NativeCall::SamplerCreated { modes: modes@.len() as usize }),
            r is Err ==> final(self).calls == old(self).calls,
    {
        let created = PreparedSampler::new(self.api, context, modes, request);
        if created.is_ok() {
            self.log(Ghost(NativeCall::SamplerCreated { modes: modes.len() }));
        }
        created
    }

    /// Destroys a sampler.
    fn native_close_sampler(&mut self, sampler: &mut PreparedSampler<'a, A>) -> (r: Result<(), SimulationError>)
        where A: SamplerApi,
        ensures
            final(self).only_logged(old(self)),
            final(self).calls@ == old(self).calls@.push(NativeCall::SamplerDestroyed),
            !final(sampler).is_live(),
    {
        self.log(Ghost(NativeCall::SamplerDestroyed));
        sampler.close()
    }

    /// Asks whether the selected outcome has mass.
    fn native_mass_check(&mut self, masses: &A::Masses, selected: SelectedBranch) -> (positive: bool)
        ensures
            final(self).only_logged(old(self)),
            final(self).calls@ == old(self).calls@.push(NativeCall::MassChecked { positive }),
    {
        let positive = self.api.selected_mass_is_positive(masses, selected);
        self.log(Ghost(NativeCall::MassChecked { positive }));
        positive
    }

    /// Destroys the Query lifecycle, workspace first, then expectation, then
    /// operator, attempting every release and reporting the first failure.
    fn close_query_lifecycle(&mut self) -> (r: Result<(), SimulationError>)
        requires
            live(old(self).history@) =~= old(self).owned(),
        ensures
            live(final(self).history@) =~= final(self).owned(),
            !final(self).owns_query(),
            final(self).same_setup(old(self)),
            final(self).state == old(self).state,
            final(self).workspace == old(self).workspace,
            final(self).allocations == old(self).allocations,
            old(self).history@.len() <= final(self).history@.len(),
            final(self).history@.subrange(0, old(self).history@.len() as int) == old(self).history@,
            only_releases(final(self).steps_since(old(self))),
            released(final(self).steps_since(old(self))) == old(self).query_release_order(),
            r == cleanup_outcome(final(self).steps_since(old(self))),
    {
        let ghost start = self.history@;
        let mut first_error: Option<SimulationError> = None;
        assert(start.subrange(start.len() as int, start.len() as int) =~= Seq::<ReplayEvent>::empty());
        assert(start.subrange(0, start.len() as int) =~= start);
        if let Some(workspace) = self.query_workspace.take() {
            let outcome = self.api.destroy_workspace(workspace);
            let ghost before = self.history@;
            self.record(Ghost(ReplayEvent::Released(Resource::QueryWorkspace(workspace), failure_of(outcome))));
            proof {
                lemma_live_released(before, Resource::QueryWorkspace(workspace), failure_of(outcome));
                lemma_steps_push(before, start.len() as int, ReplayEvent::Released(Resource::QueryWorkspace(workspace), failure_of(outcome)));
                lemma_run_push(before.subrange(start.len() as int, before.len() as int), ReplayEvent::Released(Resource::QueryWorkspace(workspace), failure_of(outcome)));
            }
            if let Err(error) = outcome {
                first_error = Some(error);
            }
        }
        assert(released(self.history@.subrange(start.len() as int, self.history@.len() as int))
            =~= optional(query_workspace_resource(old(self).query_workspace)));
        if let Some(expectation) = self.expectation.take() {
            let outcome = self.api.destroy_expectation(expectation);
            let ghost before = self.history@;
            self.record(Ghost(ReplayEvent::Released(Resource::Expectation(expectation), failure_of(outcome))));
            proof {
                lemma_live_released(before, Resource::Expectation(expectation), failure_of(outcome));
                lemma_steps_push(before, start.len() as int, ReplayEvent::Released(Resource::Expectation(expectation), failure_of(outcome)));
                lemma_run_push(before.subrange(start.len() as int, before.len() as int), ReplayEvent::Released(Resource::Expectation(expectation), failure_of(outcome)));
            }
            if let Err(error) = outcome {
                if first_error.is_none() {
                    first_error = Some(error);
                }
            }
        }
        assert(released(self.history@.subrange(start.len() as int, self.history@.len() as int))
            =~= optional(query_workspace_resource(old(self).query_workspace)) + optional(
            expectation_resource(old(self).expectation)));
        if let Some(operator) = self.network_operator.take() {
            let outcome = self.api.destroy_network_operator(operator);
            let ghost before = self.history@;
            self.record(Ghost(ReplayEvent::Released(Resource::NetworkOperator(operator), failure_of(outcome))));
            proof {
                lemma_live_released(before, Resource::NetworkOperator(operator), failure_of(outcome));
                lemma_steps_push(before, start.len() as int, ReplayEvent::Released(Resource::NetworkOperator(operator), failure_of(outcome)));
                lemma_run_push(before.subrange(start.len() as int, before.len() as int), ReplayEvent::Released(Resource::NetworkOperator(operator), failure_of(outcome)));
            }
            if let Err(error) = outcome {
                if first_error.is_none() {
                    first_error = Some(error);
                }
            }
        }
        assert(released(self.history@.subrange(start.len() as int, self.history@.len() as int))
            =~= old(self).query_release_order());
        match first_error {
            Some(error) => Err(error),
            None => Ok(()),
        }
    }
}

impl<'a, A: ReplayApi> Replay<'a, A> {
    /// Releases everything the replay owns: it waits for the stream, closes
    /// the Query lifecycle, destroys the workspace and then the state, and
    /// frees device memory from the most recent allocation back. Every
    /// release is attempted; the first failure is reported. Closing a closed
    /// replay does nothing.
    pub fn close(&mut self) -> (r: Result<(), SimulationError>)
        requires
            old(self).wf(),
        ensures
            final(self).wf(),
            final(self).is_closed(),
            final(self).owned() =~= Multiset::empty(),
            live(final(self).history()) =~= Multiset::empty(),
            final(self).width() == old(self).width(),
            final(self).execution_policy() == old(self).execution_policy(),
            old(self).is_closed() ==> final(self).history() == old(self).history() && r is Ok,
            !old(self).is_closed() ==> ({
                let steps = final(self).steps_since(old(self));
                &&& final(self).continues(old(self))
                &&& steps.len() >= 1
                &&& steps[0] is Synchronized
                &&& only_releases(steps.drop_first())
                &&& released(steps) == old(self).release_order()
                &&& r == cleanup_outcome(steps)
            }),
    {
        if self.closed {
            return Ok(());
        }
        self.closed = true;
        let ghost start = self.history@;
        let ghost before_sync = self.history@;
        let synchronized = self.api.synchronize_stream(self.stream);
        self.record(Ghost(ReplayEvent::Synchronized(failure_of(synchronized))));
        let mut first_error: Option<SimulationError> = None;
        if let Err(error) = synchronized {
            first_error = Some(error);
        }
        proof {
            lemma_live_synchronized(before_sync, failure_of(synchronized));
            assert(self.history@.subrange(start.len() as int, self.history@.len() as int)
                =~= seq![ReplayEvent::Synchronized(failure_of(synchronized))]);
            let one = seq![ReplayEvent::Synchronized(failure_of(synchronized))];
            assert(one =~= Seq::<ReplayEvent>::empty().push(ReplayEvent::Synchronized(failure_of(synchronized))));
            lemma_run_push(Seq::<ReplayEvent>::empty(), ReplayEvent::Synchronized(failure_of(synchronized)));
            assert(first_failure(Seq::<ReplayEvent>::empty()) is None);
            assert(released(Seq::<ReplayEvent>::empty()) =~= Seq::<Resource>::empty());
        }
        let ghost after_sync = self.history@;
        let query = self.close_query_lifecycle();
        if let Err(error) = query {
            if first_error.is_none() {
                first_error = Some(error);
            }
        }
        proof {
            let a = after_sync.subrange(start.len() as int, after_sync.len() as int);
            let b = self.history@.subrange(after_sync.len() as int, self.history@.len() as int);
            assert(self.history@.subrange(start.len() as int, self.history@.len() as int) =~= a + b);
            lemma_run_concat(a, b);
            assert(self.history@.subrange(start.len() as int + 1, self.history@.len() as int) =~= b);
        }
        let ghost done_query = self.history@;
        if let Some(workspace) = self.workspace.take() {
            let outcome = self.api.destroy_workspace(workspace);
            let ghost before = self.history@;
            self.record(Ghost(ReplayEvent::Released(Resource::Workspace(workspace), failure_of(outcome))));
            proof {
                lemma_live_released(before, Resource::Workspace(workspace), failure_of(outcome));
                lemma_steps_push(before, start.len() as int, ReplayEvent::Released(Resource::Workspace(workspace), failure_of(outcome)));
                lemma_run_push(before.subrange(start.len() as int, before.len() as int), ReplayEvent::Released(Resource::Workspace(workspace), failure_of(outcome)));
                lemma_only_releases_push(before, start.len() as int + 1, ReplayEvent::Released(Resource::Workspace(workspace), failure_of(outcome)));
            }
            if let Err(error) = outcome {
                if first_error.is_none() {
                    first_error = Some(error);
                }
            }
        }
        if let Some(state) = self.state.take() {
            let outcome = self.api.destroy_state(state);
            let ghost before = self.history@;
            self.record(Ghost(ReplayEvent::Released(Resource::State(state), failure_of(outcome))));
            proof {
                lemma_live_released(before, Resource::State(state), failure_of(outcome));
                lemma_steps_push(before, start.len() as int, ReplayEvent::Released(Resource::State(state), failure_of(outcome)));
                lemma_run_push(before.subrange(start.len() as int, before.len() as int), ReplayEvent::Released(Resource::State(state), failure_of(outcome)));
                lemma_only_releases_push(before, start.len() as int + 1, ReplayEvent::Released(Resource::State(state), failure_of(outcome)));
            }
            if let Err(error) = outcome {
                if first_error.is_none() {
                    first_error = Some(error);
                }
            }
        }
        let ghost allocations = self.allocations@;
        assert(released(self.history@.subrange(start.len() as int, self.history@.len() as int))
            + freeing_order(self.allocations@) =~= old(self).release_order());
        while self.allocations.len() > 0
            invariant
                live(self.history@) =~= self.owned(),
                self.state is None,
                self.workspace is None,
                !self.owns_query(),
                self.closed,
                self.same_configuration(old(self)),
                start.len() < self.history@.len(),
                self.history@.subrange(0, start.len() as int) == start,
                start == old(self).history@,
                self.history@[start.len() as int] is Synchronized,
                only_releases(self.history@.subrange(start.len() as int + 1, self.history@.len() as int)),
                released(self.history@.subrange(start.len() as int, self.history@.len() as int))
                    + freeing_order(self.allocations@) == old(self).release_order(),
                first_error == first_failure(
                    self.history@.subrange(start.len() as int, self.history@.len() as int),
                ),
            decreases self.allocations@.len(),
        {
            let ghost remaining = self.allocations@;
            let allocation = self.allocations.pop().unwrap();
            let outcome = self.api.free(allocation);
            let ghost before = self.history@;
            self.record(Ghost(ReplayEvent::Released(Resource::DeviceMemory(allocation), failure_of(outcome))));
            proof {
                assert(remaining.drop_last() =~= self.allocations@);
                assert(device_memory(remaining) == device_memory(self.allocations@).insert(
                    Resource::DeviceMemory(allocation),
                ));
                lemma_live_released(before, Resource::DeviceMemory(allocation), failure_of(outcome));
                lemma_steps_push(before, start.len() as int, ReplayEvent::Released(Resource::DeviceMemory(allocation), failure_of(outcome)));
                lemma_steps_push(before, start.len() as int + 1, ReplayEvent::Released(Resource::DeviceMemory(allocation), failure_of(outcome)));
                lemma_run_push(before.subrange(start.len() as int, before.len() as int), ReplayEvent::Released(Resource::DeviceMemory(allocation), failure_of(outcome)));
                let tail = before.subrange(start.len() as int + 1, before.len() as int);
                let e = ReplayEvent::Released(Resource::DeviceMemory(allocation), failure_of(outcome));
                assert forall|i: int| 0 <= i < tail.push(e).len() implies #[trigger] tail.push(e)[i] is Released by {
                    if i < tail.len() {
                        assert(tail.push(e)[i] == tail[i]);
                    }
                }
                let done = before.subrange(start.len() as int, before.len() as int);
                assert(released(done).push(Resource::DeviceMemory(allocation)) + freeing_order(
                    self.allocations@,
                ) =~= released(done) + freeing_order(remaining));
            }
            if let Err(error) = outcome {
                if first_error.is_none() {
                    first_error = Some(error);
                }
            }
        }
        proof {
            let steps = self.history@.subrange(start.len() as int, self.history@.len() as int);
            assert(steps.drop_first() =~= self.history@.subrange(start.len() as int + 1, self.history@.len() as int));
            assert(freeing_order(self.allocations@) =~= Seq::<Resource>::empty());
            assert(released(steps) =~= old(self).release_order());
        }
        match first_error {
            Some(error) => Err(error),
            None => Ok(()),
        }
    }
}

/// Device memory a workspace report accounts for.
#[derive(Clone, Copy, Debug, PartialEq, Eq, Structural)]
pub struct WorkspaceReport {
    pub total_bytes: usize,
    pub free_before_bytes: usize,
    pub requested_maximum_bytes: u64,
    pub native_recommended_bytes: usize,
    pub allocated_bytes: usize,
    pub free_after_cleanup_bytes: usize,
}

/// What a materialized state looked like and what it cost.
#[derive(Debug)]
pub struct ExecutionReport {
    pub policy: ExecutionPolicy,
    pub target_extents: Vec<Vec<i64>>,
    pub realized_extents: Vec<Vec<usize>>,
    pub maximum_bond: usize,
    pub workspace: WorkspaceReport,
}

/// A materialized state: its amplitudes when they were read back, and its
/// report.
pub struct StateResult<A: ReplayApi> {
    pub amplitudes: Option<A::Amplitudes>,
    pub report: ExecutionReport,
}

/// A workspace the library recommended and the replay accepted: within the
/// policy ceiling and the memory free before it was sized, and allocated in
/// full.
pub open spec fn accepted_workspace(report: WorkspaceReport, policy: ExecutionPolicy) -> bool {
    &&& report.requested_maximum_bytes == policy.maximum_workspace_bytes
    &&& report.native_recommended_bytes <= policy.maximum_workspace_bytes
    &&& report.native_recommended_bytes <= report.free_before_bytes
    &&& report.allocated_bytes == report.native_recommended_bytes
    &&& report.free_after_cleanup_bytes == 0
}

/// The calls of a successful Query: one product Z(left) Z(right) per term,
/// on the term's modes in order, then the expectation configured with its
/// hyper-samples, computed, and a barrier.
pub open spec fn query_calls(terms: Seq<[u32; 2]>, calls: Seq<NativeCall>) -> bool {
    &&& calls.len() == terms.len() + 3
    &&& forall|t: int| 0 <= t < terms.len() ==> #[trigger] calls[t] == (NativeCall::ProductAppended {
        first: terms[t][0] as i32,
        second: Some(terms[t][1] as i32),
    })
    &&& calls[terms.len() as int] == (NativeCall::HyperSamplesConfigured { samples: EXPECTATION_HYPER_SAMPLES })
    &&& calls[terms.len() + 1int] == NativeCall::ExpectationComputed
    &&& calls[terms.len() + 2int] == (NativeCall::Synchronized { failed: false })
}

/// The calls of a successful projector expectation: the projector onto the
/// outcome uploaded, then as a product on the one mode, the expectation configured with its
/// hyper-samples, computed, and a barrier.
pub open spec fn projector_calls(mode: i32, outcome: SelectedBranch) -> Seq<NativeCall> {
    seq![
        NativeCall::ProjectorUploaded { selected: outcome, normalized: false },
        NativeCall::ProductAppended { first: mode, second: None },
        NativeCall::HyperSamplesConfigured { samples: EXPECTATION_HYPER_SAMPLES },
        NativeCall::ExpectationComputed,
        NativeCall::Synchronized { failed: false },
    ]
}

/// Whether released resources follow the Query lifecycle's order: its
/// workspace, then its expectation, then its operator, each if it was held.
pub open spec fn query_lifecycle_order(released: Seq<Resource>) -> bool {
    exists|workspace: Option<u64>, expectation: Option<u64>, operator: Option<u64>|
        released == optional(query_workspace_resource(workspace)) + optional(expectation_resource(expectation))
            + optional(operator_resource(operator))
}

/// Releases after acquisitions only: the acquisitions release nothing.
pub proof fn lemma_released_after_acquisitions(a: Seq<ReplayEvent>, c: Seq<ReplayEvent>)
    requires
        only_acquires(a),
    ensures
        released(a + c) == released(c),
    decreases a.len() + c.len(),
{
    if c.len() == 0 {
        assert(a + c =~= a);
        if a.len() > 0 {
            assert(only_acquires(a.drop_last())) by {
                assert forall|i: int| 0 <= i < a.drop_last().len() implies #[trigger] a.drop_last()[i] is Acquired by {
                    assert(a.drop_last()[i] == a[i]);
                }
            }
            lemma_released_after_acquisitions(a.drop_last(), c);
            assert(a.drop_last() + c =~= a.drop_last());
            assert(a.last() is Acquired);
        }
    } else {
        assert((a + c).drop_last() =~= a + c.drop_last());
        lemma_released_after_acquisitions(a, c.drop_last());
        assert((a + c).last() == c.last());
    }
}

/// The calls a successful branch makes at position `at`: the two outcome
/// projector expectations on the branch's mode, the mass check that found the
/// selected outcome positive, then the normalized selected projector
/// uploaded and applied on that mode.
pub open spec fn branch_calls_at(calls: Seq<NativeCall>, at: int, request: BranchRequest) -> bool {
    &&& 10 <= at
    &&& at + 3 <= calls.len()
    &&& calls.subrange(at - 10, at) == projector_calls(request.mode as i32, SelectedBranch::Zero) + projector_calls(
        request.mode as i32,
        SelectedBranch::One,
    )
    &&& calls[at] == (NativeCall::MassChecked { positive: true })
    &&& calls[at + 1] == (NativeCall::ProjectorUploaded { selected: request.selected, normalized: true })
    &&& calls[at + 2] == (NativeCall::ProjectionApplied { mode: request.mode as i32 })
}

/// Failures after acquisitions only: the acquisitions report none.
pub proof fn lemma_failure_after_acquisitions(a: Seq<ReplayEvent>, c: Seq<ReplayEvent>)
    requires
        only_acquires(a),
    ensures
        first_failure(a + c) == first_failure(c),
    decreases a.len() + c.len(),
{
    if c.len() == 0 {
        assert(a + c =~= a);
        if a.len() > 0 {
            assert(only_acquires(a.drop_last())) by {
                assert forall|i: int| 0 <= i < a.drop_last().len() implies #[trigger] a.drop_last()[i] is Acquired by {
                    assert(a.drop_last()[i] == a[i]);
                }
            }
            lemma_failure_after_acquisitions(a.drop_last(), c);
            assert(a.drop_last() + c =~= a.drop_last());
            assert(a.last() is Acquired);
        }
    } else {
        assert((a + c).drop_last() =~= a + c.drop_last());
        lemma_failure_after_acquisitions(a, c.drop_last());
        assert((a + c).last() == c.last());
        if c.drop_last().len() == 0 {
            assert(c.drop_last() =~= Seq::<ReplayEvent>::empty());
        }
    }
}

/// Whether `after` is `before` followed by the modes of each gate, in order:
/// the gates were applied.
pub open spec fn gates_applied(after: Seq<Seq<i32>>, before: Seq<Seq<i32>>, gates: Seq<Gate>) -> bool {
    &&& after.len() == before.len() + gates.len()
    &&& after.subrange(0, before.len() as int) == before
    &&& forall|k: int| 0 <= k < gates.len() ==> #[trigger] after[before.len() + k] == gate_modes(gates[k]).map_values(
        |m: u32| m as i32,
    )
}

/// Creates a state over the given mode extents, and gives back the extents
/// it handed on.
fn native_create_state<A: ReplayApi>(api: &A, handle: u64, extents: &Vec<i64>) -> (r: (
    Result<u64, SimulationError>,
    Ghost<Seq<i64>>,
))
    ensures
        r.1@ == extents@,
{
    (api.create_state(handle, extents), Ghost(extents@))
}

/// The calls of a successful materialization: the free and total memory
/// the report carries, preparation under the policy ceiling, the
/// recommendation the report carries attached as scratch, the computation
/// into one output per site and a barrier; then, for a full readout, each
/// site's output copied back once, in site order.
pub open spec fn materialized_calls(
    calls: Seq<NativeCall>,
    report: WorkspaceReport,
    maximum_bytes: u64,
    sites: nat,
    readout: StateReadout,
) -> bool {
    &&& calls.len() == 6 + (if readout == StateReadout::FullAmplitudes { sites } else { 0 })
    &&& calls[0] == (NativeCall::MemoryObserved { free: report.free_before_bytes, total: report.total_bytes })
    &&& calls[1] == (NativeCall::StatePrepared { maximum_bytes })
    &&& calls[2] == (NativeCall::WorkspaceSized { bytes: report.native_recommended_bytes as i64 })
    &&& calls[3] == (NativeCall::WorkspaceAttached { bytes: report.allocated_bytes as i64 })
    &&& calls[4] == (NativeCall::StateComputed { outputs: sites as usize })
    &&& calls[5] == (NativeCall::Synchronized { failed: false })
    &&& forall|k: int| 0 <= k < calls.len() - 6 ==> #[trigger] calls[6 + k] == (NativeCall::SiteCopied { site: k as usize })
}

/// Whether the recommendation a materialization observed (after the free
/// memory and the preparation) is refused: not positive, not a `usize`,
/// above the policy ceiling or above the free memory.
pub open spec fn workspace_refused(calls: Seq<NativeCall>, maximum_bytes: u64) -> bool {
    calls.len() >= 3 && match (calls[0], calls[2]) {
        (NativeCall::MemoryObserved { free, .. }, NativeCall::WorkspaceSized { bytes }) => bytes <= 0 || bytes
            > usize::MAX || bytes > maximum_bytes || bytes > free,
        _ => false,
    }
}

/// The error a refused recommendation gives: "recommended workspace size is
/// <bytes>" when not positive, an overflow of the device workspace when not a
/// `usize`, else the limit it exceeds, the policy ceiling first.
pub open spec fn refusal_matches<T>(r: Result<T, SimulationError>, calls: Seq<NativeCall>, maximum_bytes: u64) -> bool {
    match (calls[0], calls[2]) {
        (NativeCall::MemoryObserved { free, .. }, NativeCall::WorkspaceSized { bytes }) => if bytes <= 0 {
            r matches Err(SimulationError::InvalidNativeResult { reason }) && reason@ == recommendation_text(
                "workspace"@,
                bytes,
            )
        } else if bytes > usize::MAX {
            r == Err::<T, SimulationError>(SimulationError::ResourceSizeOverflow { resource: "device workspace" })
        } else if bytes > maximum_bytes {
            r == Err::<T, SimulationError>(
                SimulationError::WorkspaceLimitExceeded { required: bytes as u64, maximum: maximum_bytes },
            )
        } else {
            r == Err::<T, SimulationError>(
                SimulationError::WorkspaceLimitExceeded { required: bytes as u64, maximum: free as u64 },
            )
        },
        _ => false,
    }
}

/// A state report as a successful materialization produces it: the realized
/// chain is well formed, within the requested capacity and made of qubits,
/// its largest bond is reported, and its nonzero workspace was accepted.
pub open spec fn valid_state_report(
    report: &ExecutionReport,
    target: Seq<Seq<i64>>,
    policy: ExecutionPolicy,
) -> bool {
    let realized = usize_rows(report.realized_extents@);
    &&& report.policy == policy
    &&& report.target_extents@.map_values(|v: Vec<i64>| v@) == target
    &&& is_chain(realized)
    &&& fits_within(realized, target)
    &&& all_qubits(realized)
    &&& report.maximum_bond == max_bond_prefix(realized, (realized.len() - 1) as nat)
    &&& report.workspace.native_recommended_bytes > 0
    &&& accepted_workspace(report.workspace, policy)
}

impl OutputMetadata {
    /// Zeroed extent and stride buffers shaped like the requested chain.
    pub fn new(target: &MpsTarget) -> (metadata: OutputMetadata)
        ensures
            metadata.extents@.len() == target.sites().len(),
            metadata.strides@.len() == target.sites().len(),
            forall|s: int| 0 <= s < target.sites().len() ==> (#[trigger] metadata.extents@[s])@.len()
                == target.sites()[s].len() && metadata.strides@[s]@.len() == target.sites()[s].len(),
    {
        let mut extents: Vec<Vec<i64>> = Vec::new();
        let mut strides: Vec<Vec<i64>> = Vec::new();
        let n = target.site_count();
        let mut site: usize = 0;
        while site < n
            invariant
                n == target.sites().len(),
                site <= n,
                extents@.len() == site,
                strides@.len() == site,
                forall|s: int| 0 <= s < site ==> (#[trigger] extents@[s])@.len() == target.sites()[s].len()
                    && strides@[s]@.len() == target.sites()[s].len(),
            decreases n - site,
        {
            let rank = target.site(site).len();
            let mut zeros: Vec<i64> = Vec::new();
            let mut j: usize = 0;
            while j < rank
                invariant
                    j <= rank,
                    zeros@.len() == j,
                decreases rank - j,
            {
                zeros.push(0);
                j = j + 1;
            }
            extents.push(zeros.clone());
            strides.push(zeros);
            site = site + 1;
        }
        OutputMetadata { extents, strides }
    }
}

impl<'a, A: ReplayApi> Replay<'a, A> {
    /// Starts a replay of `circuit`: validates the policy, shapes the
    /// requested chain, and creates the native state and its workspace. If
    /// the workspace cannot be created the state is destroyed again and both
    /// failures, if any, are reported.
    pub fn new(
        api: &'a A,
        handle: u64,
        stream: u64,
        circuit: &Circuit,
        policy: ExecutionPolicy,
    ) -> (r: Result<Self, SimulationError>)
        ensures
            policy_rejection(policy) matches Some(reason) ==> r == Err::<Self, SimulationError>(
                SimulationError::InvalidExecutionPolicy { reason },
            ),
            policy_rejection(policy) is None && circuit.width() < 2 ==> (r matches Err(
                SimulationError::InvalidCircuit { reason },
            ) && reason@
                == "MPS simulation requires at least two qubits; use type=\"cpu\" for single-qubit circuits"@),
            r matches Ok(replay) ==> {
                &&& replay.ready()
                &&& replay.width() == circuit.width()
                &&& replay.execution_policy() == policy
                &&& replay.history().len() == 2
                &&& replay.history()[0] matches ReplayEvent::Acquired(Resource::State(_))
                &&& replay.history()[1] matches ReplayEvent::Acquired(Resource::Workspace(_))
                &&& replay.created_state_extents() =~= Seq::new(circuit.width() as nat, |q: int| 2i64)
            },
    {
        let policy = policy.validate()?;
        let qubit_count = circuit.qubit_count() as usize;
        let target = MpsTarget::new(qubit_count, policy.bond_cap)?;
        let mut state_extents: Vec<i64> = Vec::new();
        let mut k: usize = 0;
        while k < qubit_count
            invariant
                k <= qubit_count,
                state_extents@.len() == k,
                forall|j: int| 0 <= j < k ==> #[trigger] state_extents@[j] == 2,
            decreases qubit_count - k,
        {
            state_extents.push(2);
            k = k + 1;
        }
        let (created, created_extents) = native_create_state(api, handle, &state_extents);
        let state = created?;
        let history: Ghost<Seq<ReplayEvent>> = Ghost(
            Seq::empty().push(ReplayEvent::Acquired(Resource::State(state))),
        );
        let mut replay = Replay {
            api,
            handle,
            stream,
            state: Some(state),
            workspace: None,
            query_workspace: None,
            network_operator: None,
            expectation: None,
            allocations: Vec::new(),
            qubit_count,
            operator_modes: Vec::new(),
            target,
            policy,
            closed: false,
            history,
            calls: Ghost(Seq::empty()),
            mass_checks: Ghost(Seq::empty()),
            state_extents: created_extents,
        };
        proof {
            lemma_live_acquired(Seq::<ReplayEvent>::empty(), Resource::State(state));
            assert(seq![ReplayEvent::Acquired(Resource::State(state))] =~= Seq::<ReplayEvent>::empty().push(
                ReplayEvent::Acquired(Resource::State(state)),
            ));
            assert(device_memory(replay.allocations@) =~= Multiset::<Resource>::empty());
        }
        match api.create_workspace(handle) {
            Ok(workspace) => {
                replay.workspace = Some(workspace);
                let ghost before = replay.history@;
                replay.record(Ghost(ReplayEvent::Acquired(Resource::Workspace(workspace))));
                proof {
                    lemma_live_acquired(before, Resource::Workspace(workspace));
                }
                Ok(replay)
            },
            Err(error) => {
                let cleanup = replay.close();
                combine_execution_and_cleanup(Err(error), cleanup)
            },
        }
    }

    /// Allocates device memory that the replay then owns.
    fn allocate_bytes(&mut self, bytes: usize, resource: &'static str) -> (r: Result<u64, SimulationError>)
        requires
            old(self).ready(),
        ensures
            final(self).ready(),
            final(self).same_setup(old(self)),
            final(self).state == old(self).state,
            final(self).workspace == old(self).workspace,
            final(self).query_owned() == old(self).query_owned(),
            final(self).query_workspace == old(self).query_workspace,
            final(self).expectation == old(self).expectation,
            final(self).network_operator == old(self).network_operator,
            bytes == 0 ==> (r matches Err(SimulationError::InvalidNativeResult { reason }) && reason@
                == resource@ + " requires zero bytes"@),
            grows_by_acquisition(final(self).history(), old(self).history()),
            r matches Ok(allocation) ==> final(self).history() == old(self).history().push(
                ReplayEvent::Acquired(Resource::DeviceMemory(allocation)),
            ),
            r is Err ==> final(self).history() == old(self).history(),
    {
        proof { lemma_grows_refl(self.history@); }
        if bytes == 0 {
            let mut reason = String::from_str(resource);
            reason.append(" requires zero bytes");
            return Err(SimulationError::InvalidNativeResult { reason });
        }
        let allocation = self.api.allocate(bytes)?;
        let ghost allocations = self.allocations@;
        self.allocations.push(allocation);
        let ghost before = self.history@;
        self.record(Ghost(ReplayEvent::Acquired(Resource::DeviceMemory(allocation))));
        proof {
            lemma_live_acquired(before, Resource::DeviceMemory(allocation));
            lemma_grows_push(before, Resource::DeviceMemory(allocation));
            assert(self.allocations@.drop_last() =~= allocations);
        }
        Ok(allocation)
    }

    /// Allocates device memory for `elements` complex values.
    fn allocate_complex(&mut self, elements: usize, resource: &'static str) -> (r: Result<u64, SimulationError>)
        requires
            old(self).ready(),
        ensures
            final(self).ready(),
            final(self).same_setup(old(self)),
            final(self).state == old(self).state,
            final(self).workspace == old(self).workspace,
            final(self).query_workspace == old(self).query_workspace,
            final(self).expectation == old(self).expectation,
            final(self).network_operator == old(self).network_operator,
            elements * COMPLEX64_BYTES > usize::MAX ==> r == Err::<u64, SimulationError>(
                SimulationError::ResourceSizeOverflow { resource },
            ),
            grows_by_acquisition(final(self).history(), old(self).history()),
            r matches Ok(allocation) ==> final(self).history() == old(self).history().push(
                ReplayEvent::Acquired(Resource::DeviceMemory(allocation)),
            ),
            r is Err ==> final(self).history() == old(self).history(),
    {
        proof { lemma_grows_refl(self.history@); }
        let bytes = match elements.checked_mul(COMPLEX64_BYTES) {
            Some(bytes) => bytes,
            None => {
                return Err(SimulationError::ResourceSizeOverflow { resource });
            },
        };
        self.allocate_bytes(bytes, resource)
    }

    /// Uploads an operator and applies it to the state, keeping its modes
    /// alive for the library.
    fn register_operator(&mut self, operator: OwnedOperator<A::Element>) -> (r: Result<(), SimulationError>)
        requires
            old(self).ready(),
        ensures
            final(self).calls == old(self).calls,
            final(self).ready(),
            final(self).same_session(old(self)),
            final(self).state == old(self).state,
            final(self).workspace == old(self).workspace,
            final(self).query_workspace == old(self).query_workspace,
            final(self).expectation == old(self).expectation,
            final(self).network_operator == old(self).network_operator,
            r is Ok ==> final(self).operator_modes@ == old(self).operator_modes@.push(operator.modes),
    {
        let tensor = self.allocate_complex(operator.matrix.len(), "operator tensor")?;
        self.api.copy_to_device(tensor, &operator.matrix)?;
        self.operator_modes.push(operator.modes);
        let last = self.operator_modes.len() - 1;
        let state = self.state.unwrap();
        self.api.apply_tensor_operator(self.handle, state, &self.operator_modes[last], tensor, true)
    }

    /// Applies one gate of the circuit to the state.
    fn register_gate(&mut self, gate: Gate) -> (r: Result<(), SimulationError>)
        requires
            old(self).ready(),
        ensures
            final(self).calls == old(self).calls,
            final(self).ready(),
            final(self).same_session(old(self)),
            final(self).state == old(self).state,
            final(self).workspace == old(self).workspace,
            final(self).query_workspace == old(self).query_workspace,
            final(self).expectation == old(self).expectation,
            final(self).network_operator == old(self).network_operator,
            !modes_fit(gate) ==> (r matches Err(SimulationError::InvalidCircuit { .. })) && *final(self) == *old(
                self,
            ),
            r is Ok ==> final(self).operator_modes@.len() == old(self).operator_modes@.len() + 1
                && final(self).operator_modes@.subrange(0, old(self).operator_modes@.len() as int) == old(
                self,
            ).operator_modes@ && final(self).operator_modes@.last()@ == gate_modes(gate).map_values(
                |m: u32| m as i32,
            ),
    {
        let modes = operator_modes(gate)?;
        let matrix = self.api.gate_matrix(gate);
        let operator = OwnedOperator::new(modes, matrix)?;
        self.register_operator(operator)
    }

    /// Sets the policy's SVD cutoffs, the GESVD algorithm and the simple
    /// gauge on the state.
    fn configure(&self, state: u64) -> (r: Result<(), SimulationError>) {
        self.api.configure_state_cutoff(
            self.handle,
            state,
            StateCutoff::SvdAbsoluteCutoff,
            self.policy.absolute_cutoff,
        )?;
        self.api.configure_state_cutoff(
            self.handle,
            state,
            StateCutoff::SvdRelativeCutoff,
            self.policy.relative_cutoff,
        )?;
        self.api.configure_state(self.handle, state, StateConfiguration::SvdAlgorithmGesvd)?;
        self.api.configure_state(self.handle, state, StateConfiguration::MpsGaugeSimple)
    }

    /// Applies every gate of `circuit`, finalizes the state as the requested
    /// chain and configures its truncation.
    fn finalize_initial(&mut self, circuit: &Circuit) -> (r: Result<(), SimulationError>)
        requires
            old(self).ready(),
        ensures
            final(self).calls == old(self).calls,
            final(self).ready(),
            final(self).same_session(old(self)),
            final(self).state == old(self).state,
            final(self).workspace == old(self).workspace,
            final(self).query_workspace == old(self).query_workspace,
            final(self).expectation == old(self).expectation,
            final(self).network_operator == old(self).network_operator,
            r is Ok ==> final(self).operator_modes@.len() == old(self).operator_modes@.len()
                + circuit.gate_list().len() && final(self).operator_modes@.subrange(
                0,
                old(self).operator_modes@.len() as int,
            ) == old(self).operator_modes@ && forall|k: int|
                0 <= k < circuit.gate_list().len() ==> (#[trigger] final(self).operator_modes@[old(
                    self,
                ).operator_modes@.len() + k])@ == gate_modes(circuit.gate_list()[k]).map_values(
                    |m: u32| m as i32,
                ),
    {
        let gates = circuit.gates();
        let mut i: usize = 0;
        while i < gates.len()
            invariant
                self.ready(),
                self.same_session(old(self)),
                self.state == old(self).state,
                self.workspace == old(self).workspace,
                self.query_workspace == old(self).query_workspace,
                self.expectation == old(self).expectation,
                self.network_operator == old(self).network_operator,
                i <= gates@.len(),
                gates@ == circuit.gate_list(),
                self.calls == old(self).calls,
                self.operator_modes@.len() == old(self).operator_modes@.len() + i,
                self.operator_modes@.subrange(0, old(self).operator_modes@.len() as int) == old(
                    self,
                ).operator_modes@,
                forall|k: int|
                    0 <= k < i ==> (#[trigger] self.operator_modes@[old(self).operator_modes@.len() + k])@
                        == gate_modes(gates@[k]).map_values(|m: u32| m as i32),
            decreases gates@.len() - i,
        {
            let ghost before = self.operator_modes@;
            self.register_gate(gates[i])?;
            proof {
                assert forall|k: int| 0 <= k < i + 1 implies (#[trigger] self.operator_modes@[old(
                    self,
                ).operator_modes@.len() + k])@ == gate_modes(gates@[k]).map_values(|m: u32| m as i32) by {
                    if k < i {
                        assert(self.operator_modes@.subrange(0, before.len() as int)[old(
                            self,
                        ).operator_modes@.len() + k] == before[old(self).operator_modes@.len() + k]);
                    }
                }
                assert(self.operator_modes@.subrange(0, old(self).operator_modes@.len() as int) =~= old(
                    self,
                ).operator_modes@) by {
                    assert(self.operator_modes@.subrange(0, before.len() as int) == before);
                    assert forall|m: int| 0 <= m < old(self).operator_modes@.len() implies self.operator_modes@[m]
                        == old(self).operator_modes@[m] by {
                        assert(self.operator_modes@.subrange(0, before.len() as int)[m] == before[m]);
                        assert(before.subrange(0, old(self).operator_modes@.len() as int)[m] == before[m]);
                    }
                }
            }
            i = i + 1;
        }
        let state = self.state.unwrap();
        self.api.finalize_mps(self.handle, state, &self.target)?;
        self.configure(state)
    }
}

/// The failure for a nonpositive (or, for a Query, negative) workspace
/// recommendation: "recommended <what> size is <bytes>".
pub open spec fn recommendation_text(what: Seq<char>, bytes: i64) -> Seq<char> {
    "recommended "@ + what + " size is "@ + crate::text::signed_decimal(bytes as int)
}

fn recommendation_error(what: &str, bytes: i64) -> (e: SimulationError)
    ensures
        e matches SimulationError::InvalidNativeResult { reason } && reason@ == recommendation_text(
            what@,
            bytes,
        ),
{
    let mut reason = String::from_str("recommended ");
    reason.append(what);
    reason.append(" size is ");
    append_signed_decimal(&mut reason, bytes);
    SimulationError::InvalidNativeResult { reason }
}

/// Accepts a native workspace recommendation as a size: a recommendation
/// below the smallest accepted (one byte, or zero when `zero_allowed`) is
/// reported as "recommended <what> size is <bytes>", and one that does not
/// fit `usize` as an overflow of `resource`.
pub fn accepted_recommendation(bytes: i64, zero_allowed: bool, what: &str, resource: &'static str) -> (r: Result<
    usize,
    SimulationError,
>)
    ensures
        (bytes < 0 || (bytes == 0 && !zero_allowed)) ==> (r matches Err(SimulationError::InvalidNativeResult { reason })
            && reason@ == recommendation_text(what@, bytes)),
        !(bytes < 0 || (bytes == 0 && !zero_allowed)) && bytes > usize::MAX ==> r == Err::<usize, SimulationError>(
            SimulationError::ResourceSizeOverflow { resource },
        ),
        !(bytes < 0 || (bytes == 0 && !zero_allowed)) && bytes <= usize::MAX ==> r == Ok::<usize, SimulationError>(
            bytes as usize,
        ),
{
    if bytes < 0 || (bytes == 0 && !zero_allowed) {
        return Err(recommendation_error(what, bytes));
    }
    if bytes as u64 > usize::MAX as u64 {
        return Err(SimulationError::ResourceSizeOverflow { resource });
    }
    Ok(bytes as usize)
}

/// Accepts device scratch only at a 256-byte boundary: "cudaMalloc returned
/// <what> below 256-byte alignment" otherwise.
pub fn check_alignment(scratch: u64, what: &str) -> (r: Result<(), SimulationError>)
    ensures
        scratch % 256 == 0 <==> r is Ok,
        scratch % 256 != 0 ==> (r matches Err(SimulationError::InvalidNativeResult { reason }) && reason@
            == "cudaMalloc returned "@ + what@ + " below 256-byte alignment"@),
{
    if scratch % 256 != 0 {
        return Err(alignment_error(what));
    }
    Ok(())
}

fn alignment_error(what: &str) -> (e: SimulationError)
    ensures
        e matches SimulationError::InvalidNativeResult { reason } && reason@ == "cudaMalloc returned "@
            + what@ + " below 256-byte alignment"@,
{
    let mut reason = String::from_str("cudaMalloc returned ");
    reason.append(what);
    reason.append(" below 256-byte alignment");
    SimulationError::InvalidNativeResult { reason }
}

impl<'a, A: ReplayApi> Replay<'a, A> {
    /// Records the current state as the library's MPS.
    pub fn capture_current_state(&self) -> (r: Result<(), SimulationError>)
        requires
            self.ready(),
    {
        self.api.capture_mps(self.handle, self.state.unwrap())
    }

    /// Computes the current state as an MPS of the requested shape: output
    /// buffers for every site, the recommended workspace (positive, within
    /// the policy and the free memory, 256-byte aligned), the computation and
    /// a barrier; then the realized chain is checked against the request and,
    /// for a full readout, contracted into amplitudes.
    #[verifier::loop_isolation(false)]
    pub fn materialize_current_state(&mut self, readout: StateReadout) -> (r: Result<
        StateResult<A>,
        SimulationError,
    >)
        requires
            old(self).ready(),
        ensures
            stops_at_failed_barrier(final(self).calls_since(old(self))),
            r is Ok ==> barriers_held(final(self).calls_since(old(self))),
            final(self).applied_modes() == old(self).applied_modes(),
            final(self).ready(),
            final(self).same_session(old(self)),
            final(self).owns_query() == old(self).owns_query(),
            final(self).extends_calls(old(self)),
            r matches Ok(result) ==> valid_state_report(
                &result.report,
                old(self).requested_sites(),
                old(self).execution_policy(),
            ) && (result.amplitudes is Some <==> readout == StateReadout::FullAmplitudes),
            r matches Ok(result) ==> materialized_calls(
                final(self).calls_since(old(self)),
                result.report.workspace,
                old(self).execution_policy().maximum_workspace_bytes,
                old(self).requested_sites().len(),
                readout,
            ),
            workspace_refused(final(self).calls_since(old(self)), old(self).execution_policy().maximum_workspace_bytes)
                ==> final(self).calls_since(old(self)).len() == 3 && final(self).history().len() == old(
                self,
            ).history().len() + old(self).requested_sites().len() && refusal_matches(
                r,
                final(self).calls_since(old(self)),
                old(self).execution_policy().maximum_workspace_bytes,
            ),
    {
        let n = self.target.site_count();
        let mut outputs: Vec<u64> = Vec::new();
        let mut site: usize = 0;
        while site < n
            invariant
                self.ready(),
                self.same_session(old(self)),
                self.state == old(self).state,
                self.workspace == old(self).workspace,
                self.query_workspace == old(self).query_workspace,
                self.expectation == old(self).expectation,
                self.network_operator == old(self).network_operator,
                self.calls == old(self).calls,
                self.operator_modes == old(self).operator_modes,
                self.history@.len() == old(self).history@.len() + site,
                n == self.target.sites().len(),
                site <= n,
                outputs@.len() == site,
            decreases n - site,
        {
            let elements = self.target.output_elements(site);
            let output = self.allocate_complex(elements, "MPS output")?;
            outputs.push(output);
            site = site + 1;
        }
        let ghost base = self.calls@;
        let (free_before_bytes, total_bytes) = self.native_memory_info()?;
        let workspace = self.workspace.unwrap();
        self.native_prepare_state(self.policy.maximum_workspace_bytes)?;
        let workspace_bytes = self.native_workspace_size(workspace)?;
        proof {
            assert(self.calls@.subrange(base.len() as int, self.calls@.len() as int) =~= seq![
                NativeCall::MemoryObserved { free: free_before_bytes, total: total_bytes },
                NativeCall::StatePrepared { maximum_bytes: self.policy.maximum_workspace_bytes },
                NativeCall::WorkspaceSized { bytes: workspace_bytes },
            ]);
        }
        let workspace_size = accepted_recommendation(workspace_bytes, false, "workspace", "device workspace")?;
        validate_workspace_size(
            workspace_size as u64,
            self.policy.maximum_workspace_bytes,
            free_before_bytes as u64,
        )?;
        let ghost sized = self.calls@;
        let scratch = self.allocate_bytes(workspace_size, "device workspace")?;
        check_alignment(scratch, "workspace")?;
        self.native_set_workspace(workspace, scratch, workspace_bytes)?;
        let mut metadata = OutputMetadata::new(&self.target);
        self.native_compute_state(&mut metadata, &outputs)?;
        self.native_synchronize()?;
        let ghost computed = self.calls@;
        proof {
            assert(computed =~= sized + seq![
                NativeCall::WorkspaceAttached { bytes: workspace_bytes },
                NativeCall::StateComputed { outputs: n },
                NativeCall::Synchronized { failed: false },
            ]);
            assert(computed[base.len() as int] == (NativeCall::MemoryObserved { free: free_before_bytes, total: total_bytes }));
            assert(computed[base.len() + 2int] == (NativeCall::WorkspaceSized { bytes: workspace_bytes }));
        }
        let realized = convert_layout("extent", &metadata.extents)?;
        validate_realized_extents(&realized, &self.target)?;
        let transferred = if readout == StateReadout::FullAmplitudes {
            let mut host_outputs: Vec<Vec<A::Element>> = Vec::new();
            let mut lengths: Vec<usize> = Vec::new();
            let mut k: usize = 0;
            while k < outputs.len()
                invariant
                    k <= outputs@.len(),
                    outputs@.len() == n,
                    n == self.target.sites().len(),
                    self.ready(),
                    self.same_session(old(self)),
                    self.owns_query() == old(self).owns_query(),
                    self.calls@.len() == computed.len() + k,
                    self.operator_modes == old(self).operator_modes,
                    barriers_held(self.calls@.subrange(old(self).calls@.len() as int, self.calls@.len() as int)),
                    self.calls@.subrange(0, computed.len() as int) == computed,
                    self.calls@[base.len() as int] == (NativeCall::MemoryObserved { free: free_before_bytes, total: total_bytes }),
                    self.calls@[base.len() + 2int] == (NativeCall::WorkspaceSized { bytes: workspace_bytes }),
                    forall|i: int| 0 <= i < k ==> #[trigger] self.calls@[computed.len() + i] == (NativeCall::SiteCopied {
                        site: i as usize,
                    }),
                decreases outputs@.len() - k,
            {
                let elements = self.target.output_elements(k);
                let ghost before = self.calls@;
                let ghost held_before = self.calls@.subrange(old(self).calls@.len() as int, self.calls@.len() as int);
                let host = self.native_copy_site(&outputs, k, elements);
                proof {
                    assert(self.calls@.subrange(old(self).calls@.len() as int, self.calls@.len() as int) =~= held_before.push(
                        NativeCall::SiteCopied { site: k },
                    ));
                    assert forall|i: int| 0 <= i < k + 1 implies #[trigger] self.calls@[computed.len() + i]
                        == (NativeCall::SiteCopied { site: i as usize }) by {
                        if i < k {
                            assert(self.calls@[computed.len() + i] == before[computed.len() + i]);
                        }
                    }
                    assert(self.calls@.subrange(0, computed.len() as int) =~= computed) by {
                        assert forall|m: int| 0 <= m < computed.len() implies self.calls@[m] == computed[m] by {
                            assert(before.subrange(0, computed.len() as int)[m] == before[m]);
                        }
                    }
                }
                let host = host?;
                lengths.push(host.len());
                host_outputs.push(host);
                k = k + 1;
            }
            let strides = convert_layout("stride", &metadata.strides)?;
            Some((host_outputs, lengths, strides))
        } else {
            None
        };
        proof {
            let copied = if readout == StateReadout::FullAmplitudes { n as int } else { 0int };
            assert(self.calls@.len() == computed.len() + copied);
            assert forall|j: int| 0 <= j < computed.len() implies self.calls@[j] == computed[j] by {
                if readout == StateReadout::FullAmplitudes {
                    assert(self.calls@.subrange(0, computed.len() as int)[j] == self.calls@[j]);
                }
            }
            let calls = self.calls@.subrange(base.len() as int, self.calls@.len() as int);
            assert(calls[0] == computed[base.len() as int]);
            assert(calls[1] == computed[base.len() + 1int]);
            assert(calls[2] == computed[base.len() + 2int]);
            assert(calls[3] == computed[base.len() + 3int]);
            assert(calls[4] == computed[base.len() + 4int]);
            assert(calls[5] == computed[base.len() + 5int]);
            assert forall|k: int| 0 <= k < calls.len() - 6 implies #[trigger] calls[6 + k]
                == (NativeCall::SiteCopied { site: k as usize }) by {
                assert(calls[6 + k] == self.calls@[computed.len() + k]);
            }
        }
        let bond = maximum_bond(&realized);
        let amplitudes = match transferred {
            Some((host_outputs, lengths, strides)) => {
                validate_open_mps(lengths.as_slice(), &realized, &strides)?;
                Some(self.api.contract_chain(&realized, host_outputs, &strides)?)
            },
            None => None,
        };
        let report = ExecutionReport {
            policy: self.policy,
            target_extents: self.target.extents_copy(),
            realized_extents: realized,
            maximum_bond: bond,
            workspace: WorkspaceReport {
                total_bytes,
                free_before_bytes,
                requested_maximum_bytes: self.policy.maximum_workspace_bytes,
                native_recommended_bytes: workspace_size,
                allocated_bytes: workspace_size,
                free_after_cleanup_bytes: 0,
            },
        };
        Ok(StateResult { amplitudes, report })
    }

    /// Runs `circuit` on the state and materializes the result.
    pub fn execute(&mut self, circuit: &Circuit, readout: StateReadout) -> (r: Result<
        StateResult<A>,
        SimulationError,
    >)
        requires
            old(self).ready(),
        ensures
            r matches Ok(result) ==> materialized_calls(
                final(self).calls_since(old(self)),
                result.report.workspace,
                old(self).execution_policy().maximum_workspace_bytes,
                old(self).requested_sites().len(),
                readout,
            ),
            stops_at_failed_barrier(final(self).calls_since(old(self))),
            r is Ok ==> barriers_held(final(self).calls_since(old(self))),
            r is Ok ==> gates_applied(final(self).applied_modes(), old(self).applied_modes(), circuit.gate_list()),
            final(self).extends_calls(old(self)),
            final(self).ready(),
            final(self).same_session(old(self)),
            final(self).owns_query() == old(self).owns_query(),
            r matches Ok(result) ==> valid_state_report(
                &result.report,
                old(self).requested_sites(),
                old(self).execution_policy(),
            ) && (result.amplitudes is Some <==> readout == StateReadout::FullAmplitudes),
    {
        self.finalize_initial(circuit)?;
        proof { self.lemma_gates_applied(old(self), circuit); }
        self.materialize_current_state(readout)
    }

    /// What `finalize_initial` states of the operator modes, over the
    /// applied modes.
    proof fn lemma_gates_applied(&self, before: &Self, circuit: &Circuit)
        requires
            self.operator_modes@.len() == before.operator_modes@.len() + circuit.gate_list().len(),
            self.operator_modes@.subrange(0, before.operator_modes@.len() as int) == before.operator_modes@,
            forall|k: int|
                0 <= k < circuit.gate_list().len() ==> (#[trigger] self.operator_modes@[before.operator_modes@.len()
                    + k])@ == gate_modes(circuit.gate_list()[k]).map_values(|m: u32| m as i32),
        ensures
            gates_applied(self.applied_modes(), before.applied_modes(), circuit.gate_list()),
    {
        let after = self.applied_modes();
        let earlier = before.applied_modes();
        assert(after.subrange(0, earlier.len() as int) =~= earlier) by {
            assert forall|m: int| 0 <= m < earlier.len() implies after[m] == earlier[m] by {
                assert(self.operator_modes@.subrange(0, before.operator_modes@.len() as int)[m] == self.operator_modes@[m]);
            }
        }
        assert forall|k: int| 0 <= k < circuit.gate_list().len() implies #[trigger] after[earlier.len() + k]
            == gate_modes(circuit.gate_list()[k]).map_values(|m: u32| m as i32) by {
            assert(after[earlier.len() + k] == self.operator_modes@[before.operator_modes@.len() + k]@);
        }
    }
}

/// A Query evaluated on the current state.
pub struct QueryOutcome<A: ReplayApi> {
    pub value: A::QueryValue,
    pub hyper_samples: i32,
    pub workspace: WorkspaceReport,
}

/// Which qubit a branch measures and which outcome it keeps.
#[derive(Clone, Copy, Debug, PartialEq, Eq, Structural)]
pub struct BranchRequest {
    pub mode: u32,
    pub selected: SelectedBranch,
}

/// The states around a projective branch and the Query after it.
pub struct BranchOutcome<A: ReplayApi> {
    pub initial_state: StateResult<A>,
    pub post_projection_state: StateResult<A>,
    pub continuation_state: StateResult<A>,
    pub query: QueryOutcome<A>,
    pub request: BranchRequest,
    pub masses: A::Masses,
    pub probability: A::Probability,
    pub log_probability: A::Probability,
}

/// Mode extents of a register of qubits: 2 for each.
fn qubit_extents(qubit_count: usize) -> (extents: Vec<i64>)
    ensures
        extents@.len() == qubit_count,
        forall|k: int| 0 <= k < qubit_count ==> #[trigger] extents@[k] == 2,
{
    let mut extents: Vec<i64> = Vec::new();
    let mut k: usize = 0;
    while k < qubit_count
        invariant
            k <= qubit_count,
            extents@.len() == k,
            forall|j: int| 0 <= j < k ==> #[trigger] extents@[j] == 2,
        decreases qubit_count - k,
    {
        extents.push(2);
        k = k + 1;
    }
    extents
}

impl<'a, A: ReplayApi> Replay<'a, A> {
    /// The Query lifecycle's invariant-preserving acquisition of a network
    /// operator.
    fn create_network_operator(&mut self) -> (r: Result<u64, SimulationError>)
        requires
            old(self).ready(),
            old(self).network_operator is None,
        ensures
            final(self).ready(),
            final(self).same_setup(old(self)),
            final(self).state == old(self).state,
            final(self).workspace == old(self).workspace,
            final(self).query_workspace == old(self).query_workspace,
            final(self).expectation == old(self).expectation,
            r matches Ok(h) ==> final(self).network_operator == Some(h) && final(self).history() == old(
                self,
            ).history().push(ReplayEvent::Acquired(Resource::NetworkOperator(h))),
            r is Err ==> *final(self) == *old(self),
            grows_by_acquisition(final(self).history(), old(self).history()),
    {
        proof { lemma_grows_refl(self.history@); }
        let extents = qubit_extents(self.qubit_count);
        let operator = self.api.create_network_operator(self.handle, &extents)?;
        self.network_operator = Some(operator);
        let ghost before = self.history@;
        self.record(Ghost(ReplayEvent::Acquired(Resource::NetworkOperator(operator))));
        proof {
            lemma_live_acquired(before, Resource::NetworkOperator(operator));
            lemma_grows_push(before, Resource::NetworkOperator(operator));
        }
        Ok(operator)
    }

    fn create_expectation(&mut self, operator: u64) -> (r: Result<u64, SimulationError>)
        requires
            old(self).ready(),
            old(self).expectation is None,
        ensures
            final(self).ready(),
            final(self).same_setup(old(self)),
            final(self).state == old(self).state,
            final(self).workspace == old(self).workspace,
            final(self).query_workspace == old(self).query_workspace,
            final(self).network_operator == old(self).network_operator,
            r matches Ok(h) ==> final(self).expectation == Some(h) && final(self).history() == old(
                self,
            ).history().push(ReplayEvent::Acquired(Resource::Expectation(h))),
            r is Err ==> *final(self) == *old(self),
            grows_by_acquisition(final(self).history(), old(self).history()),
    {
        proof { lemma_grows_refl(self.history@); }
        let expectation = self.api.create_expectation(self.handle, self.state.unwrap(), operator)?;
        self.expectation = Some(expectation);
        let ghost before = self.history@;
        self.record(Ghost(ReplayEvent::Acquired(Resource::Expectation(expectation))));
        proof {
            lemma_live_acquired(before, Resource::Expectation(expectation));
            lemma_grows_push(before, Resource::Expectation(expectation));
        }
        Ok(expectation)
    }

    fn create_query_workspace(&mut self) -> (r: Result<u64, SimulationError>)
        requires
            old(self).ready(),
            old(self).query_workspace is None,
        ensures
            final(self).ready(),
            final(self).same_setup(old(self)),
            final(self).state == old(self).state,
            final(self).workspace == old(self).workspace,
            final(self).expectation == old(self).expectation,
            final(self).network_operator == old(self).network_operator,
            r matches Ok(h) ==> final(self).query_workspace == Some(h) && final(self).history() == old(
                self,
            ).history().push(ReplayEvent::Acquired(Resource::QueryWorkspace(h))),
            r is Err ==> *final(self) == *old(self),
            grows_by_acquisition(final(self).history(), old(self).history()),
    {
        proof { lemma_grows_refl(self.history@); }
        let workspace = self.api.create_workspace(self.handle)?;
        self.query_workspace = Some(workspace);
        let ghost before = self.history@;
        self.record(Ghost(ReplayEvent::Acquired(Resource::QueryWorkspace(workspace))));
        proof {
            lemma_live_acquired(before, Resource::QueryWorkspace(workspace));
            lemma_grows_push(before, Resource::QueryWorkspace(workspace));
        }
        Ok(workspace)
    }

    /// Sizes, checks, allocates and attaches the workspace of an expectation
    /// already created in the Query lifecycle; a zero recommendation needs
    /// no scratch memory.
    fn attach_expectation_workspace(
        &mut self,
        expectation: u64,
        workspace: u64,
        what: &str,
        resource: &'static str,
        scratch_what: &str,
    ) -> (r: Result<WorkspaceReport, SimulationError>)
        requires
            old(self).ready(),
        ensures
            final(self).ready(),
            final(self).same_session(old(self)),
            final(self).state == old(self).state,
            final(self).workspace == old(self).workspace,
            final(self).query_workspace == old(self).query_workspace,
            final(self).expectation == old(self).expectation,
            final(self).network_operator == old(self).network_operator,
            r matches Ok(report) ==> accepted_workspace(report, old(self).policy),
            final(self).calls == old(self).calls,
            grows_by_acquisition(final(self).history(), old(self).history()),
    {
        proof { lemma_grows_refl(self.history@); }
        let (free_before_bytes, total_bytes) = self.api.memory_info()?;
        self.api.prepare_expectation(
            self.handle,
            expectation,
            self.policy.maximum_workspace_bytes,
            workspace,
            self.stream,
        )?;
        let workspace_bytes = self.api.workspace_size(self.handle, workspace)?;
        let workspace_size = accepted_recommendation(workspace_bytes, true, what, resource)?;
        validate_workspace_size(
            workspace_size as u64,
            self.policy.maximum_workspace_bytes,
            free_before_bytes as u64,
        )?;
        if workspace_size > 0 {
            let scratch = self.allocate_bytes(workspace_size, resource)?;
            check_alignment(scratch, scratch_what)?;
            self.api.set_workspace(self.handle, workspace, scratch, workspace_bytes)?;
        }
        Ok(WorkspaceReport {
            total_bytes,
            free_before_bytes,
            requested_maximum_bytes: self.policy.maximum_workspace_bytes,
            native_recommended_bytes: workspace_size,
            allocated_bytes: workspace_size,
            free_after_cleanup_bytes: 0,
        })
    }

    /// Evaluates the sum of Z(left) Z(right) over the Query's terms on the
    /// current state in a Query lifecycle of its own (operator, expectation
    /// and workspace), synchronizes, and normalizes by the squared norm. The
    /// lifecycle stays owned until the replay is closed.
    pub fn execute_query(&mut self, query: &AdjacentZQuery) -> (r: Result<QueryOutcome<A>, SimulationError>)
        requires
            old(self).ready(),
        ensures
            stops_at_failed_barrier(final(self).calls_since(old(self))),
            r is Ok ==> barriers_held(final(self).calls_since(old(self))),
            final(self).ready(),
            final(self).same_session(old(self)),
            query.width != old(self).width() ==> (r matches Err(SimulationError::InvalidCircuit { reason })
                && reason@ == "Query width does not match the native state"@),
            query.width == old(self).width() && old(self).owns_query() ==> (r matches Err(
                SimulationError::InvalidCircuit { reason },
            ) && reason@ == "this replay already owns a Query lifecycle"@),
            r is Err && (query.width != old(self).width() || old(self).owns_query())
                ==> final(self).history() == old(self).history(),
            r matches Ok(outcome) ==> outcome.hyper_samples == EXPECTATION_HYPER_SAMPLES
                && accepted_workspace(outcome.workspace, old(self).execution_policy())
                && final(self).owns_query(),
            final(self).extends_calls(old(self)),
            r is Ok ==> query_calls(query.terms@, final(self).calls_since(old(self))),
            grows_by_acquisition(final(self).history(), old(self).history()),
    {
        proof { lemma_grows_refl(self.history@); }
        if query.width as usize != self.qubit_count {
            return Err(SimulationError::InvalidCircuit {
                reason: String::from_str("Query width does not match the native state"),
            });
        }
        if self.network_operator.is_some() || self.expectation.is_some() || self.query_workspace.is_some() {
            return Err(SimulationError::InvalidCircuit {
                reason: String::from_str("this replay already owns a Query lifecycle"),
            });
        }
        let ghost h0 = self.history@;
        let operator = self.create_network_operator()?;
        let z_matrix = self.api.pauli_z_matrix();
        let ghost h1 = self.history@;
        let z_tensor = self.allocate_complex(z_matrix.len(), "Query Z tensor");
        proof { lemma_grows_trans(h0, h1, self.history@); }
        let z_tensor = z_tensor?;
        self.api.copy_to_device(z_tensor, &z_matrix)?;
        let ghost base = self.calls@;
        let mut t: usize = 0;
        while t < query.terms.len()
            invariant
                self.ready(),
                self.same_session(old(self)),
                self.operator_modes == old(self).operator_modes,
                self.network_operator == Some(operator),
                self.expectation is None,
                self.query_workspace is None,
                query.width == old(self).width(),
                !old(self).owns_query(),
                t <= query.terms@.len(),
                base == old(self).calls@,
                grows_by_acquisition(self.history@, old(self).history@),
                self.calls@.len() == base.len() + t,
                self.calls@.subrange(0, base.len() as int) =~= base,
                barriers_held(self.calls@.subrange(base.len() as int, self.calls@.len() as int)),
                forall|j: int| 0 <= j < t ==> #[trigger] self.calls@[base.len() + j] == (NativeCall::ProductAppended {
                    first: query.terms@[j][0] as i32,
                    second: Some(query.terms@[j][1] as i32),
                }),
            decreases query.terms@.len() - t,
        {
            let term = query.terms[t];
            let left = mode_id(term[0])?;
            let right = mode_id(term[1])?;
            let factor_modes = vec![vec![left], vec![right]];
            let factor_tensors = vec![z_tensor, z_tensor];
            let ghost before = self.calls@;
            let appended = self.native_append_product(operator, &factor_modes, &factor_tensors);
            proof {
                let previous = before.subrange(base.len() as int, before.len() as int);
                assert(self.calls@.subrange(base.len() as int, self.calls@.len() as int) =~= previous.push(
                    NativeCall::ProductAppended { first: left, second: Some(right) },
                ));
                lemma_held_push(previous, NativeCall::ProductAppended { first: left, second: Some(right) });
                assert forall|j: int| 0 <= j < t + 1 implies #[trigger] self.calls@[base.len() + j]
                    == (NativeCall::ProductAppended {
                    first: query.terms@[j][0] as i32,
                    second: Some(query.terms@[j][1] as i32),
                }) by {
                    if j < t {
                        assert(self.calls@[base.len() + j] == before[base.len() + j]);
                    }
                }
                assert forall|m: int| 0 <= m < base.len() implies self.calls@[m] == base[m] by {
                    assert(before.subrange(0, base.len() as int)[m] == before[m]);
                }
            }
            appended?;
            t = t + 1;
        }
        let ghost h2 = self.history@;
        let expectation = self.create_expectation(operator)?;
        proof { lemma_grows_trans(old(self).history@, h2, self.history@); }
        let ghost products = self.calls@;
        let configured = self.native_configure_hyper_samples(expectation, EXPECTATION_HYPER_SAMPLES);
        proof {
            let previous = products.subrange(base.len() as int, products.len() as int);
            assert(self.calls@.subrange(base.len() as int, self.calls@.len() as int) =~= previous.push(
                NativeCall::HyperSamplesConfigured { samples: EXPECTATION_HYPER_SAMPLES },
            ));
            lemma_held_push(previous, NativeCall::HyperSamplesConfigured { samples: EXPECTATION_HYPER_SAMPLES });
        }
        configured?;
        let ghost h3 = self.history@;
        let workspace = self.create_query_workspace()?;
        proof { lemma_grows_trans(old(self).history@, h3, self.history@); }
        let ghost h4 = self.history@;
        let report = self.attach_expectation_workspace(
            expectation,
            workspace,
            "Query workspace",
            "Query device workspace",
            "Query workspace",
        );
        proof { lemma_grows_trans(old(self).history@, h4, self.history@); }
        let report = report?;
        let ghost configured_calls = self.calls@;
        let value = self.native_compute_expectation(expectation, workspace);
        proof {
            let previous = configured_calls.subrange(base.len() as int, configured_calls.len() as int);
            assert(self.calls@.subrange(base.len() as int, self.calls@.len() as int) =~= previous.push(
                NativeCall::ExpectationComputed,
            ));
            lemma_held_push(previous, NativeCall::ExpectationComputed);
        }
        let value = value?;
        let ghost computed_calls = self.calls@;
        let waited = self.native_synchronize();
        proof {
            let previous = computed_calls.subrange(base.len() as int, computed_calls.len() as int);
            assert(self.calls@.subrange(base.len() as int, self.calls@.len() as int) =~= previous.push(
                NativeCall::Synchronized { failed: waited is Err },
            ));
            if waited is Ok {
                lemma_held_push(previous, NativeCall::Synchronized { failed: false });
            } else {
                assert forall|i: int| 0 <= i < previous.push(NativeCall::Synchronized { failed: true }).len()
                    && previous.push(NativeCall::Synchronized { failed: true })[i] == (NativeCall::Synchronized {
                    failed: true,
                }) implies i == previous.len() by {
                    if i < previous.len() {
                        assert(previous.push(NativeCall::Synchronized { failed: true })[i] == previous[i]);
                    }
                }
            }
        }
        waited?;
        proof {
            assert(self.calls@ =~= products + seq![
                NativeCall::HyperSamplesConfigured { samples: EXPECTATION_HYPER_SAMPLES },
                NativeCall::ExpectationComputed,
                NativeCall::Synchronized { failed: false },
            ]);
            let calls = self.calls@.subrange(base.len() as int, self.calls@.len() as int);
            assert forall|j: int| 0 <= j < query.terms@.len() implies #[trigger] calls[j] == (NativeCall::ProductAppended {
                first: query.terms@[j][0] as i32,
                second: Some(query.terms@[j][1] as i32),
            }) by {
                assert(calls[j] == products[base.len() + j]);
            }
        }
        let normalized = self.api.normalize_expectation(value)?;
        Ok(QueryOutcome { value: normalized, hyper_samples: EXPECTATION_HYPER_SAMPLES, workspace: report })
    }

    /// The steps of a projector expectation inside a fresh Query lifecycle.
    fn projector_expectation_steps(&mut self, mode: i32, outcome: SelectedBranch) -> (r: Result<
        A::Expectation,
        SimulationError,
    >)
        requires
            old(self).ready(),
            !old(self).owns_query(),
        ensures
            stops_at_failed_barrier(final(self).calls_since(old(self))),
            r is Ok ==> barriers_held(final(self).calls_since(old(self))),
            final(self).ready(),
            final(self).same_session(old(self)),
            final(self).extends_calls(old(self)),
            grows_by_acquisition(final(self).history(), old(self).history()),
            r is Ok ==> final(self).network_operator is Some && final(self).expectation is Some
                && final(self).query_workspace is Some,
            r is Ok ==> final(self).calls_since(old(self)) == projector_calls(mode, outcome),
    {
        let ghost h0 = self.history@;
        let ghost base = self.calls@;
        let matrix = self.native_outcome_projector(outcome);
        let tensor = self.allocate_complex(matrix.len(), "branch projector")?;
        self.api.copy_to_device(tensor, &matrix)?;
        let ghost h1 = self.history@;
        let operator = self.create_network_operator();
        proof { lemma_grows_trans(h0, h1, self.history@); }
        let operator = operator?;
        let factor_modes = vec![vec![mode]];
        let factor_tensors = vec![tensor];
        self.native_append_product(operator, &factor_modes, &factor_tensors)?;
        let ghost h2 = self.history@;
        let expectation = self.create_expectation(operator);
        proof { lemma_grows_trans(h0, h2, self.history@); }
        let expectation = expectation?;
        self.native_configure_hyper_samples(expectation, EXPECTATION_HYPER_SAMPLES)?;
        let ghost h3 = self.history@;
        let workspace = self.create_query_workspace();
        proof { lemma_grows_trans(h0, h3, self.history@); }
        let workspace = workspace?;
        let ghost h4 = self.history@;
        let attached = self.attach_expectation_workspace(
            expectation,
            workspace,
            "property workspace",
            "property device workspace",
            "property workspace",
        );
        proof { lemma_grows_trans(h0, h4, self.history@); }
        attached?;
        let values = self.native_compute_expectation(expectation, workspace)?;
        self.native_synchronize()?;
        proof {
            assert(self.calls@.subrange(base.len() as int, self.calls@.len() as int) =~= projector_calls(mode, outcome));
        }
        Ok(values)
    }

    /// The expectation of the projector onto `outcome` of qubit `mode`,
    /// computed in a Query lifecycle that is closed again whatever happens;
    /// execution and cleanup failures are both kept.
    pub fn execute_projector_expectation(&mut self, mode: i32, outcome: SelectedBranch) -> (r: Result<
        A::Expectation,
        SimulationError,
    >)
        requires
            old(self).ready(),
        ensures
            stops_at_failed_barrier(final(self).calls_since(old(self))),
            r is Ok ==> barriers_held(final(self).calls_since(old(self))),
            final(self).ready(),
            final(self).same_session(old(self)),
            old(self).owns_query() ==> (r matches Err(SimulationError::InvalidCircuit { reason })
                && reason@ == "this replay already owns a Query lifecycle"@) && final(self).history()
                == old(self).history(),
            !old(self).owns_query() ==> !final(self).owns_query(),
            final(self).extends_calls(old(self)),
            !old(self).owns_query() ==> query_lifecycle_order(released(final(self).steps_since(old(self)))),
            !old(self).owns_query() ==> (cleanup_outcome(final(self).steps_since(old(self))) matches Err(cleanup)
                ==> r == Err::<A::Expectation, SimulationError>(cleanup) || (r matches Err(
                SimulationError::ExecutionAndCleanupFailed { cleanup: kept, .. },
            ) && *kept == cleanup)),
            !old(self).owns_query() && r is Ok ==> cleanup_outcome(final(self).steps_since(old(self))) is Ok,
            r is Ok ==> final(self).calls_since(old(self)) == projector_calls(mode, outcome),
    {
        if self.network_operator.is_some() || self.expectation.is_some() || self.query_workspace.is_some() {
            return Err(SimulationError::InvalidCircuit {
                reason: String::from_str("this replay already owns a Query lifecycle"),
            });
        }
        let execution = self.projector_expectation_steps(mode, outcome);
        let ghost mid = *self;
        let cleanup = self.close_query_lifecycle();
        proof {
            let acquired = mid.history@.subrange(old(self).history@.len() as int, mid.history@.len() as int);
            let cleaning = self.history@.subrange(mid.history@.len() as int, self.history@.len() as int);
            assert(self.history@.subrange(old(self).history@.len() as int, self.history@.len() as int) =~= acquired
                + cleaning) by {
                assert forall|m: int| 0 <= m < mid.history@.len() implies self.history@[m] == mid.history@[m] by {
                    assert(self.history@.subrange(0, mid.history@.len() as int)[m] == self.history@[m]);
                }
            }
            lemma_released_after_acquisitions(acquired, cleaning);
            lemma_failure_after_acquisitions(acquired, cleaning);
            assert(released(cleaning) == optional(query_workspace_resource(mid.query_workspace)) + optional(
                expectation_resource(mid.expectation),
            ) + optional(operator_resource(mid.network_operator)));
        }
        combine_execution_and_cleanup(execution, cleanup)
    }

    /// The outcome masses of qubit `mode`, from the expectations of its two
    /// projectors.
    fn compute_branch_masses(&mut self, mode: u32) -> (r: Result<A::Masses, SimulationError>)
        requires
            old(self).ready(),
        ensures
            stops_at_failed_barrier(final(self).calls_since(old(self))),
            r is Ok ==> barriers_held(final(self).calls_since(old(self))),
            final(self).ready(),
            final(self).same_session(old(self)),
            !old(self).owns_query() ==> !final(self).owns_query(),
            mode > i32::MAX ==> (r matches Err(SimulationError::InvalidCircuit { reason }) && reason@ == "qubit "@
                + decimal(mode as nat) + " does not fit the native mode identifier"@) && *final(self) == *old(
                self,
            ),
            final(self).extends_calls(old(self)),
            r is Ok ==> final(self).calls_since(old(self)) == projector_calls(mode as i32, SelectedBranch::Zero)
                + projector_calls(mode as i32, SelectedBranch::One),
    {
        let native_mode = mode_id(mode)?;
        let ghost c0 = self.calls@;
        let zero = self.execute_projector_expectation(native_mode, SelectedBranch::Zero)?;
        let ghost c1 = self.calls@;
        let one = self.execute_projector_expectation(native_mode, SelectedBranch::One);
        proof { lemma_calls_concat(c0, c1, self.calls@); }
        let one = one?;
        self.api.branch_masses(zero, one)
    }

    /// Projects qubit `mode` onto the selected outcome, renormalized.
    fn apply_projection(&mut self, mode: u32, selected: SelectedBranch, masses: &A::Masses) -> (r: Result<
        (),
        SimulationError,
    >)
        requires
            old(self).ready(),
        ensures
            stops_at_failed_barrier(final(self).calls_since(old(self))),
            r is Ok ==> barriers_held(final(self).calls_since(old(self))),
            final(self).ready(),
            final(self).same_session(old(self)),
            final(self).owns_query() == old(self).owns_query(),
            final(self).extends_calls(old(self)),
            r is Ok ==> final(self).calls_since(old(self)) == seq![
                NativeCall::ProjectorUploaded { selected, normalized: true },
                NativeCall::ProjectionApplied { mode: mode as i32 },
            ],
    {
        let ghost base = self.calls@;
        let projector = self.native_normalized_projector(masses, selected)?;
        let native_mode = mode_id(mode)?;
        let tensor = self.allocate_complex(projector.len(), "projection operator")?;
        self.api.copy_to_device(tensor, &projector)?;
        let modes = vec![native_mode];
        let applied = self.native_apply_projection(&modes, tensor);
        proof {
            assert(self.calls@.subrange(base.len() as int, self.calls@.len() as int) =~= seq![
                NativeCall::ProjectorUploaded { selected, normalized: true },
                NativeCall::ProjectionApplied { mode: mode as i32 },
            ]);
        }
        applied
    }

    /// Runs `initial`, captures it, measures the masses of the requested
    /// qubit, projects onto the selected outcome (refusing a branch without
    /// mass before anything is mutated), materializes and captures the
    /// projected state, runs `continuation` on it, materializes that, and
    /// evaluates the Query. Each stage runs only after the previous one
    /// succeeded.
    #[verifier::loop_isolation(false)]
    #[verifier::rlimit(50)]
    pub fn execute_branch(
        &mut self,
        initial: &Circuit,
        request: BranchRequest,
        continuation: &Circuit,
        query: &AdjacentZQuery,
    ) -> (r: Result<BranchOutcome<A>, SimulationError>)
        requires
            old(self).ready(),
        ensures
            stops_at_failed_barrier(final(self).calls_since(old(self))),
            r is Ok ==> barriers_held(final(self).calls_since(old(self))),
            final(self).ready(),
            final(self).same_session_checks_aside(old(self)),
            final(self).mass_check_log() == old(self).mass_check_log() || final(self).mass_check_log() == old(
                self,
            ).mass_check_log().push(true) || final(self).mass_check_log() == old(self).mass_check_log().push(false),
            r is Ok ==> final(self).mass_check_log() == old(self).mass_check_log().push(true),
            final(self).mass_check_log() == old(self).mass_check_log().push(false) ==> (r matches Err(
                SimulationError::InvalidCircuit { reason },
            ) && reason@ == "cannot project onto zero-mass branch before mutation"@) && final(self).calls_since(
                old(self),
            ).len() >= 11 && final(self).calls_since(old(self)).last() == (NativeCall::MassChecked { positive: false })
                && final(self).calls_since(old(self)).subrange(
                final(self).calls_since(old(self)).len() - 11,
                final(self).calls_since(old(self)).len() - 1,
            ) == projector_calls(request.mode as i32, SelectedBranch::Zero) + projector_calls(
                request.mode as i32,
                SelectedBranch::One,
            ),
            r matches Ok(outcome) ==> {
                &&& valid_state_report(
                    &outcome.initial_state.report,
                    old(self).requested_sites(),
                    old(self).execution_policy(),
                )
                &&& valid_state_report(
                    &outcome.post_projection_state.report,
                    old(self).requested_sites(),
                    old(self).execution_policy(),
                )
                &&& valid_state_report(
                    &outcome.continuation_state.report,
                    old(self).requested_sites(),
                    old(self).execution_policy(),
                )
                &&& outcome.initial_state.amplitudes is Some
                &&& outcome.post_projection_state.amplitudes is Some
                &&& outcome.continuation_state.amplitudes is Some
                &&& outcome.request == request
                &&& outcome.query.hyper_samples == EXPECTATION_HYPER_SAMPLES
                &&& accepted_workspace(outcome.query.workspace, old(self).execution_policy())
                &&& request.mode <= i32::MAX
                &&& query.width == old(self).width()
            },
            final(self).extends_calls(old(self)),
            r is Ok ==> exists|at: int| branch_calls_at(final(self).calls_since(old(self)), at, request),
    {
        proof {
            assert(old(self).mass_checks@.push(false) != old(self).mass_checks@) by {
                assert(old(self).mass_checks@.push(false).len() != old(self).mass_checks@.len());
            }
            assert(old(self).mass_checks@.push(true) != old(self).mass_checks@.push(false)) by {
                assert(old(self).mass_checks@.push(true).last() != old(self).mass_checks@.push(false).last());
            }
        }
        let initial_state = self.execute(initial, StateReadout::FullAmplitudes)?;
        self.capture_current_state()?;
        let ghost c0 = self.calls@;
        let masses = self.compute_branch_masses(request.mode);
        proof { lemma_calls_concat(old(self).calls@, c0, self.calls@); lemma_segment_barriers(old(self).calls@, c0, self.calls@); }
        let masses = masses?;
        let ghost c1 = self.calls@;
        let positive = self.native_mass_check(&masses, request.selected);
        proof {
            lemma_calls_concat(old(self).calls@, c1, self.calls@);
            let previous = c1.subrange(old(self).calls@.len() as int, c1.len() as int);
            assert(self.calls@.subrange(old(self).calls@.len() as int, self.calls@.len() as int) =~= previous.push(
                NativeCall::MassChecked { positive },
            ));
            lemma_held_push(previous, NativeCall::MassChecked { positive });
        }
        self.mass_checks = Ghost(self.mass_checks@.push(positive));
        if !positive {
            proof {
                let calls = self.calls@.subrange(old(self).calls@.len() as int, self.calls@.len() as int);
                assert(calls.subrange(calls.len() - 11, calls.len() - 1) =~= c1.subrange(c0.len() as int, c1.len() as int))
                    by {
                    assert forall|k: int| 0 <= k < 10 implies calls.subrange(calls.len() - 11, calls.len() - 1)[k]
                        == c1.subrange(c0.len() as int, c1.len() as int)[k] by {
                        assert(self.calls@.subrange(0, c1.len() as int)[c0.len() + k] == self.calls@[c0.len() + k]);
                    }
                }
            }
            return Err(SimulationError::InvalidCircuit {
                reason: String::from_str("cannot project onto zero-mass branch before mutation"),
            });
        }
        let probability = self.api.probability(&masses, request.selected)?;
        let log_probability = self.api.log_probability(&masses, request.selected)?;
        let ghost c2 = self.calls@;
        let projected = self.apply_projection(request.mode, request.selected, &masses);
        proof { lemma_calls_concat(old(self).calls@, c2, self.calls@); lemma_segment_barriers(old(self).calls@, c2, self.calls@); }
        projected?;
        let ghost c3 = self.calls@;
        proof {
            let at = c1.len() - old(self).calls@.len();
            let calls = c3.subrange(old(self).calls@.len() as int, c3.len() as int);
            assert(calls.subrange(at - 10, at) =~= projector_calls(request.mode as i32, SelectedBranch::Zero)
                + projector_calls(request.mode as i32, SelectedBranch::One)) by {
                assert forall|k: int| 0 <= k < 10 implies calls.subrange(at - 10, at)[k] == c1.subrange(
                    c0.len() as int,
                    c1.len() as int,
                )[k] by {
                    assert(c3.subrange(0, c1.len() as int)[c0.len() + k] == c3[c0.len() + k]);
                    assert(c2.subrange(0, c1.len() as int)[c0.len() + k] == c2[c0.len() + k]);
                }
            }
            assert(branch_calls_at(calls, at, request));
        }
        let post_projection_state = self.materialize_current_state(StateReadout::FullAmplitudes);
        proof { lemma_calls_concat(old(self).calls@, c3, self.calls@); lemma_segment_barriers(old(self).calls@, c3, self.calls@); }
        let post_projection_state = post_projection_state?;
        self.capture_current_state()?;
        let gates = continuation.gates();
        let mut i: usize = 0;
        let ghost c4 = self.calls@;
        while i < gates.len()
            invariant
                self.ready(),
                self.same_session_checks_aside(old(self)),
                self.mass_checks@ == old(self).mass_checks@.push(true),
                self.calls == c4,
                i <= gates@.len(),
            decreases gates@.len() - i,
        {
            self.register_gate(gates[i])?;
            i = i + 1;
        }
        let continuation_state = self.materialize_current_state(StateReadout::FullAmplitudes);
        proof { lemma_calls_concat(old(self).calls@, c4, self.calls@); lemma_segment_barriers(old(self).calls@, c4, self.calls@); }
        let continuation_state = continuation_state?;
        let ghost c5 = self.calls@;
        let query_result = self.execute_query(query);
        proof { lemma_calls_concat(old(self).calls@, c5, self.calls@); lemma_segment_barriers(old(self).calls@, c5, self.calls@); }
        let query_result = query_result?;
        proof {
            let at = c1.len() - old(self).calls@.len();
            let before = c3.subrange(old(self).calls@.len() as int, c3.len() as int);
            let calls = self.calls@.subrange(old(self).calls@.len() as int, self.calls@.len() as int);
            lemma_calls_concat(old(self).calls@, c3, self.calls@);
            assert(calls.subrange(0, before.len() as int) =~= before);
            assert(calls.subrange(at - 10, at) =~= before.subrange(at - 10, at));
            assert(calls[at] == before[at]);
            assert(calls[at + 1] == before[at + 1]);
            assert(calls[at + 2] == before[at + 2]);
            assert(branch_calls_at(calls, at, request));
            assert(calls == self.calls_since(old(self)));
            assert(branch_calls_at(self.calls_since(old(self)), at, request));
        }
        Ok(BranchOutcome {
            initial_state,
            post_projection_state,
            continuation_state,
            query: query_result,
            request,
            masses,
            probability,
            log_probability,
        })
    }
}

/// The native mode of a sampled qubit of a `qubit_count`-qubit circuit, or
/// why it has none.
pub open spec fn sampled_mode(qubit: usize, qubit_count: u32) -> Result<i32, Seq<char>> {
    if qubit > u32::MAX {
        Err("qubit "@ + decimal(qubit as nat) + " does not fit the native mode identifier"@)
    } else if qubit >= qubit_count {
        Err(outside_message(qubit as u32, qubit_count))
    } else if qubit > i32::MAX {
        Err("qubit "@ + decimal(qubit as nat) + " does not fit the native mode identifier"@)
    } else {
        Ok(qubit as i32)
    }
}

/// The native mode of a sampled qubit.
pub fn sample_mode(qubit: usize, qubit_count: u32) -> (r: Result<i32, SimulationError>)
    ensures
        match sampled_mode(qubit, qubit_count) {
            Ok(mode) => r == Ok::<i32, SimulationError>(mode),
            Err(text) => r matches Err(SimulationError::InvalidCircuit { reason }) && reason@ == text,
        },
{
    if qubit as u64 > u32::MAX as u64 {
        let mut reason = String::from_str("qubit ");
        append_decimal(&mut reason, qubit as u64);
        reason.append(" does not fit the native mode identifier");
        return Err(SimulationError::InvalidCircuit { reason });
    }
    let narrow = qubit as u32;
    if narrow >= qubit_count {
        let mut reason = String::from_str("qubit ");
        append_decimal(&mut reason, narrow as u64);
        reason.append(" is outside a ");
        append_decimal(&mut reason, qubit_count as u64);
        reason.append("-qubit circuit");
        return Err(SimulationError::InvalidCircuit { reason });
    }
    mode_id(narrow)
}

impl<'a, A: ReplayApi> Replay<'a, A> {
    /// The sampling steps after the sampler is prepared: the recommended
    /// workspace (positive, within the policy and the free memory, 256-byte
    /// aligned) is allocated and attached, then the shots are drawn.
    fn sampler_steps(
        &mut self,
        sampler: &mut PreparedSampler<A>,
        request: &SamplingRequest,
        free_before_bytes: usize,
    ) -> (r: Result<Vec<i64>, SimulationError>)
        where A: SamplerApi,
        requires
            old(self).ready(),
            old(sampler).is_live(),
        ensures
            final(self).ready(),
            final(self).same_session(old(self)),
            final(self).owns_query() == old(self).owns_query(),
            final(self).calls == old(self).calls,
            final(self).operator_modes == old(self).operator_modes,
    {
        let workspace = self.workspace.unwrap();
        let workspace_bytes = self.api.workspace_size(self.handle, workspace)?;
        let workspace_size = accepted_recommendation(
            workspace_bytes,
            false,
            "sampler workspace",
            "sampler device workspace",
        )?;
        validate_workspace_size(
            workspace_size as u64,
            self.policy.maximum_workspace_bytes,
            free_before_bytes as u64,
        )?;
        let scratch = self.allocate_bytes(workspace_size, "sampler device workspace")?;
        check_alignment(scratch, "sampler workspace")?;
        self.api.set_workspace(self.handle, workspace, scratch, workspace_bytes)?;
        sampler.sample(request, workspace, self.stream)
    }

    /// Runs `circuit`, materializes its MPS (metadata only), and draws the
    /// request's shots of the given qubits from it with a sampler that is
    /// destroyed again whatever happens.
    pub fn sample_qubits(
        &mut self,
        circuit: &Circuit,
        sampled_qubits: &Vec<usize>,
        request: &SamplingRequest,
    ) -> (r: Result<Vec<i64>, SimulationError>)
        where A: SamplerApi,
        requires
            old(self).ready(),
        ensures
            stops_at_failed_barrier(final(self).calls_since(old(self))),
            r is Ok ==> barriers_held(final(self).calls_since(old(self))),
            r is Ok ==> gates_applied(final(self).applied_modes(), old(self).applied_modes(), circuit.gate_list()),
            final(self).ready(),
            final(self).same_session(old(self)),
            final(self).owns_query() == old(self).owns_query(),
            r is Ok ==> forall|j: int| 0 <= j < sampled_qubits@.len() ==> #[trigger] sampled_mode(
                sampled_qubits@[j],
                circuit.width(),
            ) is Ok,
            final(self).extends_calls(old(self)),
            r is Ok ==> exists|workspace: WorkspaceReport| materialized_calls(
                final(self).calls_since(old(self)).subrange(0, 6),
                workspace,
                old(self).execution_policy().maximum_workspace_bytes,
                old(self).requested_sites().len(),
                StateReadout::MetadataOnly,
            ),
            r is Ok ==> final(self).calls_since(old(self)).len() == 8 && final(self).calls_since(old(self))[6] == (
            NativeCall::SamplerCreated { modes: sampled_qubits@.len() as usize })
                && final(self).calls_since(old(self))[7] == NativeCall::SamplerDestroyed,
    {
        self.finalize_initial(circuit)?;
        proof { self.lemma_gates_applied(old(self), circuit); }
        let state = self.materialize_current_state(StateReadout::MetadataOnly)?;
        let ghost materialized = self.calls@;
        let ghost applied = self.operator_modes;
        let qubit_count = circuit.qubit_count();
        let mut modes: Vec<i32> = Vec::new();
        let mut k: usize = 0;
        while k < sampled_qubits.len()
            invariant
                self.ready(),
                self.same_session(old(self)),
                self.owns_query() == old(self).owns_query(),
                self.calls@ == materialized,
                self.operator_modes == applied,
                self.extends_calls(old(self)),
                barriers_held(self.calls_since(old(self))),
                k <= sampled_qubits@.len(),
                modes@.len() == k,
                forall|j: int| 0 <= j < k ==> sampled_mode(sampled_qubits@[j], qubit_count)
                    == Ok::<i32, Seq<char>>(#[trigger] modes@[j]),
            decreases sampled_qubits@.len() - k,
        {
            let mode = sample_mode(sampled_qubits[k], qubit_count)?;
            modes.push(mode);
            k = k + 1;
        }
        assert forall|j: int| 0 <= j < sampled_qubits@.len() implies #[trigger] sampled_mode(
            sampled_qubits@[j],
            circuit.width(),
        ) is Ok by {
            assert(sampled_mode(sampled_qubits@[j], qubit_count) == Ok::<i32, Seq<char>>(modes@[j]));
        }
        let (free_before_bytes, _) = self.api.memory_info()?;
        let context = SamplerContext {
            handle: self.handle,
            state: self.state.unwrap(),
            workspace: self.workspace.unwrap(),
            stream: self.stream,
            maximum_workspace_bytes: self.policy.maximum_workspace_bytes,
        };
        let mut sampler = self.native_create_sampler(context, &modes, request)?;
        let execution = self.sampler_steps(&mut sampler, request, free_before_bytes);
        let cleanup = self.native_close_sampler(&mut sampler);
        proof {
            assert(self.calls@ =~= materialized + seq![
                NativeCall::SamplerCreated { modes: sampled_qubits@.len() as usize },
                NativeCall::SamplerDestroyed,
            ]);
            let calls = self.calls_since(old(self));
            assert(calls.subrange(0, 6) =~= materialized.subrange(old(self).calls@.len() as int, materialized.len() as int));
            assert(materialized_calls(
                calls.subrange(0, 6),
                state.report.workspace,
                old(self).execution_policy().maximum_workspace_bytes,
                old(self).requested_sites().len(),
                StateReadout::MetadataOnly,
            ));
        }
        combine_execution_and_cleanup(execution, cleanup)
    }

    /// Samples every qubit of the circuit and checks the output is a
    /// shot-major matrix of bits.
    pub fn sample_full_bitstrings(&mut self, circuit: &Circuit, request: &SamplingRequest) -> (r: Result<
        FullBitstringSamples,
        SimulationError,
    >)
        where A: SamplerApi,
        requires
            old(self).ready(),
        ensures
            final(self).ready(),
            final(self).same_session(old(self)),
            r matches Ok(samples) ==> samples.spec_width() == old(self).width(),
    {
        let mut sampled: Vec<usize> = Vec::new();
        let mut q: usize = 0;
        while q < self.qubit_count
            invariant
                q <= self.qubit_count,
                sampled@.len() == q,
            decreases self.qubit_count - q,
        {
            sampled.push(q);
            q = q + 1;
        }
        let output = self.sample_qubits(circuit, &sampled, request)?;
        FullBitstringSamples::new(sampled.len(), output)
    }
}

} // verus!
