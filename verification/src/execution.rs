//! Numerical execution of a network whose path was searched or imported:
//! workspace sizing and allocation within limits, resident inputs, bindings,
//! the contraction itself, and release. Preparation never searches.

use vstd::prelude::*;
use vstd::multiset::*;
use vstd::string::*;
use crate::contraction::{buffer_bytes, check_limit, mode_dimension, native_bytes, NativeMetadata, NativeTensor};
use crate::error::{combine_execution_and_cleanup, SimulationError};
use crate::network::{ContractionApi, ContractionResources};
use crate::replay::{
    device_memory, freeing_order, held, lemma_live_acquired, lemma_live_released, live, workspace_resource,
    ReplayEvent, Resource,
};
use crate::session::SessionApi;

verus! {

broadcast use vstd::multiset::group_multiset_axioms;

/// Where workspace memory lives.
#[derive(Clone, Copy, Debug, PartialEq, Eq, Structural)]
pub enum MemorySpace {
    Device,
    Host,
}

/// What workspace memory is for.
#[derive(Clone, Copy, Debug, PartialEq, Eq, Structural)]
pub enum WorkspaceKind {
    Scratch,
    Cache,
}

/// Which workspace size the library is asked for.
#[derive(Clone, Copy, Debug, PartialEq, Eq, Structural)]
pub enum WorkspacePreference {
    Minimum,
    Recommended,
}

/// Whether a resident input may be replaced later.
#[derive(Clone, Copy, Debug, PartialEq, Eq, Structural)]
pub enum InputMutability {
    Immutable,
    Mutable,
}

/// Memory attached to the workspace: where, for what, and how many bytes
/// (zero detaches).
#[derive(Clone, Copy, Debug, PartialEq, Eq, Structural)]
pub struct Attachment {
    pub space: MemorySpace,
    pub kind: WorkspaceKind,
    pub bytes: i64,
}

/// What preparation attaches, in order: the allocated device scratch, the
/// host scratch when its minimum is positive, then both caches cleared.
pub open spec fn scratch_attachments(report: ResourceReport) -> Seq<Attachment> {
    seq![Attachment {
        space: MemorySpace::Device,
        kind: WorkspaceKind::Scratch,
        bytes: report.device_scratch_allocated->0 as i64,
    }] + (if report.host_scratch_minimum->0 > 0 {
        seq![Attachment {
            space: MemorySpace::Host,
            kind: WorkspaceKind::Scratch,
            bytes: report.host_scratch_minimum->0 as i64,
        }]
    } else {
        Seq::empty()
    }) + seq![
        Attachment { space: MemorySpace::Device, kind: WorkspaceKind::Cache, bytes: 0 },
        Attachment { space: MemorySpace::Host, kind: WorkspaceKind::Cache, bytes: 0 },
    ]
}

/// Accepts the four scratch sizes only if each recommendation is at least
/// its minimum.
pub fn check_recommendations(
    device_minimum: usize,
    device_recommended: usize,
    host_minimum: usize,
    host_recommended: usize,
) -> (r: Result<(), SimulationError>)
    ensures
        device_recommended < device_minimum || host_recommended < host_minimum ==> (r matches Err(
            SimulationError::InvalidNativeResult { reason },
        ) && reason@ == "workspace recommendation is smaller than its minimum"@),
        !(device_recommended < device_minimum || host_recommended < host_minimum) ==> r is Ok,
{
    if device_recommended < device_minimum || host_recommended < host_minimum {
        return Err(unexpected("workspace recommendation is smaller than its minimum"));
    }
    Ok(())
}

/// One native call of an execution.
#[derive(Clone, Copy, Debug, PartialEq, Eq, Structural)]
pub enum ExecutionCall {
    /// A resident input was bound to this slot.
    InputBound { slot: usize },
    /// The contraction ran.
    Contracted,
    /// The stream was synchronized.
    Synchronized,
}

/// Whether `after` is `before` followed by input bindings only, then the
/// contraction and a barrier.
pub open spec fn bound_then_contracted(after: Seq<ExecutionCall>, before: Seq<ExecutionCall>) -> bool {
    &&& before.len() + 2 <= after.len()
    &&& after.subrange(0, before.len() as int) == before
    &&& forall|i: int| before.len() <= i < after.len() - 2 ==> #[trigger] after[i] is InputBound
    &&& after[after.len() - 2] == ExecutionCall::Contracted
    &&& after[after.len() - 1] == ExecutionCall::Synchronized
}

/// Upper bounds on the scratch memory preparation may allocate.
#[derive(Clone, Copy, Debug, PartialEq, Eq, Structural)]
pub struct ExecutionLimits {
    pub device_scratch_bytes: Option<usize>,
    pub host_scratch_bytes: Option<usize>,
}

/// What an executable contraction observed and allocated.
#[derive(Clone, Copy, Debug, PartialEq, Eq, Structural)]
pub struct ResourceReport {
    pub output_bytes: Option<usize>,
    pub resident_input_bytes: Option<usize>,
    pub resident_input_count: Option<usize>,
    pub selected_input_bytes: Option<usize>,
    pub selected_input_count: Option<usize>,
    pub device_scratch_minimum: Option<usize>,
    pub device_scratch_recommended: Option<usize>,
    pub device_scratch_allocated: Option<usize>,
    pub host_scratch_minimum: Option<usize>,
    pub host_scratch_recommended: Option<usize>,
    pub host_scratch_allocated: Option<usize>,
    pub owned_device_bytes: Option<usize>,
    pub device_cache_recommended: Option<usize>,
    pub host_cache_recommended: Option<usize>,
}

/// The scratch a prepared contraction reports: the minimum is at most the
/// recommendation in each memory space, at least 256 bytes and exactly the
/// device minimum otherwise are allocated on the device, the host minimum is
/// allocated when positive, and both stay within the limits.
pub open spec fn scratch_within(report: ResourceReport, limits: ExecutionLimits) -> bool {
    &&& report.device_scratch_minimum matches Some(dmin)
    &&& report.device_scratch_recommended matches Some(drec)
    &&& report.host_scratch_minimum matches Some(hmin)
    &&& report.host_scratch_recommended matches Some(hrec)
    &&& dmin <= drec
    &&& hmin <= hrec
    &&& report.device_scratch_allocated == Some(if dmin >= 256 { dmin } else { 256usize })
    &&& limits.device_scratch_bytes matches Some(m) ==> report.device_scratch_allocated->0 <= m
    &&& limits.host_scratch_bytes matches Some(m) ==> hmin <= m
    &&& hmin > 0 ==> report.host_scratch_allocated == Some(hmin)
}

/// The report before anything is allocated, resident or observed.
pub open spec fn initial_report() -> ResourceReport {
    ResourceReport {
        output_bytes: None,
        resident_input_bytes: Some(0),
        resident_input_count: Some(0),
        selected_input_bytes: None,
        selected_input_count: None,
        device_scratch_minimum: None,
        device_scratch_recommended: None,
        device_scratch_allocated: Some(0),
        host_scratch_minimum: None,
        host_scratch_recommended: None,
        host_scratch_allocated: Some(0),
        owned_device_bytes: Some(0),
        device_cache_recommended: None,
        host_cache_recommended: None,
    }
}

impl ResourceReport {
    /// Nothing allocated or resident yet; nothing observed.
    pub fn empty() -> (report: ResourceReport)
        ensures
            report == initial_report(),
    {
        ResourceReport {
            output_bytes: None,
            resident_input_bytes: Some(0),
            resident_input_count: Some(0),
            selected_input_bytes: None,
            selected_input_count: None,
            device_scratch_minimum: None,
            device_scratch_recommended: None,
            device_scratch_allocated: Some(0),
            host_scratch_minimum: None,
            host_scratch_recommended: None,
            host_scratch_allocated: Some(0),
            owned_device_bytes: Some(0),
            device_cache_recommended: None,
            host_cache_recommended: None,
        }
    }
}

/// Why preparation failed, what it had observed, and the cleanup failure
/// if releasing what it had acquired failed too.
#[derive(Debug)]
pub struct PreparationFailure {
    pub partial: ResourceReport,
    pub error: SimulationError,
    pub cleanup: Option<SimulationError>,
}

/// The identity of a resident input of one executable.
#[derive(Clone, Copy, Debug, PartialEq, Eq, Structural)]
pub struct InputId {
    owner: usize,
    index: usize,
}

impl InputId {
    /// The executable that issued the identity.
    pub closed spec fn issuer(&self) -> usize {
        self.owner
    }

    /// The position of the resident input among the issuer's inputs.
    pub closed spec fn position(&self) -> usize {
        self.index
    }
}

/// Whether a resident input's ordered dimensions are the extents of a slot.
pub open spec fn extents_fit(extents: Seq<i64>, dimensions: Seq<usize>) -> bool {
    extents.len() == dimensions.len() && forall|m: int| 0 <= m < extents.len() ==> extents[m] as int
        == dimensions[m] as int
}

/// Why the input named for `slot` cannot run there: it was issued by another
/// executable, names no resident input, or its dimensions are not the slot's
/// extents.
pub open spec fn slot_rejection(
    owner: usize,
    shapes: Seq<(Seq<usize>, InputMutability)>,
    tensors: Seq<NativeTensor>,
    ids: Seq<InputId>,
    slot: int,
) -> Option<SimulationError> {
    let id = ids[slot];
    if id.issuer() != owner {
        Some(
            SimulationError::InvalidContractionConfiguration {
                reason: "input identity belongs to a different executable",
            },
        )
    } else if id.position() >= shapes.len() {
        Some(SimulationError::InvalidContractionConfiguration { reason: "invalid input identity" })
    } else if !extents_fit(tensors[slot].extents@, shapes[id.position() as int].0) {
        Some(
            SimulationError::InvalidContractionConfiguration {
                reason: "input ordered dimensions do not match the slot",
            },
        )
    } else {
        None
    }
}

/// The distinct resident inputs the first `upto` identities name.
pub open spec fn selected_positions(ids: Seq<InputId>, upto: int) -> Set<usize> {
    Set::new(|p: usize| exists|j: int| 0 <= j < upto && #[trigger] ids[j].position() == p)
}

/// The bytes of the distinct resident inputs the first `upto` identities
/// name, each counted once.
pub open spec fn selected_bytes_of(sizes: Seq<usize>, ids: Seq<InputId>, upto: nat) -> nat
    decreases upto,
{
    if upto == 0 {
        0
    } else {
        let p = ids[upto - 1].position();
        selected_bytes_of(sizes, ids, (upto - 1) as nat) + if selected_positions(ids, upto - 1).contains(p) {
            0nat
        } else {
            sizes[p as int] as nat
        }
    }
}

/// The selected bytes only grow with the prefix.
pub proof fn lemma_selected_bytes_grow(sizes: Seq<usize>, ids: Seq<InputId>, upto: nat, later: nat)
    requires
        upto <= later,
    ensures
        selected_bytes_of(sizes, ids, upto) <= selected_bytes_of(sizes, ids, later),
    decreases later,
{
    if upto < later {
        lemma_selected_bytes_grow(sizes, ids, upto, (later - 1) as nat);
    }
}

/// The rejection of the first of the first `upto` slots that has one.
pub open spec fn first_slot_rejection(
    owner: usize,
    shapes: Seq<(Seq<usize>, InputMutability)>,
    tensors: Seq<NativeTensor>,
    ids: Seq<InputId>,
    upto: nat,
) -> Option<SimulationError>
    decreases upto,
{
    if upto == 0 {
        None
    } else {
        match first_slot_rejection(owner, shapes, tensors, ids, (upto - 1) as nat) {
            Some(error) => Some(error),
            None => slot_rejection(owner, shapes, tensors, ids, upto - 1),
        }
    }
}

/// Once a slot is rejected, every longer prefix reports that rejection.
pub proof fn lemma_first_slot_rejection_stays(
    owner: usize,
    shapes: Seq<(Seq<usize>, InputMutability)>,
    tensors: Seq<NativeTensor>,
    ids: Seq<InputId>,
    upto: nat,
    later: nat,
)
    requires
        upto <= later,
        first_slot_rejection(owner, shapes, tensors, ids, upto) is Some,
    ensures
        first_slot_rejection(owner, shapes, tensors, ids, later) == first_slot_rejection(
            owner,
            shapes,
            tensors,
            ids,
            upto,
        ),
    decreases later,
{
    if upto < later {
        lemma_first_slot_rejection_stays(owner, shapes, tensors, ids, upto, (later - 1) as nat);
    }
}

/// Why an input of these dimensions and value count cannot be resident, if
/// it cannot: the shape checks of `validate_shape`.
pub open spec fn shape_rejection(dimensions: Seq<usize>, value_count: nat) -> Option<SimulationError> {
    match input_elements(dimensions) {
        Err(error) => Some(error),
        Ok(n) => if n != value_count {
            Some(
                SimulationError::InvalidContractionConfiguration {
                    reason: "coefficient count does not match input tensor shape",
                },
            )
        } else if n * 16 > usize::MAX {
            Some(SimulationError::ResourceSizeOverflow { resource: "contraction buffer" })
        } else {
            None
        },
    }
}

/// Device memory and workspace calls.
pub trait MemoryWorkspaceApi {
    /// A complex value of a host buffer.
    type Element;

    /// Free and total device memory in bytes.
    fn memory_info(&self) -> Result<(usize, usize), SimulationError>;

    fn allocate(&self, bytes: usize) -> Result<u64, SimulationError>;

    fn free(&self, allocation: u64) -> Result<(), SimulationError>;

    fn copy_to_device(&self, destination: u64, source: &Vec<Self::Element>) -> Result<(), SimulationError>;

    fn copy_from_device(&self, source: u64, elements: usize) -> Result<Vec<Self::Element>, SimulationError>;

    fn create_workspace(&self, handle: u64) -> Result<u64, SimulationError>;

    fn destroy_workspace(&self, workspace: u64) -> Result<(), SimulationError>;

    fn workspace_memory_size(
        &self,
        handle: u64,
        workspace: u64,
        preference: WorkspacePreference,
        space: MemorySpace,
        kind: WorkspaceKind,
    ) -> Result<i64, SimulationError>;

    fn set_workspace_memory(
        &self,
        handle: u64,
        workspace: u64,
        space: MemorySpace,
        kind: WorkspaceKind,
        allocation: Option<u64>,
        bytes: i64,
    ) -> Result<(), SimulationError>;
}

/// The calls that prepare and run a contraction.
pub trait ContractionExecutionApi: MemoryWorkspaceApi {
    /// Page-aligned host scratch memory, freed when dropped.
    type HostScratch;

    fn allocate_host_scratch(&self, bytes: usize) -> Result<Self::HostScratch, SimulationError>;

    /// The address of host scratch memory.
    fn host_scratch_address(&self, scratch: &Self::HostScratch) -> u64;

    /// Whether every value is finite.
    fn values_are_finite(&self, values: &Vec<Self::Element>) -> bool;

    fn compute_contraction_workspace(&self, handle: u64, network: u64, info: u64, workspace: u64) -> Result<
        (),
        SimulationError,
    >;

    fn bind_input(&self, handle: u64, network: u64, tensor_id: i64, allocation: u64) -> Result<
        (),
        SimulationError,
    >;

    fn bind_output(&self, handle: u64, network: u64, allocation: u64) -> Result<(), SimulationError>;

    fn prepare_contraction(&self, handle: u64, network: u64, workspace: u64) -> Result<(), SimulationError>;

    /// Contracts every slice into the bound output.
    fn contract(&self, handle: u64, network: u64, workspace: u64, stream: u64) -> Result<(), SimulationError>;
}

fn invalid(reason: &'static str) -> (e: SimulationError)
    ensures
        e == (SimulationError::InvalidContractionConfiguration { reason }),
{
    SimulationError::InvalidContractionConfiguration { reason }
}

fn unexpected(reason: &str) -> (e: SimulationError)
    ensures
        e matches SimulationError::InvalidNativeResult { reason: text } && text@ == reason@,
{
    SimulationError::InvalidNativeResult { reason: String::from_str(reason) }
}

fn overflow() -> (e: SimulationError)
    ensures
        e == (SimulationError::ResourceSizeOverflow { resource: "contraction buffer" }),
{
    SimulationError::ResourceSizeOverflow { resource: "contraction buffer" }
}

/// The number of elements of a tensor with these dimensions, or why it has
/// none: every dimension must be positive and the product must fit `usize`.
pub open spec fn input_elements(dimensions: Seq<usize>) -> Result<nat, SimulationError>
    decreases dimensions.len(),
{
    if dimensions.len() == 0 {
        Ok(1)
    } else {
        match input_elements(dimensions.drop_last()) {
            Err(error) => Err(error),
            Ok(n) => if dimensions.last() == 0 {
                Err(
                    SimulationError::InvalidContractionConfiguration {
                        reason: "input dimensions must be positive",
                    },
                )
            } else if n * dimensions.last() > usize::MAX {
                Err(SimulationError::ResourceSizeOverflow { resource: "contraction buffer" })
            } else {
                Ok((n * dimensions.last()) as nat)
            },
        }
    }
}

/// Checks an input's shape: positive dimensions whose product, and its byte
/// size, fit memory, and one value per element.
pub fn validate_shape(dimensions: &Vec<usize>, value_count: usize) -> (r: Result<usize, SimulationError>)
    ensures
        match input_elements(dimensions@) {
            Err(error) => r == Err::<usize, SimulationError>(error),
            Ok(n) => if n != value_count {
                r == Err::<usize, SimulationError>(
                    SimulationError::InvalidContractionConfiguration {
                        reason: "coefficient count does not match input tensor shape",
                    },
                )
            } else if n * 16 > usize::MAX {
                r == Err::<usize, SimulationError>(
                    SimulationError::ResourceSizeOverflow { resource: "contraction buffer" },
                )
            } else {
                r == Ok::<usize, SimulationError>(n as usize)
            },
        },
{
    let mut elements: usize = 1;
    let mut k: usize = 0;
    assert(dimensions@.subrange(0, 0) =~= Seq::<usize>::empty());
    while k < dimensions.len()
        invariant
            k <= dimensions@.len(),
            input_elements(dimensions@.subrange(0, k as int)) == Ok::<nat, SimulationError>(elements as nat),
        decreases dimensions@.len() - k,
    {
        let dimension = dimensions[k];
        assert(dimensions@.subrange(0, k as int + 1).drop_last() =~= dimensions@.subrange(0, k as int));
        if dimension == 0 {
            proof { lemma_elements_stop(dimensions@, k as int + 1); }
            return Err(invalid("input dimensions must be positive"));
        }
        elements = match elements.checked_mul(dimension) {
            Some(product) => product,
            None => {
                proof { lemma_elements_stop(dimensions@, k as int + 1); }
                return Err(overflow());
            },
        };
        k = k + 1;
    }
    assert(dimensions@.subrange(0, k as int) =~= dimensions@);
    if elements != value_count {
        return Err(invalid("coefficient count does not match input tensor shape"));
    }
    buffer_bytes(elements)?;
    Ok(elements)
}

proof fn lemma_elements_stop(dimensions: Seq<usize>, k: int)
    requires
        0 < k <= dimensions.len(),
        input_elements(dimensions.subrange(0, k)) is Err,
    ensures
        input_elements(dimensions) == input_elements(dimensions.subrange(0, k)),
    decreases dimensions.len() - k,
{
    if k < dimensions.len() {
        assert(dimensions.drop_last().subrange(0, k) =~= dimensions.subrange(0, k));
        lemma_elements_stop(dimensions.drop_last(), k);
    } else {
        assert(dimensions.subrange(0, k) =~= dimensions);
    }
}

/// A contiguous column-major input: ordered dimensions and values.
pub struct TensorInput<'a, V> {
    pub dimensions: &'a Vec<usize>,
    pub values: &'a Vec<V>,
}

struct ResidentInput {
    dimensions: Vec<usize>,
    allocation: u64,
    bytes: usize,
    mutability: InputMutability,
}

/// A prepared contraction: its network, workspace, output buffer and
/// resident inputs on one session.
pub struct CuTensorNetExecutableContraction<'s, A, P> where
    A: SessionApi + ContractionApi + MemoryWorkspaceApi + ContractionExecutionApi,
 {
    resources: Option<ContractionResources<'s, A>>,
    plan: P,
    workspace: Option<u64>,
    allocations: Vec<u64>,
    host_scratch: Option<<A as ContractionExecutionApi>::HostScratch>,
    output: Option<u64>,
    report: ResourceReport,
    owner: usize,
    inputs: Vec<ResidentInput>,
    bindings: Vec<Option<InputId>>,
    usable: bool,
    history: Ghost<Seq<ReplayEvent>>,
    attachments: Ghost<Seq<Attachment>>,
    calls: Ghost<Seq<ExecutionCall>>,
}

impl<'s, A, P> CuTensorNetExecutableContraction<'s, A, P> where
    A: SessionApi + ContractionApi + MemoryWorkspaceApi + ContractionExecutionApi,
 {
    /// The workspace and device memory held.
    pub closed spec fn owned(&self) -> Multiset<Resource> {
        held(workspace_resource(self.workspace)).add(device_memory(self.allocations@))
    }

    pub closed spec fn history(&self) -> Seq<ReplayEvent> {
        self.history@
    }

    /// The plan the executable was prepared with.
    pub closed spec fn executed_plan(&self) -> P {
        self.plan
    }

    /// The input tensors of the network, one per slot, while it is held.
    pub closed spec fn slot_tensors(&self) -> Seq<NativeTensor> {
        match self.resources {
            Some(resources) => resources.network_topology().tensors(),
            None => Seq::empty(),
        }
    }

    /// The memory attached to the workspace so far, in order.
    pub closed spec fn workspace_attachments(&self) -> Seq<Attachment> {
        self.attachments@
    }

    /// The byte size of each resident input, in registration order.
    pub closed spec fn resident_sizes(&self) -> Seq<usize> {
        self.inputs@.map_values(|input: ResidentInput| input.bytes)
    }

    /// The identity this executable issues its inputs under.
    pub closed spec fn owner_tag(&self) -> usize {
        self.owner
    }

    /// The ordered dimensions and mutability of each resident input, in
    /// registration order.
    pub closed spec fn resident_shapes(&self) -> Seq<(Seq<usize>, InputMutability)> {
        self.inputs@.map_values(|input: ResidentInput| (input.dimensions@, input.mutability))
    }

    /// Whether the network is still held (until release).
    pub closed spec fn is_live(&self) -> bool {
        self.resources is Some
    }

    /// Whether the last operation left the executable usable.
    pub closed spec fn is_usable(&self) -> bool {
        self.usable
    }

    /// The device allocations held, in the order they were made.
    pub closed spec fn allocations(&self) -> Seq<u64> {
        self.allocations@
    }

    /// The number of input slots of the network.
    pub closed spec fn slot_count(&self) -> nat {
        self.bindings@.len()
    }

    /// The resource report.
    pub closed spec fn resource_report(&self) -> ResourceReport {
        self.report
    }

    /// The history leaves live exactly the workspace and memory held, a live
    /// executable's network is intact, and a usable one has its workspace and
    /// output.
    pub closed spec fn wf(&self) -> bool {
        &&& live(self.history@) =~= self.owned()
        &&& self.resources matches Some(r) ==> r.live_network() && self.bindings@.len()
            == r.network_topology().tensors().len()
        &&& self.resources is None ==> self.workspace is None && self.allocations@.len() == 0 && !self.usable
        &&& self.usable ==> self.resources is Some && self.workspace is Some && self.output is Some
            && self.report.output_bytes is Some && self.resources->0.metadata_populated()
        &&& self.report.owned_device_bytes is Some
        &&& self.report.resident_input_bytes is Some
    }

    /// Imports a searched or supplied path into an executable: the path must
    /// be unsliced; the output buffer size is computed from the output
    /// modes; a workspace is created, sized and backed within `limits`; the
    /// output is bound and the contraction prepared. On failure everything
    /// acquired is released and the partial report, the failure and any
    /// cleanup failure are returned. `owner` must identify this executable
    /// among all live ones.
    pub fn prepare(
        resources: ContractionResources<'s, A>,
        plan: P,
        limits: ExecutionLimits,
        owner: usize,
    ) -> (r: Result<Self, PreparationFailure>)
        requires
            resources.live_network(),
        ensures
            !resources.metadata_populated() ==> (r matches Err(failure) && failure.error == SimulationError::InvalidContractionConfiguration {
                    reason: "optimizer metadata has not been populated",
                }),
            r matches Ok(execution) ==> execution.wf() && execution.is_usable() && execution.is_live()
                && execution.executed_plan() == plan && scratch_within(execution.resource_report(), limits)
                && execution.workspace_attachments() == scratch_attachments(execution.resource_report()),
    {
        let count = resources.topology().input_count();
        let mut bindings: Vec<Option<InputId>> = Vec::new();
        let mut k: usize = 0;
        while k < count
            invariant
                k <= count,
                bindings@.len() == k,
            decreases count - k,
        {
            bindings.push(None);
            k = k + 1;
        }
        let history: Ghost<Seq<ReplayEvent>> = Ghost(Seq::empty());
        let mut execution = CuTensorNetExecutableContraction {
            resources: Some(resources),
            plan,
            workspace: None,
            allocations: Vec::new(),
            host_scratch: None,
            output: None,
            report: ResourceReport::empty(),
            owner,
            inputs: Vec::new(),
            bindings,
            usable: false,
            history,
            attachments: Ghost(Seq::empty()),
            calls: Ghost(Seq::empty()),
        };
        proof {
            assert(device_memory(execution.allocations@) =~= Multiset::<Resource>::empty());
        }
        let initialized = execution.initialize(limits);
        if let Err(error) = initialized {
            let cleanup = execution.release();
            let cleanup = match cleanup {
                Ok(()) => None,
                Err(e) => Some(e),
            };
            return Err(PreparationFailure { partial: execution.report, error, cleanup });
        }
        execution.usable = true;
        Ok(execution)
    }

    /// The plan this executable runs.
    pub fn plan(&self) -> (plan: &P)
        ensures
            *plan == self.executed_plan(),
    {
        &self.plan
    }

    /// The resource report.
    pub fn resources(&self) -> (report: ResourceReport)
        ensures
            report == self.resource_report(),
    {
        self.report
    }

    fn ensure_usable(&self) -> (r: Result<(), SimulationError>)
        ensures
            r is Ok <==> self.usable,
            !self.usable ==> r == Err::<(), SimulationError>(SimulationError::UnusableContraction),
    {
        if self.usable {
            Ok(())
        } else {
            Err(SimulationError::UnusableContraction)
        }
    }

    /// The metadata of the prepared path.
    pub fn metadata(&self) -> (r: Result<NativeMetadata, SimulationError>)
        requires
            self.wf(),
        ensures
            !self.is_usable() ==> r == Err::<NativeMetadata, SimulationError>(SimulationError::UnusableContraction),
    {
        self.ensure_usable()?;
        match &self.resources {
            Some(resources) => resources.export(),
            None => Err(SimulationError::UnusableContraction),
        }
    }

    /// The modes of each intermediate of the prepared path.
    pub fn intermediate_modes(&self) -> (r: Result<Vec<Vec<i32>>, SimulationError>)
        requires
            self.wf(),
        ensures
            !self.is_usable() ==> r == Err::<Vec<Vec<i32>>, SimulationError>(SimulationError::UnusableContraction),
    {
        self.ensure_usable()?;
        match &self.resources {
            Some(resources) => resources.intermediate_modes(),
            None => Err(SimulationError::UnusableContraction),
        }
    }

    /// Allocates device memory the executable then owns, keeping the running
    /// total of owned bytes.
    fn allocate(&mut self, bytes: usize) -> (r: Result<u64, SimulationError>)
        requires
            old(self).wf(),
            old(self).resources is Some,
        ensures
            final(self).host_scratch == old(self).host_scratch,
            final(self).attachments == old(self).attachments,
            final(self).calls == old(self).calls,
            final(self).plan == old(self).plan,
            final(self).wf(),
            final(self).resources == old(self).resources,
            final(self).workspace == old(self).workspace,
            final(self).output == old(self).output,
            final(self).usable == old(self).usable,
            final(self).inputs == old(self).inputs,
            final(self).bindings == old(self).bindings,
            final(self).owner == old(self).owner,
            final(self).report == (ResourceReport {
                owned_device_bytes: final(self).report.owned_device_bytes,
                ..old(self).report
            }),
            r is Ok ==> final(self).report.owned_device_bytes->0 == old(self).report.owned_device_bytes->0
                + bytes,
            r is Err ==> final(self).report == old(self).report,
            old(self).report.owned_device_bytes->0 + bytes > usize::MAX ==> r == Err::<u64, SimulationError>(
                SimulationError::ResourceSizeOverflow { resource: "contraction buffer" },
            ) && *final(self) == *old(self),
    {
        let total = match self.report.owned_device_bytes.unwrap().checked_add(bytes) {
            Some(total) => total,
            None => {
                return Err(overflow());
            },
        };
        let session = self.resources.as_ref().unwrap().session();
        let allocation = MemoryWorkspaceApi::allocate(session.api(), bytes)?;
        let ghost allocations = self.allocations@;
        self.allocations.push(allocation);
        let ghost before = self.history@;
        self.history = Ghost(before.push(ReplayEvent::Acquired(Resource::DeviceMemory(allocation))));
        proof {
            lemma_live_acquired(before, Resource::DeviceMemory(allocation));
            assert(self.allocations@.drop_last() =~= allocations);
        }
        self.report.owned_device_bytes = Some(total);
        Ok(allocation)
    }

    /// One workspace size the library reports, which must be nonnegative.
    fn workspace_size(
        &self,
        preference: WorkspacePreference,
        space: MemorySpace,
        kind: WorkspaceKind,
    ) -> (r: Result<usize, SimulationError>)
        requires
            self.wf(),
            self.resources is Some,
            self.workspace is Some,
    {
        let resources = self.resources.as_ref().unwrap();
        let session = resources.session();
        proof { resources.lemma_live_network(); }
        let value = session.api().workspace_memory_size(
            session.handle(),
            self.workspace.unwrap(),
            preference,
            space,
            kind,
        )?;
        if value < 0 || value as u64 > usize::MAX as u64 {
            return Err(unexpected("negative or unaddressable workspace size"));
        }
        Ok(value as usize)
    }

    /// Everything but the attachment log is unchanged.
    closed spec fn only_attached(&self, other: &Self) -> bool {
        &&& self.calls == other.calls
        &&& self.only_logged(other)
    }

    /// Everything but the attachment and call logs is unchanged.
    closed spec fn only_logged(&self, other: &Self) -> bool {
        &&& self.resources == other.resources
        &&& self.plan == other.plan
        &&& self.workspace == other.workspace
        &&& self.allocations == other.allocations
        &&& self.host_scratch == other.host_scratch
        &&& self.output == other.output
        &&& self.report == other.report
        &&& self.owner == other.owner
        &&& self.inputs == other.inputs
        &&& self.bindings == other.bindings
        &&& self.usable == other.usable
        &&& self.history == other.history
    }

    /// The native calls of executions so far, in order.
    pub closed spec fn execution_log(&self) -> Seq<ExecutionCall> {
        self.calls@
    }

    /// Binds the resident input at `allocation` to `slot`, and logs it.
    fn native_bind(&mut self, slot: usize, allocation: u64) -> (r: Result<(), SimulationError>)
        requires
            old(self).wf(),
            old(self).resources is Some,
            slot < old(self).bindings@.len(),
        ensures
            final(self).only_logged(old(self)),
            final(self).attachments == old(self).attachments,
            final(self).calls@ == old(self).calls@.push(ExecutionCall::InputBound { slot }),
    {
        self.calls = Ghost(self.calls@.push(ExecutionCall::InputBound { slot }));
        let resources = self.resources.as_ref().unwrap();
        proof { resources.lemma_live_network(); }
        let session = resources.session();
        let ids = resources.tensor_ids();
        session.api().bind_input(session.handle(), resources.network_handle(), ids[slot], allocation)
    }

    /// Runs the contraction on the stream, and logs it.
    fn native_contract(&mut self) -> (r: Result<(), SimulationError>)
        requires
            old(self).wf(),
            old(self).resources is Some,
            old(self).workspace is Some,
        ensures
            final(self).only_logged(old(self)),
            final(self).attachments == old(self).attachments,
            final(self).calls@ == old(self).calls@.push(ExecutionCall::Contracted),
    {
        self.calls = Ghost(self.calls@.push(ExecutionCall::Contracted));
        let resources = self.resources.as_ref().unwrap();
        proof { resources.lemma_live_network(); }
        let session = resources.session();
        session.api().contract(session.handle(), resources.network_handle(), self.workspace.unwrap(), session.stream())
    }

    /// Waits for the stream, and logs it.
    fn native_synchronize(&mut self) -> (r: Result<(), SimulationError>)
        requires
            old(self).wf(),
            old(self).resources is Some,
        ensures
            final(self).only_logged(old(self)),
            final(self).attachments == old(self).attachments,
            final(self).calls@ == old(self).calls@.push(ExecutionCall::Synchronized),
    {
        self.calls = Ghost(self.calls@.push(ExecutionCall::Synchronized));
        let resources = self.resources.as_ref().unwrap();
        proof { resources.lemma_live_network(); }
        let session = resources.session();
        SessionApi::synchronize_stream(session.api(), session.stream())
    }

    /// Attaches `bytes` of memory at `memory` (none detaches) to the
    /// workspace for `space` and `kind`, and logs the attachment.
    fn native_attach(
        &mut self,
        workspace: u64,
        space: MemorySpace,
        kind: WorkspaceKind,
        memory: Option<u64>,
        bytes: i64,
    ) -> (r: Result<(), SimulationError>)
        requires
            old(self).wf(),
            old(self).resources is Some,
        ensures
            final(self).only_attached(old(self)),
            final(self).attachments@ == old(self).attachments@.push(Attachment { space, kind, bytes }),
    {
        self.attachments = Ghost(self.attachments@.push(Attachment { space, kind, bytes }));
        let resources = self.resources.as_ref().unwrap();
        proof { resources.lemma_live_network(); }
        let session = resources.session();
        session.api().set_workspace_memory(session.handle(), workspace, space, kind, memory, bytes)
    }

    /// Sizes the workspace, checks the sizes (recommendations at least the
    /// minimums, the device scratch of at least 256 bytes and the host
    /// scratch within `limits`), allocates both scratches and attaches them;
    /// caches are disabled.
    fn prepare_workspace(&mut self, limits: ExecutionLimits) -> (r: Result<(), SimulationError>)
        requires
            old(self).host_scratch is None,
            old(self).wf(),
            old(self).resources is Some,
            old(self).workspace is Some,
            !old(self).usable,
        ensures
            final(self).plan == old(self).plan,
            final(self).wf(),
            final(self).resources == old(self).resources,
            final(self).workspace == old(self).workspace,
            final(self).output == old(self).output,
            final(self).report.output_bytes == old(self).report.output_bytes,
            !final(self).usable,
            r is Ok ==> scratch_within(final(self).report, limits),
            r is Ok ==> final(self).attachments@ == old(self).attachments@ + scratch_attachments(final(self).report),
    {
        let resources = self.resources.as_ref().unwrap();
        proof { resources.lemma_live_network(); }
        let session = resources.session();
        let handle = session.handle();
        let workspace = self.workspace.unwrap();
        session.api().compute_contraction_workspace(
            handle,
            resources.network_handle(),
            resources.info_handle(),
            workspace,
        )?;
        let device_minimum = self.workspace_size(
            WorkspacePreference::Minimum,
            MemorySpace::Device,
            WorkspaceKind::Scratch,
        )?;
        self.report.device_scratch_minimum = Some(device_minimum);
        let device_recommended = self.workspace_size(
            WorkspacePreference::Recommended,
            MemorySpace::Device,
            WorkspaceKind::Scratch,
        )?;
        self.report.device_scratch_recommended = Some(device_recommended);
        let host_minimum = self.workspace_size(
            WorkspacePreference::Minimum,
            MemorySpace::Host,
            WorkspaceKind::Scratch,
        )?;
        self.report.host_scratch_minimum = Some(host_minimum);
        let host_recommended = self.workspace_size(
            WorkspacePreference::Recommended,
            MemorySpace::Host,
            WorkspaceKind::Scratch,
        )?;
        self.report.host_scratch_recommended = Some(host_recommended);
        let device_cache = self.workspace_size(
            WorkspacePreference::Recommended,
            MemorySpace::Device,
            WorkspaceKind::Cache,
        )?;
        self.report.device_cache_recommended = Some(device_cache);
        let host_cache = self.workspace_size(
            WorkspacePreference::Recommended,
            MemorySpace::Host,
            WorkspaceKind::Cache,
        )?;
        self.report.host_cache_recommended = Some(host_cache);
        check_recommendations(device_minimum, device_recommended, host_minimum, host_recommended)?;
        let device_bytes = if device_minimum >= 256 { device_minimum } else { 256 };
        check_limit(device_bytes, limits.device_scratch_bytes)?;
        check_limit(host_minimum, limits.host_scratch_bytes)?;
        let native_device_bytes = native_bytes(device_bytes)?;
        let native_host_bytes = native_bytes(host_minimum)?;
        let device = self.allocate(device_bytes)?;
        self.report.device_scratch_allocated = Some(device_bytes);
        let resources = self.resources.as_ref().unwrap();
        let session = resources.session();
        if host_minimum > 0 {
            let scratch = session.api().allocate_host_scratch(host_minimum)?;
            self.host_scratch = Some(scratch);
            self.report.host_scratch_allocated = Some(host_minimum);
        }
        let host_address = match &self.host_scratch {
            Some(host) => Some(session.api().host_scratch_address(host)),
            None => None,
        };
        let ghost start = self.attachments@;
        self.native_attach(workspace, MemorySpace::Device, WorkspaceKind::Scratch, Some(device), native_device_bytes)?;
        if let Some(address) = host_address {
            self.native_attach(workspace, MemorySpace::Host, WorkspaceKind::Scratch, Some(address), native_host_bytes)?;
        }
        self.native_attach(workspace, MemorySpace::Device, WorkspaceKind::Cache, None, 0)?;
        self.native_attach(workspace, MemorySpace::Host, WorkspaceKind::Cache, None, 0)?;
        proof {
            assert(self.attachments@ =~= start + scratch_attachments(self.report));
        }
        Ok(())
    }

    /// Reads the path back, sizes and allocates the output, prepares the
    /// workspace, binds the output and prepares the contraction.
    #[verifier::loop_isolation(false)]
    fn initialize(&mut self, limits: ExecutionLimits) -> (r: Result<(), SimulationError>)
        requires
            old(self).host_scratch is None,
            old(self).wf(),
            old(self).resources is Some,
            old(self).workspace is None,
            old(self).output is None,
            !old(self).usable,
        ensures
            final(self).plan == old(self).plan,
            final(self).wf(),
            final(self).resources == old(self).resources,
            !final(self).usable,
            r is Ok ==> final(self).workspace is Some && final(self).output is Some
                && final(self).report.output_bytes is Some && final(self).resources->0.metadata_populated()
                && scratch_within(final(self).report, limits)
                && final(self).attachments@ == old(self).attachments@ + scratch_attachments(final(self).report),
            !old(self).resources->0.metadata_populated() ==> r == Err::<(), SimulationError>(
                SimulationError::InvalidContractionConfiguration {
                    reason: "optimizer metadata has not been populated",
                },
            ) && *final(self) == *old(self),
    {
        let resources = self.resources.as_ref().unwrap();
        proof { resources.lemma_live_network(); }
        resources.ready()?;
        let metadata = resources.export()?;
        if metadata.slicing.len() != 0 {
            return Err(SimulationError::UnsupportedContraction { reason: "numerical slicing is not qualified" });
        }
        let topology = resources.topology();
        let output_modes = topology.output();
        let mut elements: usize = 1;
        let mut k: usize = 0;
        while k < output_modes.len()
            invariant
                k <= output_modes@.len(),
            decreases output_modes@.len() - k,
        {
            let dimension = match topology.dimension(output_modes[k]) {
                Some(d) => d,
                None => {
                    return Err(unexpected("output mode is not in the network"));
                },
            };
            if dimension < 0 || dimension as u64 > usize::MAX as u64 {
                return Err(overflow());
            }
            elements = match elements.checked_mul(dimension as usize) {
                Some(product) => product,
                None => {
                    return Err(overflow());
                },
            };
            k = k + 1;
        }
        let output_bytes = buffer_bytes(elements)?;
        self.report.output_bytes = Some(output_bytes);
        let session = resources.session();
        let workspace = MemoryWorkspaceApi::create_workspace(session.api(), session.handle())?;
        self.workspace = Some(workspace);
        let ghost before = self.history@;
        self.history = Ghost(before.push(ReplayEvent::Acquired(Resource::Workspace(workspace))));
        proof {
            lemma_live_acquired(before, Resource::Workspace(workspace));
        }
        self.prepare_workspace(limits)?;
        let output = self.allocate(output_bytes)?;
        self.output = Some(output);
        let resources = self.resources.as_ref().unwrap();
        let session = resources.session();
        proof { resources.lemma_live_network(); }
        session.api().bind_output(session.handle(), resources.network_handle(), output)?;
        session.api().prepare_contraction(session.handle(), resources.network_handle(), workspace)?;
        Ok(())
    }

    /// The resident input `id` names, if it belongs to this executable.
    fn input(&self, id: InputId) -> (r: Result<&ResidentInput, SimulationError>)
        ensures
            id.owner != self.owner ==> r == Err::<&ResidentInput, SimulationError>(
                SimulationError::InvalidContractionConfiguration {
                    reason: "input identity belongs to a different executable",
                },
            ),
            id.owner == self.owner && id.index >= self.inputs@.len() ==> r == Err::<
                &ResidentInput,
                SimulationError,
            >(SimulationError::InvalidContractionConfiguration { reason: "invalid input identity" }),
            r matches Ok(input) ==> id.owner == self.owner && id.index < self.inputs@.len() && *input
                == self.inputs@[id.index as int],
            r is Ok <==> id.owner == self.owner && id.index < self.inputs@.len(),
    {
        if id.owner != self.owner {
            return Err(invalid("input identity belongs to a different executable"));
        }
        if id.index >= self.inputs.len() {
            return Err(invalid("invalid input identity"));
        }
        Ok(&self.inputs[id.index])
    }

    /// Uploads a new resident input: its shape must be consistent and its
    /// values finite, and the resident byte and input counts must fit. The
    /// executable is unusable if this fails after it started.
    pub fn register_input(
        &mut self,
        input: TensorInput<<A as MemoryWorkspaceApi>::Element>,
        mutability: InputMutability,
    ) -> (r: Result<InputId, SimulationError>)
        requires
            old(self).wf(),
        ensures
            final(self).wf(),
            !old(self).is_usable() ==> r == Err::<InputId, SimulationError>(SimulationError::UnusableContraction)
                && *final(self) == *old(self),
            final(self).is_usable() <==> r is Ok,
            final(self).owner_tag() == old(self).owner_tag(),
            old(self).is_usable() ==> (shape_rejection(input.dimensions@, input.values@.len()) matches Some(
                error,
            ) ==> r == Err::<InputId, SimulationError>(error)),
            r matches Ok(id) ==> id.issuer() == old(self).owner_tag() && id.position() == old(
                self,
            ).resident_shapes().len() && final(self).resident_shapes() == old(self).resident_shapes().push(
                (input.dimensions@, mutability),
            ) && final(self).resource_report().resident_input_count == Some(
                (old(self).resident_shapes().len() + 1) as usize,
            ),
    {
        self.ensure_usable()?;
        self.usable = false;
        let element_count = validate_shape(input.dimensions, input.values.len())?;
        let resources = self.resources.as_ref().unwrap();
        let session = resources.session();
        proof { resources.lemma_live_network(); }
        if !session.api().values_are_finite(input.values) {
            return Err(invalid("input coefficients must be finite"));
        }
        let bytes = buffer_bytes(element_count)?;
        let resident_bytes = match self.report.resident_input_bytes.unwrap().checked_add(bytes) {
            Some(total) => total,
            None => {
                return Err(overflow());
            },
        };
        if self.inputs.len() == usize::MAX {
            return Err(overflow());
        }
        let resident_count = self.inputs.len() + 1;
        let dimensions = input.dimensions.clone();
        session.bind_device()?;
        let allocation = self.allocate(bytes)?;
        let id = InputId { owner: self.owner, index: self.inputs.len() };
        self.inputs.push(ResidentInput { dimensions, allocation, bytes, mutability });
        self.report.resident_input_bytes = Some(resident_bytes);
        self.report.resident_input_count = Some(resident_count);
        let session = self.resources.as_ref().unwrap().session();
        session.api().copy_to_device(allocation, input.values)?;
        self.usable = true;
        Ok(id)
    }

    /// Overwrites a mutable resident input with values of the same ordered
    /// dimensions.
    pub fn replace_input(&mut self, id: InputId, input: TensorInput<<A as MemoryWorkspaceApi>::Element>) -> (r: Result<
        (),
        SimulationError,
    >)
        requires
            old(self).wf(),
        ensures
            final(self).wf(),
            !old(self).is_usable() ==> r == Err::<(), SimulationError>(SimulationError::UnusableContraction)
                && *final(self) == *old(self),
            final(self).is_usable() <==> r is Ok,
            final(self).owner_tag() == old(self).owner_tag(),
            final(self).resident_shapes() == old(self).resident_shapes(),
            old(self).is_usable() ==> ({
                let shapes = old(self).resident_shapes();
                if id.issuer() != old(self).owner_tag() {
                    r == Err::<(), SimulationError>(
                        SimulationError::InvalidContractionConfiguration {
                            reason: "input identity belongs to a different executable",
                        },
                    )
                } else if id.position() >= shapes.len() {
                    r == Err::<(), SimulationError>(
                        SimulationError::InvalidContractionConfiguration { reason: "invalid input identity" },
                    )
                } else if shapes[id.position() as int].1 != InputMutability::Mutable {
                    r == Err::<(), SimulationError>(
                        SimulationError::InvalidContractionConfiguration {
                            reason: "immutable input cannot be replaced",
                        },
                    )
                } else if shapes[id.position() as int].0 != input.dimensions@ {
                    r == Err::<(), SimulationError>(
                        SimulationError::InvalidContractionConfiguration {
                            reason: "replacement must preserve ordered dimensions",
                        },
                    )
                } else {
                    shape_rejection(input.dimensions@, input.values@.len()) matches Some(error) ==> r == Err::<
                        (),
                        SimulationError,
                    >(error)
                }
            }),
    {
        self.ensure_usable()?;
        self.usable = false;
        let resident = self.input(id)?;
        if resident.mutability != InputMutability::Mutable {
            return Err(invalid("immutable input cannot be replaced"));
        }
        if !same_dimensions(&resident.dimensions, input.dimensions) {
            return Err(invalid("replacement must preserve ordered dimensions"));
        }
        validate_shape(input.dimensions, input.values.len())?;
        let allocation = resident.allocation;
        let resources = self.resources.as_ref().unwrap();
        let session = resources.session();
        proof { resources.lemma_live_network(); }
        if !session.api().values_are_finite(input.values) {
            return Err(invalid("input coefficients must be finite"));
        }
        session.bind_device()?;
        session.api().copy_to_device(allocation, input.values)?;
        self.usable = true;
        Ok(())
    }

    /// Runs the contraction on one resident input per slot: each input's
    /// dimensions must match its slot's extents; inputs are bound only when
    /// the slot's binding changes; the output is copied back after the
    /// stream is synchronized and must be finite.
    #[verifier::loop_isolation(false)]
    pub fn execute(&mut self, inputs: &Vec<InputId>) -> (r: Result<Vec<<A as MemoryWorkspaceApi>::Element>, SimulationError>)
        requires
            old(self).wf(),
        ensures
            final(self).wf(),
            !old(self).is_usable() ==> r is Err && *final(self) == *old(self),
            old(self).is_usable() && inputs@.len() != old(self).slot_count() ==> r == Err::<
                Vec<<A as MemoryWorkspaceApi>::Element>,
                SimulationError,
            >(
                SimulationError::InvalidContractionConfiguration {
                    reason: "one input identity is required per input slot",
                },
            ),
            final(self).is_usable() <==> r is Ok,
            final(self).owner_tag() == old(self).owner_tag(),
            final(self).resident_shapes() == old(self).resident_shapes(),
            r is Ok ==> forall|slot: int| 0 <= slot < inputs@.len() ==> {
                let id = #[trigger] inputs@[slot];
                &&& id.issuer() == old(self).owner_tag()
                &&& id.position() < old(self).resident_shapes().len()
                &&& extents_fit(
                    old(self).slot_tensors()[slot].extents@,
                    old(self).resident_shapes()[id.position() as int].0,
                )
            },
            old(self).is_usable() && inputs@.len() == old(self).slot_count() ==> (first_slot_rejection(
                old(self).owner_tag(),
                old(self).resident_shapes(),
                old(self).slot_tensors(),
                inputs@,
                inputs@.len(),
            ) matches Some(error) ==> r == Err::<Vec<<A as MemoryWorkspaceApi>::Element>, SimulationError>(error)
                && final(self).execution_log() == old(self).execution_log()),
            r is Ok ==> bound_then_contracted(final(self).execution_log(), old(self).execution_log()),
            old(self).is_usable() && inputs@.len() == old(self).slot_count() && first_slot_rejection(
                old(self).owner_tag(),
                old(self).resident_shapes(),
                old(self).slot_tensors(),
                inputs@,
                inputs@.len(),
            ) is None && selected_bytes_of(old(self).resident_sizes(), inputs@, inputs@.len()) > usize::MAX ==> r
                == Err::<Vec<<A as MemoryWorkspaceApi>::Element>, SimulationError>(
                SimulationError::ResourceSizeOverflow { resource: "contraction buffer" },
            ),
            r is Ok ==> final(self).resource_report().selected_input_count == Some(
                selected_positions(inputs@, inputs@.len() as int).len() as usize,
            ) && final(self).resource_report().selected_input_bytes == Some(
                selected_bytes_of(old(self).resident_sizes(), inputs@, inputs@.len()) as usize,
            ),
    {
        self.ensure_usable()?;
        self.usable = false;
        if inputs.len() != self.bindings.len() {
            return Err(invalid("one input identity is required per input slot"));
        }
        let resources = self.resources.as_ref().unwrap();
        proof { resources.lemma_live_network(); }
        let topology = resources.topology();
        let mut slot: usize = 0;
        while slot < inputs.len()
            invariant
                slot <= inputs@.len(),
                inputs@.len() == topology.tensors().len(),
                forall|s: int| 0 <= s < slot ==> {
                    let id = #[trigger] inputs@[s];
                    &&& id.issuer() == old(self).owner_tag()
                    &&& id.position() < old(self).resident_shapes().len()
                    &&& extents_fit(
                        old(self).slot_tensors()[s].extents@,
                        old(self).resident_shapes()[id.position() as int].0,
                    )
                },
                first_slot_rejection(
                    old(self).owner_tag(),
                    old(self).resident_shapes(),
                    old(self).slot_tensors(),
                    inputs@,
                    slot as nat,
                ) is None,
            decreases inputs@.len() - slot,
        {
            let id = inputs[slot];
            proof {
                assert(self.resident_shapes().len() == self.inputs@.len());
                if id.position() < self.inputs@.len() {
                    let resident = self.inputs@[id.position() as int];
                    assert(self.resident_shapes()[id.position() as int] == (resident.dimensions@, resident.mutability));
                }
                if slot_rejection(self.owner, self.resident_shapes(), self.slot_tensors(), inputs@, slot as int) is Some {
                    lemma_first_slot_rejection_stays(
                        self.owner,
                        self.resident_shapes(),
                        self.slot_tensors(),
                        inputs@,
                        (slot + 1) as nat,
                        inputs@.len(),
                    );
                }
            }
            let input = self.input(id)?;
            let tensor = topology.input(slot);
            if !extents_match(&tensor.extents, &input.dimensions) {
                return Err(invalid("input ordered dimensions do not match the slot"));
            }
            slot = slot + 1;
        }
        let mut selected: Vec<usize> = Vec::new();
        let mut selected_bytes: usize = 0;
        let mut slot: usize = 0;
        while slot < inputs.len()
            invariant
                slot <= inputs@.len(),
                forall|s: int| 0 <= s < inputs@.len() ==> {
                    let id = #[trigger] inputs@[s];
                    &&& id.issuer() == old(self).owner_tag()
                    &&& id.position() < old(self).resident_shapes().len()
                },
                selected@.no_duplicates(),
                selected@.to_set() =~= selected_positions(inputs@, slot as int),
                selected_bytes == selected_bytes_of(old(self).resident_sizes(), inputs@, slot as nat),
            decreases inputs@.len() - slot,
        {
            let id = inputs[slot];
            let input = self.input(id)?;
            proof {
                assert(self.resident_sizes()[id.position() as int] == input.bytes);
                assert(selected@.contains(id.index) == selected_positions(inputs@, slot as int).contains(id.position()));
            }
            let ghost previous = selected@;
            if !contains_index(&selected, id.index) {
                selected.push(id.index);
                proof {
                    assert(selected@.no_duplicates()) by {
                        assert forall|a: int, b: int| 0 <= a < selected@.len() && 0 <= b < selected@.len() && a != b
                            implies selected@[a] != selected@[b] by {
                            if a < previous.len() && b < previous.len() {
                                assert(selected@[a] == previous[a]);
                                assert(selected@[b] == previous[b]);
                            } else if a < previous.len() {
                                assert(previous.contains(selected@[a]));
                            } else {
                                assert(previous.contains(selected@[b]));
                            }
                        }
                    }
                    assert forall|p: usize| selected@.to_set().contains(p) == selected_positions(
                        inputs@,
                        slot + 1,
                    ).contains(p) by {
                        if selected_positions(inputs@, slot + 1).contains(p) {
                            let j = choose|j: int| 0 <= j < slot + 1 && #[trigger] inputs@[j].position() == p;
                            if j < slot {
                                assert(selected_positions(inputs@, slot as int).contains(p));
                                assert(previous.contains(p));
                                let i = choose|i: int| 0 <= i < previous.len() && previous[i] == p;
                                assert(selected@[i] == p);
                            } else {
                                assert(selected@[previous.len() as int] == p);
                            }
                        }
                        if selected@.to_set().contains(p) {
                            let i = choose|i: int| 0 <= i < selected@.len() && selected@[i] == p;
                            if i < previous.len() {
                                assert(previous[i] == p);
                                assert(previous.contains(p));
                                assert(selected_positions(inputs@, slot as int).contains(p));
                            } else {
                                assert(inputs@[slot as int].position() == p);
                            }
                        }
                    }
                }
                selected_bytes = match selected_bytes.checked_add(input.bytes) {
                    Some(total) => total,
                    None => {
                        proof {
                            lemma_selected_bytes_grow(old(self).resident_sizes(), inputs@, (slot + 1) as nat, inputs@.len());
                        }
                        return Err(overflow());
                    },
                };
            } else {
                proof {
                    assert forall|p: usize| selected@.to_set().contains(p) == selected_positions(
                        inputs@,
                        slot + 1,
                    ).contains(p) by {
                        if selected_positions(inputs@, slot + 1).contains(p) {
                            let j = choose|j: int| 0 <= j < slot + 1 && #[trigger] inputs@[j].position() == p;
                            if j < slot {
                                assert(selected_positions(inputs@, slot as int).contains(p));
                            }
                        }
                        if selected@.to_set().contains(p) {
                            assert(selected_positions(inputs@, slot as int).contains(p));
                            let j = choose|j: int| 0 <= j < slot && #[trigger] inputs@[j].position() == p;
                            assert(inputs@[j].position() == p);
                        }
                    }
                }
            }
            slot = slot + 1;
        }
        proof {
            selected@.unique_seq_to_set();
        }
        self.report.selected_input_bytes = Some(selected_bytes);
        self.report.selected_input_count = Some(selected.len());
        let resources = self.resources.as_ref().unwrap();
        let session = resources.session();
        session.bind_device()?;
        let mut slot: usize = 0;
        while slot < inputs.len()
            invariant
                self.wf(),
                !self.usable,
                self.resources is Some,
                self.resources == old(self).resources,
                self.workspace == old(self).workspace,
                self.output == old(self).output,
                self.report.output_bytes == old(self).report.output_bytes,
                self.inputs == old(self).inputs,
                self.owner == old(self).owner,
                self.report.selected_input_count == Some(
                    selected_positions(inputs@, inputs@.len() as int).len() as usize,
                ),
                self.report.selected_input_bytes == Some(
                    selected_bytes_of(old(self).resident_sizes(), inputs@, inputs@.len()) as usize,
                ),
                slot <= inputs@.len(),
                inputs@.len() == self.bindings@.len(),
                old(self).calls@.len() <= self.calls@.len(),
                self.calls@.subrange(0, old(self).calls@.len() as int) =~= old(self).calls@,
                forall|i: int| old(self).calls@.len() <= i < self.calls@.len() ==> #[trigger] self.calls@[i] is InputBound,
            decreases inputs@.len() - slot,
        {
            let id = inputs[slot];
            let differs = match self.bindings[slot] {
                Some(bound) => bound != id,
                None => true,
            };
            if differs {
                let allocation = self.input(id)?.allocation;
                let ghost before = self.calls@;
                let bound = self.native_bind(slot, allocation);
                proof {
                    assert forall|m: int| 0 <= m < old(self).calls@.len() implies self.calls@[m] == old(self).calls@[m] by {
                        assert(before.subrange(0, old(self).calls@.len() as int)[m] == before[m]);
                    }
                }
                bound?;
                self.bindings.set(slot, Some(id));
            }
            slot = slot + 1;
        }
        let element_count = self.report.output_bytes.unwrap() / 16;
        let ghost bound = self.calls@;
        self.native_contract()?;
        self.native_synchronize()?;
        proof {
            assert(self.calls@ =~= bound.push(ExecutionCall::Contracted).push(ExecutionCall::Synchronized));
            assert forall|i: int| old(self).calls@.len() <= i < self.calls@.len() - 2 implies #[trigger] self.calls@[i]
                is InputBound by {
                assert(self.calls@[i] == bound[i]);
            }
            assert(self.calls@.subrange(0, old(self).calls@.len() as int) =~= old(self).calls@) by {
                assert forall|m: int| 0 <= m < old(self).calls@.len() implies self.calls@[m] == old(self).calls@[m] by {
                    assert(self.calls@[m] == bound[m]);
                    assert(bound.subrange(0, old(self).calls@.len() as int)[m] == bound[m]);
                }
            }
            assert(bound_then_contracted(self.calls@, old(self).calls@));
        }
        let resources = self.resources.as_ref().unwrap();
        proof { resources.lemma_live_network(); }
        let session = resources.session();
        let output = MemoryWorkspaceApi::copy_from_device(session.api(), self.output.unwrap(), element_count)?;
        if !session.api().values_are_finite(&output) {
            return Err(unexpected("contraction returned nonfinite amplitudes"));
        }
        self.usable = true;
        Ok(output)
    }

    /// Releases everything after making the device current and waiting for
    /// the stream: the workspace, the network and its optimizer objects, then
    /// device memory from the most recent allocation back. Every release is
    /// attempted and every failure kept; releasing twice does nothing.
    pub fn release(&mut self) -> (r: Result<(), SimulationError>)
        requires
            old(self).wf(),
        ensures
            final(self).wf(),
            !final(self).is_live(),
            !final(self).is_usable(),
            live(final(self).history()) =~= Multiset::empty(),
            !old(self).is_live() ==> r is Ok && final(self).history() == old(self).history(),
            old(self).is_live() ==> crate::replay::released(
                final(self).history().subrange(
                    old(self).history().len() as int,
                    final(self).history().len() as int,
                ),
            ) == optional_workspace(old(self)) + freeing_order(old(self).allocations()),
    {
        let mut resources = match self.resources.take() {
            Some(resources) => resources,
            None => {
                return Ok(());
            },
        };
        self.usable = false;
        proof { resources.lemma_live_network(); }
        let ghost start = self.history@;
        assert(start.subrange(start.len() as int, start.len() as int) =~= Seq::<ReplayEvent>::empty());
        let session = resources.session();
        let mut result = session.bind_device();
        result = combine_execution_and_cleanup(
            result,
            SessionApi::synchronize_stream(session.api(), session.stream()),
        );
        if let Some(workspace) = self.workspace.take() {
            let outcome = MemoryWorkspaceApi::destroy_workspace(session.api(), workspace);
            let ghost before = self.history@;
            let ghost e = ReplayEvent::Released(Resource::Workspace(workspace), crate::replay::failure_of(outcome));
            self.history = Ghost(before.push(e));
            proof {
                lemma_live_released(before, Resource::Workspace(workspace), crate::replay::failure_of(outcome));
                crate::replay::lemma_steps_push(before, start.len() as int, e);
                crate::replay::lemma_run_push(before.subrange(start.len() as int, before.len() as int), e);
            }
            result = combine_execution_and_cleanup(result, outcome);
        }
        assert(crate::replay::released(self.history@.subrange(start.len() as int, self.history@.len() as int))
            + freeing_order(self.allocations@) =~= optional_workspace(old(self)) + freeing_order(
            old(self).allocations@,
        ));
        result = combine_execution_and_cleanup(result, resources.release());
        while self.allocations.len() > 0
            invariant
                live(self.history@) =~= self.owned(),
                self.workspace is None,
                self.resources is None,
                !self.usable,
                start.len() <= self.history@.len(),
                self.history@.subrange(0, start.len() as int) == start,
                crate::replay::released(self.history@.subrange(start.len() as int, self.history@.len() as int))
                    + freeing_order(self.allocations@) == optional_workspace(old(self)) + freeing_order(
                    old(self).allocations@,
                ),
                self.report.owned_device_bytes is Some,
                self.report.resident_input_bytes is Some,
            decreases self.allocations@.len(),
        {
            let ghost remaining = self.allocations@;
            let allocation = self.allocations.pop().unwrap();
            let outcome = MemoryWorkspaceApi::free(session.api(), allocation);
            let ghost before = self.history@;
            let ghost e = ReplayEvent::Released(Resource::DeviceMemory(allocation), crate::replay::failure_of(outcome));
            self.history = Ghost(before.push(e));
            proof {
                assert(remaining.drop_last() =~= self.allocations@);
                lemma_live_released(before, Resource::DeviceMemory(allocation), crate::replay::failure_of(outcome));
                crate::replay::lemma_steps_push(before, start.len() as int, e);
                crate::replay::lemma_run_push(before.subrange(start.len() as int, before.len() as int), e);
                let done = before.subrange(start.len() as int, before.len() as int);
                assert(crate::replay::released(done).push(Resource::DeviceMemory(allocation)) + freeing_order(
                    self.allocations@,
                ) =~= crate::replay::released(done) + freeing_order(remaining));
            }
            result = combine_execution_and_cleanup(result, outcome);
        }
        assert(freeing_order(self.allocations@) =~= Seq::<Resource>::empty());
        assert(crate::replay::released(self.history@.subrange(start.len() as int, self.history@.len() as int))
            + Seq::<Resource>::empty() =~= crate::replay::released(
            self.history@.subrange(start.len() as int, self.history@.len() as int),
        ));
        self.inputs = Vec::new();
        self.host_scratch = None;
        self.output = None;
        result
    }

    /// Releases everything, reporting failures.
    pub fn close(self) -> (r: Result<(), SimulationError>)
        requires
            self.wf(),
        ensures
            !self.is_live() ==> r is Ok,
    {
        let mut execution = self;
        execution.release()
    }
}

/// The workspace an executable holds, as a release step.
pub open spec fn optional_workspace<'s, A, P>(execution: &CuTensorNetExecutableContraction<'s, A, P>) -> Seq<
    Resource,
> where A: SessionApi + ContractionApi + MemoryWorkspaceApi + ContractionExecutionApi {
    crate::replay::optional(workspace_resource(execution.workspace_handle()))
}

impl<'s, A, P> CuTensorNetExecutableContraction<'s, A, P> where
    A: SessionApi + ContractionApi + MemoryWorkspaceApi + ContractionExecutionApi,
 {
    /// The workspace held, if any.
    pub closed spec fn workspace_handle(&self) -> Option<u64> {
        self.workspace
    }
}

/// Whether two dimension lists are equal.
fn same_dimensions(a: &Vec<usize>, b: &Vec<usize>) -> (same: bool)
    ensures
        same == (a@ == b@),
{
    if a.len() != b.len() {
        return false;
    }
    let mut k: usize = 0;
    while k < a.len()
        invariant
            a@.len() == b@.len(),
            k <= a@.len(),
            forall|m: int| 0 <= m < k ==> a@[m] == b@[m],
        decreases a@.len() - k,
    {
        if a[k] != b[k] {
            return false;
        }
        k = k + 1;
    }
    assert(a@ =~= b@);
    true
}

/// Whether native extents equal ordered dimensions, element by element.
fn extents_match(extents: &Vec<i64>, dimensions: &Vec<usize>) -> (same: bool)
    ensures
        same == (extents@.len() == dimensions@.len() && forall|m: int| 0 <= m < extents@.len() ==> extents@[m]
            as int == dimensions@[m] as int),
{
    if extents.len() != dimensions.len() {
        return false;
    }
    let mut k: usize = 0;
    while k < extents.len()
        invariant
            extents@.len() == dimensions@.len(),
            k <= extents@.len(),
            forall|m: int| 0 <= m < k ==> extents@[m] as int == dimensions@[m] as int,
        decreases extents@.len() - k,
    {
        let extent = extents[k];
        if extent < 0 || extent as u64 != dimensions[k] as u64 {
            return false;
        }
        k = k + 1;
    }
    true
}

/// Whether `index` is among `indices`.
fn contains_index(indices: &Vec<usize>, index: usize) -> (found: bool)
    ensures
        found <==> indices@.contains(index),
{
    let mut j: usize = 0;
    while j < indices.len()
        invariant
            j <= indices@.len(),
            forall|m: int| 0 <= m < j ==> indices@[m] != index,
        decreases indices@.len() - j,
    {
        if indices[j] == index {
            assert(indices@[j as int] == index);
            return true;
        }
        j = j + 1;
    }
    false
}

} // verus!
