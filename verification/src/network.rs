//! The native tensor network and optimizer objects a contraction owns: their
//! creation from a topology, path search or import of supplied metadata,
//! validated readback, and release.

use vstd::prelude::*;
use vstd::multiset::*;
use vstd::string::*;
use crate::contraction::{
    distinct_count, labels, metadata_rejection, mode_dimension, settings_valid, NativeMetadata, NativeTensor,
    OptimizerSetting, OptimizerSettings, SlicedMode, Topology,
};
use crate::error::{combine_execution_and_cleanup, combined, SimulationError};
use crate::replay::{
    combined_outcome, held, lemma_live_acquired, lemma_live_released, live, step_outcome, ReplayEvent,
    Resource,
};
use crate::session::{SessionApi, SessionResources};

verus! {

broadcast use vstd::multiset::group_multiset_axioms;

/// Which optimizer estimate to read.
#[derive(Clone, Copy, Debug, PartialEq, Eq, Structural)]
pub enum OptimizerEstimate {
    FlopCount,
    LargestTensor,
}

/// The native network and optimizer calls, with handles as addresses.
pub trait ContractionApi {
    /// A vendor-reported optimizer estimate.
    type Estimate;

    fn create_network(&self, handle: u64) -> Result<u64, SimulationError>;

    fn destroy_network(&self, network: u64) -> Result<(), SimulationError>;

    /// Copies ordered axes and returns an opaque native identifier.
    fn append_tensor(&self, handle: u64, network: u64, tensor: &NativeTensor) -> Result<i64, SimulationError>;

    fn set_output(&self, handle: u64, network: u64, modes: &Vec<i32>) -> Result<(), SimulationError>;

    fn set_compute_f64(&self, handle: u64, network: u64) -> Result<(), SimulationError>;

    fn create_optimizer_config(&self, handle: u64) -> Result<u64, SimulationError>;

    fn destroy_optimizer_config(&self, config: u64) -> Result<(), SimulationError>;

    fn configure_optimizer(&self, handle: u64, config: u64, setting: OptimizerSetting, value: i32) -> Result<
        (),
        SimulationError,
    >;

    fn create_optimizer_info(&self, handle: u64, network: u64) -> Result<u64, SimulationError>;

    fn destroy_optimizer_info(&self, info: u64) -> Result<(), SimulationError>;

    /// Searches within the byte budget and fills the optimizer info.
    fn optimize(&self, handle: u64, network: u64, config: u64, workspace_constraint: u64, info: u64) -> Result<
        (),
        SimulationError,
    >;

    fn set_path(&self, handle: u64, info: u64, path: &Vec<[i32; 2]>) -> Result<(), SimulationError>;

    fn set_slicing(&self, handle: u64, info: u64, slicing: &Vec<SlicedMode>) -> Result<(), SimulationError>;

    fn attach_optimizer_info(&self, handle: u64, network: u64, info: u64) -> Result<(), SimulationError>;

    /// Fills `path` and returns the count the library reports.
    fn read_path(&self, handle: u64, info: u64, path: &mut Vec<[i32; 2]>) -> Result<i32, SimulationError>;

    fn num_sliced_modes(&self, handle: u64, info: u64) -> Result<i32, SimulationError>;

    /// Fills `slicing` and returns the count the library reports.
    fn read_slicing(&self, handle: u64, info: u64, slicing: &mut Vec<SlicedMode>) -> Result<
        u32,
        SimulationError,
    >;

    fn num_slices(&self, handle: u64, info: u64) -> Result<i64, SimulationError>;

    /// Fills one rank per path step.
    fn intermediate_mode_counts(&self, handle: u64, info: u64, counts: &mut Vec<i32>) -> Result<
        (),
        SimulationError,
    >;

    /// Fills the flattened mode labels of every path step.
    fn intermediate_modes(&self, handle: u64, info: u64, modes: &mut Vec<i32>) -> Result<
        (),
        SimulationError,
    >;

    fn estimate(&self, handle: u64, info: u64, estimate: OptimizerEstimate) -> Result<
        Self::Estimate,
        SimulationError,
    >;

    /// Whether an estimate is finite and nonnegative.
    fn estimate_is_usable(&self, value: &Self::Estimate) -> bool;

    fn create_slice_group_from_id_range(&self, handle: u64, start: i64, stop: i64, increment: i64) -> Result<
        u64,
        SimulationError,
    >;

    fn destroy_slice_group(&self, slice_group: u64) -> Result<(), SimulationError>;
}

fn invalid(reason: &'static str) -> (e: SimulationError)
    ensures
        e == (SimulationError::InvalidContractionConfiguration { reason }),
{
    SimulationError::InvalidContractionConfiguration { reason }
}

fn unexpected(reason: &str) -> (e: SimulationError)
    ensures
        e matches SimulationError::InvalidNativeResult { reason: text } && text@ == reason@,
{
    SimulationError::InvalidNativeResult { reason: String::from_str(reason) }
}

pub open spec fn network_resource(h: Option<u64>) -> Option<Resource> {
    match h {
        Some(x) => Some(Resource::Network(x)),
        None => None,
    }
}

pub open spec fn config_resource(h: Option<u64>) -> Option<Resource> {
    match h {
        Some(x) => Some(Resource::OptimizerConfig(x)),
        None => None,
    }
}

pub open spec fn info_resource(h: Option<u64>) -> Option<Resource> {
    match h {
        Some(x) => Some(Resource::OptimizerInfo(x)),
        None => None,
    }
}

pub open spec fn release_steps(r: Option<Resource>) -> Seq<Resource> {
    match r {
        Some(x) => seq![x],
        None => Seq::empty(),
    }
}

/// A network and its optimizer objects for one topology, on a session.
pub struct ContractionResources<'s, A: SessionApi + ContractionApi> {
    session: &'s SessionResources<A>,
    topology: Topology,
    tensor_ids: Vec<i64>,
    network: Option<u64>,
    optimizer_config: Option<u64>,
    optimizer_info: Option<u64>,
    metadata_ready: bool,
    history: Ghost<Seq<ReplayEvent>>,
}

impl<'s, A: SessionApi + ContractionApi> ContractionResources<'s, A> {
    pub closed spec fn history(&self) -> Seq<ReplayEvent> {
        self.history@
    }

    /// The native objects held.
    pub closed spec fn owned(&self) -> Multiset<Resource> {
        held(network_resource(self.network)).add(held(config_resource(self.optimizer_config))).add(
            held(info_resource(self.optimizer_info)),
        )
    }

    /// The history leaves live exactly what is held.
    pub closed spec fn wf(&self) -> bool {
        &&& live(self.history@) =~= self.owned()
        &&& self.network is None ==> self.optimizer_config is None && self.optimizer_info is None
    }

    /// A network with its inputs, output and optimizer info in place.
    pub closed spec fn live_network(&self) -> bool {
        &&& self.wf()
        &&& self.session.is_open()
        &&& self.topology.well_formed()
        &&& self.network is Some
        &&& self.optimizer_info is Some
        &&& self.tensor_ids@.len() == self.topology.tensors().len()
    }

    /// Whether the network is still held.
    pub closed spec fn has_network(&self) -> bool {
        self.network is Some
    }

    /// A live network's session is open and its topology well formed.
    pub proof fn lemma_live_network(&self)
        requires
            self.live_network(),
        ensures
            self.owner_session().is_open(),
            self.network_topology().well_formed(),
            self.native_ids().len() == self.network_topology().tensors().len(),
            self.wf(),
            self.has_network(),
    {
    }

    /// Whether a search or an import has populated the optimizer info.
    pub closed spec fn metadata_populated(&self) -> bool {
        self.metadata_ready
    }

    /// The topology the network was built from.
    pub closed spec fn network_topology(&self) -> &Topology {
        &self.topology
    }

    /// The native identifiers of the inputs, in input order.
    pub closed spec fn native_ids(&self) -> Seq<i64> {
        self.tensor_ids@
    }

    /// The order releasing frees what is held: info, config, network.
    pub closed spec fn release_order(&self) -> Seq<Resource> {
        release_steps(info_resource(self.optimizer_info)) + release_steps(config_resource(self.optimizer_config))
            + release_steps(network_resource(self.network))
    }

    /// The network, its inputs and its optimizer info are unchanged.
    pub closed spec fn same_network(&self, other: &Self) -> bool {
        &&& self.session == other.session
        &&& self.topology == other.topology
        &&& self.tensor_ids == other.tensor_ids
        &&& self.network == other.network
        &&& self.optimizer_info == other.optimizer_info
    }

    /// The same network keeps its topology and native identifiers.
    pub proof fn lemma_same_network(&self, other: &Self)
        requires
            self.same_network(other),
        ensures
            self.network_topology() == other.network_topology(),
            self.native_ids() == other.native_ids(),
            self.owner_session() == other.owner_session(),
    {
    }

    /// Builds the network of `topology` on the session: appends every input
    /// (their native identifiers must be distinct), sets the output modes and
    /// f64 compute, and creates the optimizer info. If any step fails the
    /// objects created so far are released again and both failures are kept.
    pub fn new(session: &'s SessionResources<A>, topology: Topology) -> (r: Result<Self, SimulationError>)
        requires
            session.is_open(),
            topology.well_formed(),
        ensures
            r matches Ok(resources) ==> resources.live_network() && !resources.metadata_populated()
                && resources.owner_session() == session
                && resources.network_topology() == &topology && (forall|i: int, j: int|
                0 <= i < j < resources.native_ids().len() ==> resources.native_ids()[i]
                != resources.native_ids()[j]),
    {
        session.bind_device()?;
        let network = session.api().create_network(session.handle())?;
        let history: Ghost<Seq<ReplayEvent>> = Ghost(
            Seq::empty().push(ReplayEvent::Acquired(Resource::Network(network))),
        );
        let mut resources = ContractionResources {
            session,
            topology,
            tensor_ids: Vec::new(),
            network: Some(network),
            optimizer_config: None,
            optimizer_info: None,
            metadata_ready: false,
            history,
        };
        proof {
            lemma_live_acquired(Seq::<ReplayEvent>::empty(), Resource::Network(network));
        }
        let initialized = resources.initialize();
        if let Err(error) = initialized {
            let cleanup = resources.release();
            return combine_execution_and_cleanup(Err(error), cleanup);
        }
        Ok(resources)
    }

    fn initialize(&mut self) -> (r: Result<(), SimulationError>)
        requires
            old(self).wf(),
            old(self).network is Some,
            old(self).optimizer_info is None,
            old(self).optimizer_config is None,
            old(self).tensor_ids@.len() == 0,
            old(self).session.is_open(),
            old(self).topology.well_formed(),
        ensures
            final(self).wf(),
            final(self).network == old(self).network,
            final(self).optimizer_config is None,
            final(self).session == old(self).session,
            final(self).topology == old(self).topology,
            final(self).metadata_ready == old(self).metadata_ready,
            forall|i: int, j: int| 0 <= i < j < final(self).tensor_ids@.len() ==> final(self).tensor_ids@[i]
                != final(self).tensor_ids@[j],
            r is Ok ==> final(self).optimizer_info is Some && final(self).tensor_ids@.len()
                == final(self).topology.tensors().len(),
    {
        let handle = self.session.handle();
        let network = self.network.unwrap();
        let count = self.topology.input_count();
        let mut k: usize = 0;
        while k < count
            invariant
                self.wf(),
                self.network == old(self).network,
                self.network == Some(network),
                self.optimizer_info is None,
                self.optimizer_config is None,
                self.session == old(self).session,
                self.topology == old(self).topology,
                self.metadata_ready == old(self).metadata_ready,
                count == self.topology.tensors().len(),
                k <= count,
                self.tensor_ids@.len() == k,
                forall|i: int, j: int| 0 <= i < j < self.tensor_ids@.len() ==> self.tensor_ids@[i]
                    != self.tensor_ids@[j],
            decreases count - k,
        {
            let id = self.session.api().append_tensor(handle, network, self.topology.input(k))?;
            if contains_id(&self.tensor_ids, id) {
                return Err(unexpected("native tensor IDs are not unique"));
            }
            self.tensor_ids.push(id);
            k = k + 1;
        }
        self.session.api().set_output(handle, network, self.topology.output())?;
        self.session.api().set_compute_f64(handle, network)?;
        let info = self.session.api().create_optimizer_info(handle, network)?;
        self.optimizer_info = Some(info);
        let ghost before = self.history@;
        self.history = Ghost(before.push(ReplayEvent::Acquired(Resource::OptimizerInfo(info))));
        proof {
            lemma_live_acquired(before, Resource::OptimizerInfo(info));
        }
        Ok(())
    }

    /// The native identifiers of the inputs, in input order; they are not
    /// path positions.
    pub fn tensor_ids(&self) -> (ids: &Vec<i64>)
        ensures
            ids@ == self.native_ids(),
    {
        &self.tensor_ids
    }

    /// The session the network lives on.
    pub fn session(&self) -> (session: &'s SessionResources<A>)
        ensures
            session == self.owner_session(),
    {
        self.session
    }

    /// The session the network lives on.
    pub closed spec fn owner_session(&self) -> &'s SessionResources<A> {
        self.session
    }

    /// The native network.
    pub fn network_handle(&self) -> (h: u64)
        requires
            self.live_network(),
        ensures
            self.owned().count(Resource::Network(h)) > 0,
    {
        self.network.unwrap()
    }

    /// The native optimizer info.
    pub fn info_handle(&self) -> (h: u64)
        requires
            self.live_network(),
        ensures
            self.owned().count(Resource::OptimizerInfo(h)) > 0,
    {
        self.optimizer_info.unwrap()
    }

    /// The topology the network was built from.
    pub fn topology(&self) -> (t: &Topology)
        ensures
            t == self.network_topology(),
    {
        &self.topology
    }

    /// Searches for a path with explicit settings (checked first); the
    /// optimizer config is created on first use and kept. Readback is
    /// possible only after a successful search.
    pub fn optimize(&mut self, settings: OptimizerSettings) -> (r: Result<(), SimulationError>)
        requires
            old(self).live_network(),
        ensures
            final(self).live_network(),
            final(self).same_network(old(self)),
            !settings_valid(settings) ==> r == Err::<(), SimulationError>(
                SimulationError::InvalidContractionConfiguration { reason: "invalid optimizer settings" },
            ) && *final(self) == *old(self),
            r is Ok ==> final(self).metadata_populated(),
            final(self).metadata_populated() ==> r is Ok || old(self).metadata_populated(),
    {
        let attributes = settings.attributes()?;
        self.session.bind_device()?;
        self.metadata_ready = false;
        let handle = self.session.handle();
        let config = match self.optimizer_config {
            Some(config) => config,
            None => {
                let config = self.session.api().create_optimizer_config(handle)?;
                self.optimizer_config = Some(config);
                let ghost before = self.history@;
                self.history = Ghost(before.push(ReplayEvent::Acquired(Resource::OptimizerConfig(config))));
                proof {
                    lemma_live_acquired(before, Resource::OptimizerConfig(config));
                }
                config
            },
        };
        let mut k: usize = 0;
        while k < 6
            invariant
                self.live_network(),
                self.same_network(old(self)),
                !self.metadata_ready,
                settings_valid(settings),
                k <= 6,
            decreases 6 - k,
        {
            let (setting, value) = attributes[k];
            self.session.api().configure_optimizer(handle, config, setting, value)?;
            k = k + 1;
        }
        self.session.api().optimize(
            handle,
            self.network.unwrap(),
            config,
            settings.workspace_constraint,
            self.optimizer_info.unwrap(),
        )?;
        self.metadata_ready = true;
        Ok(())
    }

    /// Checks supplied metadata against the topology, then copies its path
    /// and slicing into the optimizer info and attaches it; no search runs.
    pub fn import(&mut self, metadata: &NativeMetadata) -> (r: Result<(), SimulationError>)
        requires
            old(self).live_network(),
        ensures
            final(self).live_network(),
            final(self).same_network(old(self)),
            final(self).history() == old(self).history(),
            metadata_rejection(
                old(self).network_topology().tensors().len(),
                old(self).network_topology().axes(),
                old(self).network_topology().output_modes(),
                metadata.path@,
                metadata.slicing@,
                metadata.num_slices,
            ) matches Some(error) ==> r == Err::<(), SimulationError>(error) && *final(self) == *old(self),
            r is Ok ==> final(self).metadata_populated(),
            final(self).metadata_populated() ==> r is Ok || old(self).metadata_populated(),
    {
        self.topology.validate(metadata)?;
        self.session.bind_device()?;
        self.metadata_ready = false;
        let handle = self.session.handle();
        let info = self.optimizer_info.unwrap();
        self.session.api().set_path(handle, info, &metadata.path)?;
        self.session.api().set_slicing(handle, info, &metadata.slicing)?;
        self.session.api().attach_optimizer_info(handle, self.network.unwrap(), info)?;
        self.metadata_ready = true;
        Ok(())
    }

    /// Succeeds only after a search or an import, with the device current.
    pub fn ready(&self) -> (r: Result<(), SimulationError>)
        ensures
            r is Ok ==> self.metadata_populated(),
            !self.metadata_populated() ==> r == Err::<(), SimulationError>(
                SimulationError::InvalidContractionConfiguration {
                    reason: "optimizer metadata has not been populated",
                },
            ),
    {
        if !self.metadata_ready {
            return Err(invalid("optimizer metadata has not been populated"));
        }
        self.session.bind_device()
    }

    /// Reads the path, slicing and slice count back after a search or an
    /// import, and accepts them only if they fit the topology.
    pub fn export(&self) -> (r: Result<NativeMetadata, SimulationError>)
        requires
            self.live_network(),
        ensures
            !self.metadata_populated() ==> r == Err::<NativeMetadata, SimulationError>(
                SimulationError::InvalidContractionConfiguration {
                    reason: "optimizer metadata has not been populated",
                },
            ),
            r matches Ok(metadata) ==> metadata_rejection(
                self.network_topology().tensors().len(),
                self.network_topology().axes(),
                self.network_topology().output_modes(),
                metadata.path@,
                metadata.slicing@,
                metadata.num_slices,
            ) is None,
    {
        self.ready()?;
        self.read_metadata()
    }

    fn read_metadata(&self) -> (r: Result<NativeMetadata, SimulationError>)
        requires
            self.live_network(),
        ensures
            r matches Ok(metadata) ==> metadata_rejection(
                self.network_topology().tensors().len(),
                self.network_topology().axes(),
                self.network_topology().output_modes(),
                metadata.path@,
                metadata.slicing@,
                metadata.num_slices,
            ) is None,
    {
        let api = self.session.api();
        let handle = self.session.handle();
        let info = self.optimizer_info.unwrap();
        let steps = self.topology.input_count() - 1;
        let mut path: Vec<[i32; 2]> = Vec::new();
        let mut k: usize = 0;
        while k < steps
            invariant
                k <= steps,
                path@.len() == k,
            decreases steps - k,
        {
            path.push([-1, -1]);
            k = k + 1;
        }
        let count = api.read_path(handle, info, &mut path)?;
        if count < 0 || count as usize != path.len() {
            return Err(unexpected("native path length does not match the network"));
        }
        let count = api.num_sliced_modes(handle, info)?;
        if count < 0 {
            return Err(unexpected("negative sliced mode count"));
        }
        let count = count as usize;
        if count > self.topology.mode_count() {
            return Err(unexpected("native sliced mode count exceeds the network mode count"));
        }
        let mut slicing: Vec<SlicedMode> = Vec::new();
        let mut k: usize = 0;
        while k < count
            invariant
                k <= count,
                slicing@.len() == k,
            decreases count - k,
        {
            slicing.push(SlicedMode { mode: -1, extent: 0 });
            k = k + 1;
        }
        let returned = api.read_slicing(handle, info, &mut slicing)?;
        if returned as usize != count {
            return Err(unexpected("native sliced mode count changed during retrieval"));
        }
        let num_slices = api.num_slices(handle, info)?;
        let metadata = NativeMetadata { path, slicing, num_slices };
        if let Err(error) = self.topology.validate(&metadata) {
            let text = error.message();
            return Err(SimulationError::InvalidNativeResult { reason: text });
        }
        Ok(metadata)
    }

    /// Reads the modes of every path step's result back after a search or
    /// an import: ranks must be nonnegative and within the network's mode
    /// count, and each step's modes distinct network modes.
    pub fn intermediate_modes(&self) -> (r: Result<Vec<Vec<i32>>, SimulationError>)
        requires
            self.live_network(),
        ensures
            !self.metadata_populated() ==> r == Err::<Vec<Vec<i32>>, SimulationError>(
                SimulationError::InvalidContractionConfiguration {
                    reason: "optimizer metadata has not been populated",
                },
            ),
            r matches Ok(steps) ==> steps@.len() == self.network_topology().tensors().len() - 1 && (forall|
                s: int,
            |
                0 <= s < steps@.len() ==> distinct_known_modes(
                    (#[trigger] steps@[s])@,
                    self.network_topology().axes(),
                )),
    {
        self.ready()?;
        self.read_intermediates()
    }

    fn read_intermediates(&self) -> (r: Result<Vec<Vec<i32>>, SimulationError>)
        requires
            self.live_network(),
        ensures
            r matches Ok(steps) ==> steps@.len() == self.network_topology().tensors().len() - 1 && (forall|
                s: int,
            |
                0 <= s < steps@.len() ==> distinct_known_modes(
                    (#[trigger] steps@[s])@,
                    self.network_topology().axes(),
                )),
    {
        let api = self.session.api();
        let handle = self.session.handle();
        let info = self.optimizer_info.unwrap();
        let steps = self.topology.input_count() - 1;
        let mut counts: Vec<i32> = Vec::new();
        let mut k: usize = 0;
        while k < steps
            invariant
                k <= steps,
                counts@.len() == k,
            decreases steps - k,
        {
            counts.push(-1);
            k = k + 1;
        }
        api.intermediate_mode_counts(handle, info, &mut counts)?;
        if counts.len() != steps {
            return Err(unexpected("native intermediate count does not match the path"));
        }
        let mut k: usize = 0;
        while k < counts.len()
            invariant
                k <= counts@.len(),
                forall|m: int| 0 <= m < k ==> counts@[m] >= 0,
            decreases counts@.len() - k,
        {
            if counts[k] < 0 {
                return Err(unexpected("negative intermediate rank"));
            }
            k = k + 1;
        }
        let mode_count = self.topology.mode_count();
        let mut total: usize = 0;
        let mut k: usize = 0;
        while k < counts.len()
            invariant
                k <= counts@.len(),
                forall|m: int| 0 <= m < counts@.len() ==> counts@[m] >= 0,
                total == rank_sum(counts@.subrange(0, k as int)),
            decreases counts@.len() - k,
        {
            let rank = counts[k] as usize;
            assert(counts@.subrange(0, k as int + 1).drop_last() =~= counts@.subrange(0, k as int));
            if rank > mode_count {
                return Err(unexpected("intermediate rank exceeds the network mode count"));
            }
            total = match total.checked_add(rank) {
                Some(sum) => sum,
                None => {
                    return Err(SimulationError::ResourceSizeOverflow { resource: "intermediate modes" });
                },
            };
            k = k + 1;
        }
        let mut modes: Vec<i32> = Vec::new();
        let mut k: usize = 0;
        while k < total
            invariant
                k <= total,
                modes@.len() == k,
            decreases total - k,
        {
            modes.push(-1);
            k = k + 1;
        }
        api.intermediate_modes(handle, info, &mut modes)?;
        if modes.len() != total {
            return Err(unexpected("native intermediate modes do not match their ranks"));
        }
        assert(counts@.subrange(0, counts@.len() as int) =~= counts@);
        let mut intermediates: Vec<Vec<i32>> = Vec::new();
        let mut offset: usize = 0;
        let mut s: usize = 0;
        assert(counts@.subrange(0, 0) =~= Seq::<i32>::empty());
        while s < counts.len()
            invariant
                s <= counts@.len(),
                counts@.len() == steps,
                forall|m: int| 0 <= m < counts@.len() ==> counts@[m] >= 0,
                total == rank_sum(counts@),
                modes@.len() == total,
                offset == rank_sum(counts@.subrange(0, s as int)),
                intermediates@.len() == s,
                forall|m: int| 0 <= m < s ==> distinct_known_modes(
                    (#[trigger] intermediates@[m])@,
                    self.topology.axes(),
                ),
            decreases counts@.len() - s,
        {
            let rank = counts[s] as usize;
            proof {
                assert(counts@.subrange(0, s as int + 1).drop_last() =~= counts@.subrange(0, s as int));
                lemma_rank_sum_prefix(counts@, s as int + 1);
            }
            assert(offset + rank <= total);
            let mut chunk: Vec<i32> = Vec::new();
            let mut j: usize = 0;
            while j < rank
                invariant
                    j <= rank,
                    offset + rank <= modes@.len(),
                    modes@.len() == total,
                    chunk@.len() == j,
                    forall|a: int| 0 <= a < j ==> mode_dimension(self.topology.axes(), #[trigger] chunk@[a])
                        is Some,
                    forall|a: int, b: int| 0 <= a < b < j ==> chunk@[a] != chunk@[b],
                decreases rank - j,
            {
                let mode = modes[offset + j];
                if !self.topology.knows_mode(mode) {
                    return Err(unexpected("native intermediate contains duplicate or unknown modes"));
                }
                let mut m: usize = 0;
                while m < j
                    invariant
                        m <= j,
                        chunk@.len() == j,
                        forall|a: int| 0 <= a < m ==> chunk@[a] != mode,
                    decreases j - m,
                {
                    if chunk[m] == mode {
                        return Err(unexpected("native intermediate contains duplicate or unknown modes"));
                    }
                    m = m + 1;
                }
                chunk.push(mode);
                j = j + 1;
            }
            intermediates.push(chunk);
            offset = offset + rank;
            s = s + 1;
        }
        Ok(intermediates)
    }

    /// A vendor estimate of the selected path, which must be finite and
    /// nonnegative.
    pub fn estimate(&self, estimate: OptimizerEstimate) -> (r: Result<A::Estimate, SimulationError>)
        requires
            self.live_network(),
        ensures
            !self.metadata_populated() ==> r matches Err(SimulationError::InvalidContractionConfiguration {
                reason: "optimizer metadata has not been populated",
            }),
    {
        self.ready()?;
        let value = self.session.api().estimate(self.session.handle(), self.optimizer_info.unwrap(), estimate)?;
        if !self.session.api().estimate_is_usable(&value) {
            return Err(unexpected("native optimizer estimate is negative or nonfinite"));
        }
        Ok(value)
    }

    /// Releases the optimizer info, the config and the network after making
    /// the device current, keeping every failure; releasing twice does
    /// nothing.
    pub fn release(&mut self) -> (r: Result<(), SimulationError>)
        requires
            old(self).wf(),
        ensures
            final(self).wf(),
            final(self).owned() =~= Multiset::empty(),
            !final(self).metadata_populated() || !old(self).has_network(),
            !old(self).has_network() ==> r is Ok && final(self).history() == old(self).history(),
            old(self).has_network() ==> ({
                let steps = final(self).history().subrange(
                    old(self).history().len() as int,
                    final(self).history().len() as int,
                );
                &&& final(self).history().subrange(0, old(self).history().len() as int) == old(
                    self,
                ).history()
                &&& steps.len() >= 1
                &&& steps[0] is DeviceSelected
                &&& crate::replay::released(steps) == old(self).release_order()
                &&& r == combined_outcome(step_outcome(steps[0]), steps.drop_first())
            }),
    {
        if self.network.is_none() {
            return Ok(());
        }
        self.metadata_ready = false;
        let ghost start = self.history@;
        let bound = self.session.bind_device();
        let ghost before = self.history@;
        self.history = Ghost(before.push(ReplayEvent::DeviceSelected(crate::replay::failure_of(bound))));
        proof {
            assert(before.push(ReplayEvent::DeviceSelected(crate::replay::failure_of(bound))).drop_last()
                =~= before);
        }
        let mut result = bound;
        proof {
            let steps = self.history@.subrange(start.len() as int, self.history@.len() as int);
            assert(steps =~= seq![ReplayEvent::DeviceSelected(crate::replay::failure_of(bound))]);
            assert(steps.drop_first() =~= Seq::<ReplayEvent>::empty());
            lemma_selected_outcome(bound);
            assert(result == step_outcome(steps[0]));
            let one = seq![ReplayEvent::DeviceSelected(crate::replay::failure_of(bound))];
            assert(one.drop_last() =~= Seq::<ReplayEvent>::empty());
            assert(crate::replay::released(Seq::<ReplayEvent>::empty()) =~= Seq::<Resource>::empty());
        }
        if let Some(info) = self.optimizer_info.take() {
            let outcome = self.session.api().destroy_optimizer_info(info);
            let ghost before = self.history@;
            let ghost e = ReplayEvent::Released(Resource::OptimizerInfo(info), crate::replay::failure_of(outcome));
            self.history = Ghost(before.push(e));
            proof {
                lemma_live_released(before, Resource::OptimizerInfo(info), crate::replay::failure_of(outcome));
                lemma_release_step(before, start.len() as int, e);
                lemma_released_outcome(Resource::OptimizerInfo(info), outcome);
                let run = before.subrange(start.len() as int, before.len() as int);
                lemma_combined_push(step_outcome(run[0]), run.drop_first(), e);
                assert(before.push(e).subrange(start.len() as int, before.len() as int + 1)[0] == run[0]);
            }
            result = combine_execution_and_cleanup(result, outcome);
        }
        if let Some(config) = self.optimizer_config.take() {
            let outcome = self.session.api().destroy_optimizer_config(config);
            let ghost before = self.history@;
            let ghost e = ReplayEvent::Released(Resource::OptimizerConfig(config), crate::replay::failure_of(outcome));
            self.history = Ghost(before.push(e));
            proof {
                lemma_live_released(before, Resource::OptimizerConfig(config), crate::replay::failure_of(outcome));
                lemma_release_step(before, start.len() as int, e);
                lemma_released_outcome(Resource::OptimizerConfig(config), outcome);
                let run = before.subrange(start.len() as int, before.len() as int);
                lemma_combined_push(step_outcome(run[0]), run.drop_first(), e);
                assert(before.push(e).subrange(start.len() as int, before.len() as int + 1)[0] == run[0]);
            }
            result = combine_execution_and_cleanup(result, outcome);
        }
        if let Some(network) = self.network.take() {
            let outcome = self.session.api().destroy_network(network);
            let ghost before = self.history@;
            let ghost e = ReplayEvent::Released(Resource::Network(network), crate::replay::failure_of(outcome));
            self.history = Ghost(before.push(e));
            proof {
                lemma_live_released(before, Resource::Network(network), crate::replay::failure_of(outcome));
                lemma_release_step(before, start.len() as int, e);
                lemma_released_outcome(Resource::Network(network), outcome);
                let run = before.subrange(start.len() as int, before.len() as int);
                lemma_combined_push(step_outcome(run[0]), run.drop_first(), e);
                assert(before.push(e).subrange(start.len() as int, before.len() as int + 1)[0] == run[0]);
            }
            result = combine_execution_and_cleanup(result, outcome);
        }
        result
    }

    /// Releases the network and its optimizer objects, reporting failures.
    pub fn close(self) -> (r: Result<(), SimulationError>)
        requires
            self.wf(),
        ensures
            !self.has_network() ==> r is Ok,
    {
        let mut resources = self;
        resources.release()
    }
}

/// Whether `id` is among `ids`.
fn contains_id(ids: &Vec<i64>, id: i64) -> (found: bool)
    ensures
        found <==> ids@.contains(id),
{
    let mut j: usize = 0;
    while j < ids.len()
        invariant
            j <= ids@.len(),
            forall|m: int| 0 <= m < j ==> ids@[m] != id,
        decreases ids@.len() - j,
    {
        if ids[j] == id {
            assert(ids@[j as int] == id);
            return true;
        }
        j = j + 1;
    }
    false
}

proof fn lemma_selected_outcome(outcome: Result<(), SimulationError>)
    ensures
        step_outcome(ReplayEvent::DeviceSelected(crate::replay::failure_of(outcome))) == outcome,
{
    match outcome {
        Ok(u) => {
            assert(u == ());
        },
        Err(_) => {},
    }
}

proof fn lemma_released_outcome(r: Resource, outcome: Result<(), SimulationError>)
    ensures
        step_outcome(ReplayEvent::Released(r, crate::replay::failure_of(outcome))) == outcome,
{
    match outcome {
        Ok(u) => {
            assert(u == ());
        },
        Err(_) => {},
    }
}

proof fn lemma_combined_push(start: Result<(), SimulationError>, steps: Seq<ReplayEvent>, e: ReplayEvent)
    ensures
        combined_outcome(start, steps.push(e)) == combined(combined_outcome(start, steps), step_outcome(e)),
{
    assert(steps.push(e).drop_last() =~= steps);
}

/// The sum of a sequence of nonnegative ranks.
pub open spec fn rank_sum(counts: Seq<i32>) -> int
    decreases counts.len(),
{
    if counts.len() == 0 {
        0
    } else {
        rank_sum(counts.drop_last()) + counts.last()
    }
}

/// Distinct modes that all belong to the network.
pub open spec fn distinct_known_modes(modes: Seq<i32>, axes: Seq<(i32, i64)>) -> bool {
    &&& forall|a: int| 0 <= a < modes.len() ==> mode_dimension(axes, #[trigger] modes[a]) is Some
    &&& forall|a: int, b: int| 0 <= a < b < modes.len() ==> modes[a] != modes[b]
}

proof fn lemma_rank_sum_prefix(counts: Seq<i32>, k: int)
    requires
        0 <= k <= counts.len(),
        forall|m: int| 0 <= m < counts.len() ==> counts[m] >= 0,
    ensures
        rank_sum(counts.subrange(0, k)) <= rank_sum(counts),
    decreases counts.len() - k,
{
    if k < counts.len() {
        assert(counts.drop_last().subrange(0, k) =~= counts.subrange(0, k));
        lemma_rank_sum_prefix(counts.drop_last(), k);
    } else {
        assert(counts.subrange(0, k) =~= counts);
    }
}

proof fn lemma_release_step(before: Seq<ReplayEvent>, start: int, e: ReplayEvent)
    requires
        0 <= start < before.len(),
    ensures
        before.push(e).subrange(start, before.len() as int + 1) == before.subrange(
            start,
            before.len() as int,
        ).push(e),
        before.push(e).subrange(start, before.len() as int + 1).drop_first() == before.subrange(
            start,
            before.len() as int,
        ).drop_first().push(e),
        before.push(e).subrange(0, start) == before.subrange(0, start),
        crate::replay::released(before.subrange(start, before.len() as int).push(e)) == (match e {
            ReplayEvent::Released(r, _) => crate::replay::released(before.subrange(start, before.len() as int)).push(r),
            _ => crate::replay::released(before.subrange(start, before.len() as int)),
        }),
{
    let run = before.subrange(start, before.len() as int);
    assert(before.push(e).subrange(start, before.len() as int + 1) =~= run.push(e));
    assert(run.push(e).drop_first() =~= run.drop_first().push(e));
    assert(before.push(e).subrange(0, start) =~= before.subrange(0, start));
    crate::replay::lemma_run_push(run, e);
}

/// A selection of slice identifiers on a session.
pub struct SliceGroup<'s, A: SessionApi + ContractionApi> {
    session: &'s SessionResources<A>,
    slice_group: Option<u64>,
}

impl<'s, A: SessionApi + ContractionApi> SliceGroup<'s, A> {
    pub closed spec fn is_live(&self) -> bool {
        self.slice_group is Some
    }

    /// The native slice group held, if any.
    pub closed spec fn group_id(&self) -> Option<u64> {
        self.slice_group
    }

    /// Selects slices `start`, `start + increment`, ... up to `stop`; the
    /// increment must not be zero.
    pub fn from_id_range(session: &'s SessionResources<A>, start: i64, stop: i64, increment: i64) -> (r: Result<
        Self,
        SimulationError,
    >)
        requires
            session.is_open(),
        ensures
            increment == 0 ==> r matches Err(SimulationError::InvalidContractionConfiguration {
                reason: "slice identifier increment must be non-zero",
            }),
            r matches Ok(group) ==> group.is_live(),
    {
        if increment == 0 {
            return Err(invalid("slice identifier increment must be non-zero"));
        }
        session.bind_device()?;
        let slice_group = session.api().create_slice_group_from_id_range(session.handle(), start, stop, increment)?;
        Ok(SliceGroup { session, slice_group: Some(slice_group) })
    }

    /// The native slice group.
    pub fn as_handle(&self) -> (h: u64)
        requires
            self.is_live(),
        ensures
            self.group_id() == Some(h),
    {
        self.slice_group.unwrap()
    }

    /// Destroys the slice group after making the device current, keeping
    /// both failures; releasing twice does nothing.
    pub fn release(&mut self) -> (r: Result<(), SimulationError>)
        ensures
            !final(self).is_live(),
            !old(self).is_live() ==> r is Ok,
    {
        match self.slice_group.take() {
            Some(group) => {
                let bound = self.session.bind_device();
                let destroyed = self.session.api().destroy_slice_group(group);
                combine_execution_and_cleanup(bound, destroyed)
            },
            None => Ok(()),
        }
    }

    /// Destroys the slice group, reporting failures.
    pub fn close(self) -> (r: Result<(), SimulationError>)
        ensures
            !self.is_live() ==> r is Ok,
    {
        let mut group = self;
        group.release()
    }
}

} // verus!
