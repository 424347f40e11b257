use num_complex::Complex64;
use qdk_cutensornet::{
    combine_execution_and_cleanup, import_plan, native_count, validate_path, ContractionApi,
    ContractionExecutionApi, ContractionResources, CostEstimate, CuTensorNetContractionOptimizer,
    CuTensorNetContractionOptimizerSettings, CuTensorNetExecutableContraction, CuTensorNetPlanningReport,
    EstimateKind, ExecutionLimits, InputId, InputMutability, MemorySpace, MemoryWorkspaceApi, NativeMetadata,
    NativeTensor, Operand, OptimizerEstimate, OptimizerSetting, OptimizerSettings, PlanStep, PlanningConstraints,
    PreparationFailure, ResourceReport, SessionApi, SessionResources, SimulationError, SliceGroup, SlicedMode,
    TensorInput, Topology, WorkspaceBudgetSource, WorkspaceKind, WorkspacePreference,
};
use std::collections::{BTreeMap, BTreeSet};
use std::sync::Mutex;

type Axis = (usize, usize);

const P1: [[i32; 2]; 3] = [[1, 2], [0, 2], [0, 1]];

#[derive(Clone, Copy, Debug, PartialEq, Eq, PartialOrd, Ord)]
enum Kind {
    Stream,
    Handle,
    Network,
    Config,
    Info,
    SliceGroup,
    Workspace,
    Allocation,
}

impl Kind {
    fn base(self) -> u64 {
        match self {
            Kind::Stream => 1,
            Kind::Handle => 2,
            Kind::Network => 3,
            Kind::Config => 4,
            Kind::Info => 5,
            Kind::SliceGroup => 6,
            Kind::Workspace => 8,
            Kind::Allocation => 1000,
        }
    }
}

#[derive(Clone, Copy, Debug, PartialEq, Eq)]
enum Corruption {
    Intact,
    DuplicateId,
    PathCount,
    PathOperand,
    NegativeSlicedCount,
    ExcessSlicedCount,
    ChangedSlicedCount,
    SliceCount,
    NegativeRank,
    ExcessRank,
    UnknownMode,
    DuplicateMode,
    Estimate,
    ChangedPath,
}

struct NativeObservations {
    selected: NativeMetadata,
    modes: Option<Vec<Vec<i32>>>,
    estimates: [f64; 2],
    memory: Vec<(usize, usize)>,
    use_query_output: bool,
}

impl Default for NativeObservations {
    fn default() -> Self {
        Self {
            selected: metadata(),
            modes: None,
            estimates: [42.0, 42.0],
            memory: vec![(1 << 30, 1 << 31)],
            use_query_output: false,
        }
    }
}

struct NumericalSettings {
    device_minimum: i64,
    host_minimum: i64,
    nonfinite_output: bool,
    input_dependent: bool,
}

impl Default for NumericalSettings {
    fn default() -> Self {
        Self { device_minimum: 512, host_minimum: 128, nonfinite_output: false, input_dependent: false }
    }
}

#[derive(Default)]
struct NetworkState {
    handle: u64,
    tensors: Vec<NativeTensor>,
    tensor_ids: Vec<i64>,
    output: Option<Vec<i32>>,
    inputs: BTreeMap<i64, u64>,
    bound_output: Option<u64>,
    prepared: bool,
    stream: Option<u64>,
}

struct InfoState {
    network: u64,
    path: Vec<[i32; 2]>,
    slicing: Vec<SlicedMode>,
}

struct AllocationState {
    bytes: usize,
    input: Option<Vec<Complex64>>,
    output: Option<(u64, Vec<Complex64>)>,
}

struct WorkspaceState {
    network: Option<u64>,
    bindings: Vec<(MemorySpace, WorkspaceKind, Option<u64>, i64)>,
}

#[derive(Default)]
struct State {
    events: Vec<&'static str>,
    live: BTreeMap<u64, Kind>,
    parents: BTreeMap<u64, u64>,
    created: BTreeMap<Kind, u64>,
    last_stream: Option<u64>,
    session_streams: BTreeMap<u64, u64>,
    networks: BTreeMap<u64, NetworkState>,
    infos: BTreeMap<u64, InfoState>,
    allocations: BTreeMap<u64, AllocationState>,
    workspaces: BTreeMap<u64, WorkspaceState>,
    pending: BTreeSet<u64>,
    settings: Vec<(OptimizerSetting, i32)>,
    workspace_constraints: Vec<u64>,
    tensors: Vec<NativeTensor>,
    output: Option<Vec<i32>>,
    uploads: Vec<(u64, Vec<Complex64>)>,
    input_bindings: Vec<(i64, u64)>,
    workspace_bindings: Vec<(MemorySpace, WorkspaceKind, Option<u64>, i64)>,
    scratch_count: u64,
}

struct Fake {
    state: Mutex<State>,
    failures: Vec<(&'static str, usize)>,
    corruption: Corruption,
    numerical: NumericalSettings,
    observations: NativeObservations,
}

fn failure(event: &'static str) -> SimulationError {
    SimulationError::NativeCallFailed {
        component: "fake",
        operation: event,
        status: 7,
        message: "injected failure".to_string(),
    }
}

impl Fake {
    fn new(failures: Vec<(&'static str, usize)>, corruption: Corruption) -> Self {
        Self::with_observations(failures, corruption, NativeObservations::default())
    }

    fn with_observations(
        failures: Vec<(&'static str, usize)>,
        corruption: Corruption,
        observations: NativeObservations,
    ) -> Self {
        Self {
            state: Mutex::new(State::default()),
            failures,
            corruption,
            numerical: NumericalSettings::default(),
            observations,
        }
    }

    fn custom(
        failures: Vec<(&'static str, usize)>,
        numerical: NumericalSettings,
        observations: NativeObservations,
    ) -> Self {
        Self { state: Mutex::new(State::default()), failures, corruption: Corruption::Intact, numerical, observations }
    }

    fn numerical(failures: Vec<(&'static str, usize)>, numerical: NumericalSettings) -> Self {
        Self {
            state: Mutex::new(State::default()),
            failures,
            corruption: Corruption::Intact,
            numerical,
            observations: NativeObservations { use_query_output: true, ..NativeObservations::default() },
        }
    }

    fn event(&self, event: &'static str) -> Result<(), SimulationError> {
        let mut state = self.state.lock().expect("test state lock should succeed");
        state.events.push(event);
        let count = state.events.iter().filter(|&&name| name == event).count();
        if self.failures.contains(&(event, count)) {
            return Err(failure(event));
        }
        Ok(())
    }

    fn create(&self, event: &'static str, kind: Kind, parent: Option<u64>) -> Result<u64, SimulationError> {
        self.event(event)?;
        let mut state = self.state.lock().expect("test state lock should succeed");
        if let Some(parent) = parent {
            assert!(state.live.contains_key(&parent), "{event}: parent {parent} is not live");
        }
        let created = state.created.entry(kind).or_insert(0);
        let id = if kind == Kind::Allocation { kind.base() + *created } else { kind.base() + 10 * *created };
        *created += 1;
        assert!(state.live.insert(id, kind).is_none());
        if let Some(parent) = parent {
            state.parents.insert(id, parent);
        }
        Ok(id)
    }

    fn stream_pending_for_network(state: &State, network: u64) -> bool {
        state.networks.get(&network).and_then(|n| n.stream).is_some_and(|stream| state.pending.contains(&stream))
    }

    fn destroy(&self, event: &'static str, object: u64) -> Result<(), SimulationError> {
        let mut state = self.state.lock().expect("test state lock should succeed");
        let kind = state.live.remove(&object).unwrap_or_else(|| panic!("double destruction of {object}"));
        let live_children: Vec<u64> = state
            .parents
            .iter()
            .filter(|(child, parent)| **parent == object && state.live.contains_key(child))
            .map(|(child, _)| *child)
            .collect();
        assert!(live_children.is_empty(), "{event}: children {live_children:?} must close first");
        match kind {
            Kind::Stream => {
                let handle = state.session_streams.iter().find(|(_, stream)| **stream == object).map(|(h, _)| *h);
                if let Some(handle) = handle {
                    assert!(!state.live.contains_key(&handle), "the handle must close before its stream");
                }
                assert!(!state.pending.contains(&object), "synchronize before destroying the stream");
            }
            Kind::Network => {
                assert!(!Self::stream_pending_for_network(&state, object), "synchronize before releasing resources");
            }
            Kind::Workspace => {
                let network = state.workspaces.get(&object).and_then(|w| w.network);
                if let Some(network) = network {
                    assert!(
                        !Self::stream_pending_for_network(&state, network),
                        "synchronize before releasing resources"
                    );
                }
            }
            Kind::Allocation => {
                for (id, network) in &state.networks {
                    let bound = network.bound_output == Some(object) || network.inputs.values().any(|a| *a == object);
                    if bound {
                        assert!(!state.live.contains_key(id), "network must close before buffers");
                        assert!(!Self::stream_pending_for_network(&state, *id), "synchronize before freeing");
                    }
                }
                for (id, workspace) in &state.workspaces {
                    if workspace.bindings.iter().any(|(_, _, address, _)| *address == Some(object)) {
                        assert!(!state.live.contains_key(id), "workspace must close before buffers");
                    }
                }
            }
            _ => {}
        }
        drop(state);
        self.event(event)
    }

    fn events(&self) -> Vec<&'static str> {
        self.state.lock().expect("test state lock should succeed").events.clone()
    }

    fn calls(&self, name: &str) -> usize {
        self.events().iter().filter(|&&event| event == name).count()
    }

    fn assert_released(&self) {
        let state = self.state.lock().expect("test state lock should succeed");
        assert!(state.live.is_empty(), "still live: {:?}", state.live);
    }

    fn network_of_info(&self, info: u64) -> u64 {
        self.state.lock().expect("state").infos.get(&info).expect("live info").network
    }

    fn intermediate_mode_lists(&self, info: u64) -> Vec<Vec<i32>> {
        let network = self.network_of_info(info);
        let state = self.state.lock().expect("state");
        let steps = state.infos.get(&info).expect("live info").path.len();
        let mut modes = self.observations.modes.clone().unwrap_or_else(|| {
            if steps == 3 || !self.observations.use_query_output {
                vec![vec![23, 53], vec![11, 53], vec![11, 71]]
            } else {
                vec![Vec::new(); steps]
            }
        });
        if self.observations.use_query_output {
            if let Some(output) = state.networks.get(&network).and_then(|n| n.output.clone()) {
                if let Some(last) = modes.last_mut() {
                    *last = output;
                }
            }
        }
        modes
    }
}

impl SessionApi for &Fake {
    fn device_count(&self) -> Result<i32, SimulationError> {
        self.event("device_count")?;
        Ok(1)
    }

    fn set_device(&self, ordinal: i32) -> Result<(), SimulationError> {
        assert_eq!(ordinal, 0);
        self.event("set_device")
    }

    fn create_stream(&self) -> Result<u64, SimulationError> {
        let stream = self.create("create_stream", Kind::Stream, None)?;
        self.state.lock().expect("state").last_stream = Some(stream);
        Ok(stream)
    }

    fn synchronize_stream(&self, stream: u64) -> Result<(), SimulationError> {
        let result = self.event("synchronize_stream");
        self.state.lock().expect("state").pending.remove(&stream);
        result
    }

    fn destroy_stream(&self, stream: u64) -> Result<(), SimulationError> {
        self.destroy("destroy_stream", stream)
    }

    fn create_handle(&self) -> Result<u64, SimulationError> {
        let handle = self.create("create_handle", Kind::Handle, None)?;
        let mut state = self.state.lock().expect("state");
        let stream = state.last_stream.expect("a stream precedes the handle");
        state.session_streams.insert(handle, stream);
        Ok(handle)
    }

    fn destroy_handle(&self, handle: u64) -> Result<(), SimulationError> {
        self.destroy("destroy_handle", handle)
    }
}

impl ContractionApi for &Fake {
    type Estimate = f64;

    fn create_network(&self, handle: u64) -> Result<u64, SimulationError> {
        let network = self.create("create_network", Kind::Network, Some(handle))?;
        let mut state = self.state.lock().expect("state");
        state.networks.insert(network, NetworkState { handle, ..NetworkState::default() });
        state.tensors.clear();
        state.output = None;
        Ok(network)
    }

    fn destroy_network(&self, network: u64) -> Result<(), SimulationError> {
        self.destroy("destroy_network", network)
    }

    fn append_tensor(&self, handle: u64, network: u64, tensor: &NativeTensor) -> Result<i64, SimulationError> {
        self.event("append_tensor")?;
        let mut state = self.state.lock().expect("state");
        let selected = state.networks.get_mut(&network).expect("live network");
        assert_eq!(selected.handle, handle);
        let id = if self.corruption == Corruption::DuplicateId {
            90
        } else {
            [90, 7, 400, 12, 55, 66][selected.tensors.len()]
        };
        selected.tensors.push(tensor.clone());
        selected.tensor_ids.push(id);
        state.tensors.push(tensor.clone());
        Ok(id)
    }

    fn set_output(&self, _handle: u64, network: u64, modes: &Vec<i32>) -> Result<(), SimulationError> {
        self.event("set_output")?;
        let mut state = self.state.lock().expect("state");
        state.networks.get_mut(&network).expect("live network").output = Some(modes.clone());
        state.output = Some(modes.clone());
        Ok(())
    }

    fn set_compute_f64(&self, _handle: u64, _network: u64) -> Result<(), SimulationError> {
        self.event("set_compute_f64")
    }

    fn create_optimizer_config(&self, handle: u64) -> Result<u64, SimulationError> {
        self.create("create_optimizer_config", Kind::Config, Some(handle))
    }

    fn destroy_optimizer_config(&self, config: u64) -> Result<(), SimulationError> {
        self.destroy("destroy_optimizer_config", config)
    }

    fn configure_optimizer(
        &self,
        _handle: u64,
        _config: u64,
        setting: OptimizerSetting,
        value: i32,
    ) -> Result<(), SimulationError> {
        self.event("configure_optimizer")?;
        self.state.lock().expect("state").settings.push((setting, value));
        Ok(())
    }

    fn create_optimizer_info(&self, _handle: u64, network: u64) -> Result<u64, SimulationError> {
        {
            let state = self.state.lock().expect("state");
            let selected = state.networks.get(&network).expect("live network");
            assert!(!selected.tensors.is_empty(), "topology precedes optimizer info");
            assert!(selected.output.is_some(), "output precedes optimizer info");
        }
        let info = self.create("create_optimizer_info", Kind::Info, Some(network))?;
        self.state
            .lock()
            .expect("state")
            .infos
            .insert(info, InfoState { network, path: Vec::new(), slicing: Vec::new() });
        Ok(info)
    }

    fn destroy_optimizer_info(&self, info: u64) -> Result<(), SimulationError> {
        self.destroy("destroy_optimizer_info", info)
    }

    fn optimize(
        &self,
        _handle: u64,
        _network: u64,
        _config: u64,
        workspace_constraint: u64,
        info: u64,
    ) -> Result<(), SimulationError> {
        self.event("optimize")?;
        let mut state = self.state.lock().expect("state");
        state.workspace_constraints.push(workspace_constraint);
        let selected = state.infos.get_mut(&info).expect("live info");
        selected.path = self.observations.selected.path.clone();
        selected.slicing = self.observations.selected.slicing.clone();
        Ok(())
    }

    fn set_path(&self, _handle: u64, info: u64, path: &Vec<[i32; 2]>) -> Result<(), SimulationError> {
        self.event("set_path")?;
        self.state.lock().expect("state").infos.get_mut(&info).expect("live info").path = path.clone();
        Ok(())
    }

    fn set_slicing(&self, _handle: u64, info: u64, slicing: &Vec<SlicedMode>) -> Result<(), SimulationError> {
        self.event("set_slicing")?;
        self.state.lock().expect("state").infos.get_mut(&info).expect("live info").slicing = slicing.clone();
        Ok(())
    }

    fn attach_optimizer_info(&self, _handle: u64, _network: u64, _info: u64) -> Result<(), SimulationError> {
        self.event("attach_optimizer_info")
    }

    fn read_path(&self, _handle: u64, info: u64, path: &mut Vec<[i32; 2]>) -> Result<i32, SimulationError> {
        self.event("read_path")?;
        let mut stored = self.state.lock().expect("state").infos.get(&info).expect("live info").path.clone();
        if self.corruption == Corruption::PathOperand && stored.len() > 1 {
            stored[1] = [0, 3];
        }
        if self.corruption == Corruption::ChangedPath && !stored.is_empty() {
            let last = stored.len() - 1;
            stored[last] = [stored[last][1], stored[last][0]];
        }
        for (slot, pair) in path.iter_mut().zip(stored.iter()) {
            *slot = *pair;
        }
        Ok(if self.corruption == Corruption::PathCount { -1 } else { i32::try_from(stored.len()).expect("small") })
    }

    fn num_sliced_modes(&self, _handle: u64, info: u64) -> Result<i32, SimulationError> {
        self.event("num_sliced_modes")?;
        Ok(match self.corruption {
            Corruption::NegativeSlicedCount => -1,
            Corruption::ExcessSlicedCount => i32::MAX,
            _ => i32::try_from(self.state.lock().expect("state").infos.get(&info).expect("live info").slicing.len())
                .expect("small"),
        })
    }

    fn read_slicing(&self, _handle: u64, info: u64, slicing: &mut Vec<SlicedMode>) -> Result<u32, SimulationError> {
        self.event("read_slicing")?;
        let stored = self.state.lock().expect("state").infos.get(&info).expect("live info").slicing.clone();
        for (slot, mode) in slicing.iter_mut().zip(stored.iter()) {
            *slot = *mode;
        }
        Ok(if self.corruption == Corruption::ChangedSlicedCount { 7 } else { u32::try_from(stored.len()).expect("small") })
    }

    fn num_slices(&self, _handle: u64, info: u64) -> Result<i64, SimulationError> {
        self.event("num_slices")?;
        if self.corruption == Corruption::SliceCount {
            return Ok(0);
        }
        let network = self.network_of_info(info);
        let state = self.state.lock().expect("state");
        let slicing = &state.infos.get(&info).expect("live info").slicing;
        let tensors = &state.networks.get(&network).expect("live network").tensors;
        let mut count = 1_i64;
        for slice in slicing {
            let extent = tensors
                .iter()
                .flat_map(|t| t.modes.iter().copied().zip(t.extents.iter().copied()))
                .find(|(mode, _)| *mode == slice.mode)
                .map_or(1, |(_, extent)| extent);
            count *= extent;
        }
        Ok(count)
    }

    fn intermediate_mode_counts(&self, _handle: u64, info: u64, counts: &mut Vec<i32>) -> Result<(), SimulationError> {
        self.event("intermediate_mode_counts")?;
        let lists = self.intermediate_mode_lists(info);
        for (slot, list) in counts.iter_mut().zip(lists.iter()) {
            *slot = i32::try_from(list.len()).expect("small");
        }
        match self.corruption {
            Corruption::NegativeRank => counts[0] = -1,
            Corruption::ExcessRank => counts[0] = i32::MAX,
            _ => {}
        }
        Ok(())
    }

    fn intermediate_modes(&self, _handle: u64, info: u64, modes: &mut Vec<i32>) -> Result<(), SimulationError> {
        self.event("intermediate_modes")?;
        let flat: Vec<i32> = self.intermediate_mode_lists(info).into_iter().flatten().collect();
        for (slot, mode) in modes.iter_mut().zip(flat.iter()) {
            *slot = *mode;
        }
        match self.corruption {
            Corruption::UnknownMode => modes[0] = 999,
            Corruption::DuplicateMode => modes[0] = modes[1],
            _ => {}
        }
        Ok(())
    }

    fn estimate(&self, _handle: u64, _info: u64, estimate: OptimizerEstimate) -> Result<f64, SimulationError> {
        self.event("estimate")?;
        if self.corruption == Corruption::Estimate {
            return Ok(f64::NAN);
        }
        Ok(match estimate {
            OptimizerEstimate::FlopCount => self.observations.estimates[0],
            OptimizerEstimate::LargestTensor => self.observations.estimates[1],
        })
    }

    fn estimate_is_usable(&self, value: &f64) -> bool {
        value.is_finite() && *value >= 0.0
    }

    fn create_slice_group_from_id_range(
        &self,
        handle: u64,
        start: i64,
        stop: i64,
        increment: i64,
    ) -> Result<u64, SimulationError> {
        assert_eq!((start, stop, increment), (0, 8, 2));
        self.create("create_slice_group", Kind::SliceGroup, Some(handle))
    }

    fn destroy_slice_group(&self, slice_group: u64) -> Result<(), SimulationError> {
        self.destroy("destroy_slice_group", slice_group)
    }
}

impl MemoryWorkspaceApi for &Fake {
    type Element = Complex64;

    fn memory_info(&self) -> Result<(usize, usize), SimulationError> {
        self.event("memory_info")?;
        let count = self.calls("memory_info");
        Ok(self.observations.memory[count - 1])
    }

    fn allocate(&self, bytes: usize) -> Result<u64, SimulationError> {
        assert!(bytes > 0);
        let allocation = self.create("allocate", Kind::Allocation, None)?;
        self.state
            .lock()
            .expect("state")
            .allocations
            .insert(allocation, AllocationState { bytes, input: None, output: None });
        Ok(allocation)
    }

    fn free(&self, allocation: u64) -> Result<(), SimulationError> {
        self.destroy("free", allocation)
    }

    fn copy_to_device(&self, destination: u64, source: &Vec<Complex64>) -> Result<(), SimulationError> {
        self.event("copy_to_device")?;
        let mut state = self.state.lock().expect("state");
        let allocation = state.allocations.get_mut(&destination).expect("live allocation");
        assert_eq!(allocation.bytes, 16 * source.len());
        allocation.input = Some(source.clone());
        state.uploads.push((destination, source.clone()));
        Ok(())
    }

    fn copy_from_device(&self, source: u64, elements: usize) -> Result<Vec<Complex64>, SimulationError> {
        self.event("copy_from_device")?;
        let state = self.state.lock().expect("state");
        let allocation = state.allocations.get(&source).expect("live allocation");
        let (stream, result) = allocation.output.as_ref().expect("contracted output");
        assert!(!state.pending.contains(stream), "synchronize before reading the output");
        assert_eq!(allocation.bytes, 16 * elements);
        Ok(result.clone())
    }

    fn create_workspace(&self, handle: u64) -> Result<u64, SimulationError> {
        let workspace = self.create("create_workspace", Kind::Workspace, Some(handle))?;
        self.state
            .lock()
            .expect("state")
            .workspaces
            .insert(workspace, WorkspaceState { network: None, bindings: Vec::new() });
        Ok(workspace)
    }

    fn destroy_workspace(&self, workspace: u64) -> Result<(), SimulationError> {
        self.destroy("destroy_workspace", workspace)
    }

    fn workspace_memory_size(
        &self,
        _handle: u64,
        workspace: u64,
        preference: WorkspacePreference,
        space: MemorySpace,
        kind: WorkspaceKind,
    ) -> Result<i64, SimulationError> {
        self.event("workspace_memory_size")?;
        assert!(self.state.lock().expect("state").live.contains_key(&workspace));
        let value = match (space, kind) {
            (_, WorkspaceKind::Cache) => 4096,
            (MemorySpace::Device, _) => self.numerical.device_minimum,
            (MemorySpace::Host, _) => self.numerical.host_minimum,
        };
        Ok(if preference == WorkspacePreference::Recommended && kind == WorkspaceKind::Scratch && value > 0 {
            value * 2
        } else {
            value
        })
    }

    fn set_workspace_memory(
        &self,
        _handle: u64,
        workspace: u64,
        space: MemorySpace,
        kind: WorkspaceKind,
        allocation: Option<u64>,
        bytes: i64,
    ) -> Result<(), SimulationError> {
        self.event("set_workspace_memory")?;
        match kind {
            WorkspaceKind::Scratch => {
                assert!(allocation.is_some() && bytes > 0);
                if space == MemorySpace::Host {
                    assert_eq!(allocation.expect("host allocation") % 256, 0);
                }
            }
            WorkspaceKind::Cache => assert!(allocation.is_none() && bytes == 0),
        }
        let mut state = self.state.lock().expect("state");
        if space == MemorySpace::Device {
            if let Some(allocation) = allocation {
                assert_eq!(
                    state.allocations.get(&allocation).expect("live allocation").bytes,
                    usize::try_from(bytes).expect("size")
                );
            }
        }
        let binding = (space, kind, allocation, bytes);
        state.workspaces.get_mut(&workspace).expect("live workspace").bindings.push(binding);
        state.workspace_bindings.push(binding);
        Ok(())
    }
}

impl ContractionExecutionApi for &Fake {
    type HostScratch = u64;

    fn allocate_host_scratch(&self, bytes: usize) -> Result<u64, SimulationError> {
        if self.event("allocate_host_scratch").is_err() {
            return Err(SimulationError::HostScratchAllocationFailed { bytes });
        }
        let mut state = self.state.lock().expect("state");
        state.scratch_count += 1;
        Ok(0x10_0000 + 0x1000 * state.scratch_count)
    }

    fn host_scratch_address(&self, scratch: &u64) -> u64 {
        *scratch
    }

    fn values_are_finite(&self, values: &Vec<Complex64>) -> bool {
        values.iter().all(|value| value.re.is_finite() && value.im.is_finite())
    }

    fn compute_contraction_workspace(
        &self,
        _handle: u64,
        network: u64,
        info: u64,
        workspace: u64,
    ) -> Result<(), SimulationError> {
        self.event("compute_contraction_workspace")?;
        assert_eq!(self.network_of_info(info), network);
        let mut state = self.state.lock().expect("state");
        state.workspaces.get_mut(&workspace).expect("live workspace").network = Some(network);
        Ok(())
    }

    fn bind_input(&self, _handle: u64, network: u64, tensor_id: i64, allocation: u64) -> Result<(), SimulationError> {
        self.event("bind_input")?;
        let mut state = self.state.lock().expect("state");
        assert!(state.allocations.get(&allocation).expect("live allocation").input.is_some());
        let selected = state.networks.get_mut(&network).expect("live network");
        assert!(selected.tensor_ids.contains(&tensor_id));
        selected.inputs.insert(tensor_id, allocation);
        state.input_bindings.push((tensor_id, allocation));
        Ok(())
    }

    fn bind_output(&self, _handle: u64, network: u64, allocation: u64) -> Result<(), SimulationError> {
        self.event("bind_output")?;
        let mut state = self.state.lock().expect("state");
        assert!(state.allocations.contains_key(&allocation));
        state.networks.get_mut(&network).expect("live network").bound_output = Some(allocation);
        Ok(())
    }

    fn prepare_contraction(&self, _handle: u64, network: u64, workspace: u64) -> Result<(), SimulationError> {
        self.event("prepare_contraction")?;
        let mut state = self.state.lock().expect("state");
        assert_eq!(state.workspaces.get(&workspace).expect("live workspace").network, Some(network));
        let selected = state.networks.get_mut(&network).expect("live network");
        assert!(selected.inputs.is_empty(), "structural preparation has no inputs");
        assert!(selected.bound_output.is_some());
        selected.prepared = true;
        Ok(())
    }

    fn contract(&self, _handle: u64, network: u64, workspace: u64, stream: u64) -> Result<(), SimulationError> {
        let output = {
            let mut state = self.state.lock().expect("state");
            assert!(state.live.contains_key(&stream));
            assert_eq!(state.workspaces.get(&workspace).expect("live workspace").network, Some(network));
            let selected = state.networks.get(&network).expect("live network");
            assert!(selected.prepared);
            assert_eq!(selected.inputs.len(), selected.tensors.len());
            assert!(!state.pending.contains(&stream));
            let output = selected.bound_output.expect("bound output");
            state.pending.insert(stream);
            state.networks.get_mut(&network).expect("live network").stream = Some(stream);
            output
        };
        self.event("contract")?;
        let mut state = self.state.lock().expect("state");
        let values = if self.numerical.input_dependent {
            contract_small_network(&state, network)
        } else {
            let bytes = state.allocations.get(&output).expect("live output").bytes;
            vec![
                Complex64::new(if self.numerical.nonfinite_output { f64::NAN } else { 0.25 }, -0.125);
                bytes / 16
            ]
        };
        state.allocations.get_mut(&output).expect("live output").output = Some((stream, values));
        Ok(())
    }
}

/// A bounded direct sum over every mode assignment, independent of the path.
fn contract_small_network(state: &State, network: u64) -> Vec<Complex64> {
    let selected = state.networks.get(&network).expect("live network");
    let dimensions: BTreeMap<i32, i64> = selected
        .tensors
        .iter()
        .flat_map(|tensor| tensor.modes.iter().copied().zip(tensor.extents.iter().copied()))
        .collect();
    let count: i64 = dimensions.values().product();
    assert!(count <= 4096, "analytical fixtures only");
    let output_modes = selected.output.as_ref().expect("output modes");
    let output_count: i64 = output_modes.iter().map(|mode| dimensions[mode]).product();
    let mut output = vec![Complex64::new(0.0, 0.0); usize::try_from(output_count).expect("small")];
    for assignment in 0..count {
        let mut remaining = assignment;
        let coordinates: BTreeMap<i32, i64> = dimensions
            .iter()
            .map(|(&mode, &extent)| {
                let coordinate = remaining % extent;
                remaining /= extent;
                (mode, coordinate)
            })
            .collect();
        let offset = |modes: &[i32]| {
            let mut stride = 1;
            let mut offset = 0;
            for mode in modes {
                offset += coordinates[mode] * stride;
                stride *= dimensions[mode];
            }
            usize::try_from(offset).expect("small")
        };
        let product: Complex64 = selected
            .tensors
            .iter()
            .zip(&selected.tensor_ids)
            .map(|(tensor, id)| {
                let input = state.allocations[&selected.inputs[id]].input.as_ref().expect("uploaded");
                input[offset(&tensor.modes)]
            })
            .product();
        output[offset(output_modes)] += product;
    }
    output
}

fn chain_axes() -> Vec<Axis> {
    vec![(11, 2), (23, 3), (37, 5), (53, 7), (71, 11)]
}

fn chain() -> Vec<Vec<Axis>> {
    chain_axes().windows(2).map(|pair| pair.to_vec()).collect()
}

fn query_keep() -> Vec<Axis> {
    vec![(11, 2), (71, 11)]
}

fn axes(ids: &[usize]) -> Vec<Axis> {
    ids.iter().map(|id| *chain_axes().iter().find(|axis| axis.0 == *id).expect("fixture mode")).collect()
}

fn metadata() -> NativeMetadata {
    NativeMetadata { path: P1.to_vec(), slicing: Vec::new(), num_slices: 1 }
}

fn settings() -> OptimizerSettings {
    OptimizerSettings {
        workspace_constraint: 67_108_864,
        hyper_samples: 1,
        threads: 1,
        seed: 17,
        reconfiguration_iterations: 0,
        disable_rank_simplification: true,
        disable_slicing: true,
    }
}

fn run<T>(
    api: &Fake,
    operation: impl FnOnce(&mut ContractionResources<'_, &Fake>) -> Result<T, SimulationError>,
) -> Result<T, SimulationError> {
    let mut session = SessionResources::new(api, 0)?;
    let execution = (|| {
        let topology = Topology::new(&chain(), &query_keep())?;
        let mut resources = ContractionResources::new(&session, topology)?;
        let result = operation(&mut resources);
        combine_execution_and_cleanup(result, resources.close())
    })();
    combine_execution_and_cleanup(execution, session.close())
}

#[test]
fn topology_precedes_info_and_retains_native_ids_separately_from_path_positions() {
    let api = Fake::new(Vec::new(), Corruption::Intact);
    let (exported, modes) = run(&api, |resources| {
        assert_eq!(resources.tensor_ids(), &vec![90, 7, 400, 12]);
        resources.import(&metadata())?;
        Ok((resources.export()?, resources.intermediate_modes()?))
    })
    .expect("valid fixture and successful test operation");
    assert_eq!(exported, metadata());
    assert_eq!(modes, [vec![23, 53], vec![11, 53], vec![11, 71]]);
    let state = api.state.lock().expect("test state lock should succeed");
    assert_eq!(
        state.tensors,
        [
            NativeTensor { modes: vec![11, 23], extents: vec![2, 3] },
            NativeTensor { modes: vec![23, 37], extents: vec![3, 5] },
            NativeTensor { modes: vec![37, 53], extents: vec![5, 7] },
            NativeTensor { modes: vec![53, 71], extents: vec![7, 11] },
        ]
    );
    assert!(!state.events.contains(&"optimize"));
    assert!(!state.events.contains(&"create_optimizer_config"));
    drop(state);
    api.assert_released();
}

#[test]
fn optimize_export_close_and_import_into_fresh_owners_preserves_owned_metadata() {
    let source = Fake::new(Vec::new(), Corruption::Intact);
    let exported = run(&source, |resources| {
        resources.optimize(settings())?;
        resources.export()
    })
    .expect("valid fixture and successful test operation");
    source.assert_released();
    assert_eq!(
        source.state.lock().expect("test state lock should succeed").settings,
        [
            (OptimizerSetting::HyperSamples, 1),
            (OptimizerSetting::Threads, 1),
            (OptimizerSetting::Seed, 17),
            (OptimizerSetting::ReconfigurationIterations, 0),
            (OptimizerSetting::DisableRankSimplification, 1),
            (OptimizerSetting::DisableSlicing, 1),
        ]
    );
    drop(source);
    let destination = Fake::new(Vec::new(), Corruption::Intact);
    let imported = run(&destination, |resources| {
        resources.import(&exported)?;
        resources.export()
    })
    .expect("valid fixture and successful test operation");
    assert_eq!(imported, exported);
    assert!(!destination.events().contains(&"optimize"));
    destination.assert_released();
}

#[test]
fn explicit_internal_unit_extent_slicing_retains_full_coverage() {
    let api = Fake::new(Vec::new(), Corruption::Intact);
    let expected = NativeMetadata { slicing: vec![SlicedMode { mode: 23, extent: 1 }], num_slices: 3, ..metadata() };
    let actual = run(&api, |resources| {
        resources.import(&expected)?;
        resources.export()
    })
    .expect("valid fixture and successful test operation");
    assert_eq!(actual, expected);
    api.assert_released();
}

#[test]
fn malformed_paths_and_slicing_fail_before_native_setters() {
    let mut cases: Vec<NativeMetadata> = [
        vec![],
        vec![[0, 1]],
        vec![[1, 2], [0, 3], [0, 1]],
        vec![[1, 1], [0, 2], [0, 1]],
        vec![[-1, 2], [0, 2], [0, 1]],
        vec![[90, 7], [0, 2], [0, 1]],
        vec![[1, 2], [0, 2], [0, 2]],
    ]
    .into_iter()
    .map(|path| NativeMetadata { path, ..metadata() })
    .collect();
    for slicing in [
        vec![SlicedMode { mode: 999, extent: 1 }],
        vec![SlicedMode { mode: 11, extent: 1 }],
        vec![SlicedMode { mode: 23, extent: 2 }],
        vec![SlicedMode { mode: 23, extent: 0 }],
        vec![SlicedMode { mode: 23, extent: -1 }],
        vec![SlicedMode { mode: 23, extent: 1 }; 2],
    ] {
        cases.push(NativeMetadata { slicing, num_slices: 3, ..metadata() });
    }
    cases.push(NativeMetadata { num_slices: 2, ..metadata() });
    for invalid in cases {
        let api = Fake::new(Vec::new(), Corruption::Intact);
        assert!(run(&api, |resources| resources.import(&invalid)).is_err());
        assert!(!api.events().contains(&"set_path"));
        api.assert_released();
    }
}

#[test]
fn count_and_query_narrowing_fail_without_allocating_large_buffers_or_native_topology() {
    assert!(native_count(usize::MAX, "count").is_err());
    assert!(validate_path(usize::MAX, &[]).is_err());
    let mut invalid_axes = vec![(u32::MAX as usize, 2)];
    if let Ok(dimension) = usize::try_from(1_u64 << 63) {
        invalid_axes.push((11, dimension));
    }
    for axis in invalid_axes {
        let node = vec![axis];
        let api = Fake::new(Vec::new(), Corruption::Intact);
        let mut session = SessionResources::new(&api, 0).expect("valid fixture and successful test operation");
        let built = Topology::new(&vec![node.clone(), node], &Vec::new())
            .and_then(|topology| ContractionResources::new(&session, topology));
        assert!(built.is_err());
        session.close().expect("valid fixture and successful test operation");
        assert!(!api.events().contains(&"create_network"));
        api.assert_released();
    }
}

#[test]
fn slice_count_product_is_checked() {
    let node = vec![(11, 2_000_000_000), (23, 2_000_000_000), (37, 3)];
    let topology =
        Topology::new(&vec![node.clone(), node], &Vec::new()).expect("valid fixture and successful test operation");
    let metadata = NativeMetadata {
        path: vec![[0, 1]],
        slicing: vec![
            SlicedMode { mode: 11, extent: 1 },
            SlicedMode { mode: 23, extent: 1 },
            SlicedMode { mode: 37, extent: 1 },
        ],
        num_slices: 1,
    };
    assert!(matches!(
        topology.validate(&metadata),
        Err(SimulationError::ResourceSizeOverflow { resource: "slice count" })
    ));
}

#[test]
fn unpopulated_or_failed_import_metadata_cannot_be_read() {
    let api = Fake::new(vec![("attach_optimizer_info", 1)], Corruption::Intact);
    run(&api, |resources| {
        assert!(resources.export().is_err());
        assert!(resources.intermediate_modes().is_err());
        assert!(resources.import(&metadata()).is_err());
        assert!(resources.export().is_err());
        Ok(())
    })
    .expect("valid fixture and successful test operation");
    assert!(!api.events().contains(&"read_path"));
    api.assert_released();
}

#[test]
fn invalid_optimizer_settings_do_not_create_config_or_search() {
    for invalid in [
        OptimizerSettings { workspace_constraint: 0, ..settings() },
        OptimizerSettings { hyper_samples: -1, ..settings() },
        OptimizerSettings { threads: 0, ..settings() },
        OptimizerSettings { seed: -1, ..settings() },
        OptimizerSettings { reconfiguration_iterations: -1, ..settings() },
    ] {
        let api = Fake::new(Vec::new(), Corruption::Intact);
        assert!(run(&api, |resources| resources.optimize(invalid)).is_err());
        assert!(!api.events().contains(&"create_optimizer_config"));
        api.assert_released();
    }
}

#[test]
fn all_construction_and_import_boundaries_release_acquired_resources() {
    for (event, occurrence) in [
        ("device_count", 1),
        ("set_device", 1),
        ("create_stream", 1),
        ("create_handle", 1),
        ("set_device", 2),
        ("create_network", 1),
        ("append_tensor", 1),
        ("append_tensor", 2),
        ("append_tensor", 3),
        ("append_tensor", 4),
        ("set_output", 1),
        ("set_compute_f64", 1),
        ("create_optimizer_info", 1),
        ("set_path", 1),
        ("set_slicing", 1),
        ("attach_optimizer_info", 1),
    ] {
        let api = Fake::new(vec![(event, occurrence)], Corruption::Intact);
        let error = run(&api, |resources| resources.import(&metadata())).err().expect("injected failure must propagate");
        assert!(error.message().contains(event), "{event}: {}", error.message());
        api.assert_released();
    }
}

#[test]
fn all_optimization_and_retrieval_boundaries_propagate_failure_and_release_resources() {
    for event in [
        "create_optimizer_config",
        "configure_optimizer",
        "optimize",
        "read_path",
        "num_sliced_modes",
        "read_slicing",
        "num_slices",
        "intermediate_mode_counts",
        "intermediate_modes",
        "estimate",
    ] {
        let api = Fake::new(vec![(event, 1)], Corruption::Intact);
        let error = run(&api, |resources| {
            resources.optimize(settings())?;
            resources.export()?;
            resources.intermediate_modes()?;
            resources.estimate(OptimizerEstimate::FlopCount)
        })
        .err()
        .expect("injected failure must propagate");
        assert!(error.message().contains(event), "{event}: {}", error.message());
        api.assert_released();
    }
}

#[test]
fn native_metadata_is_validated_before_it_escapes() {
    for corruption in [
        Corruption::DuplicateId,
        Corruption::PathCount,
        Corruption::PathOperand,
        Corruption::NegativeSlicedCount,
        Corruption::ExcessSlicedCount,
        Corruption::ChangedSlicedCount,
        Corruption::SliceCount,
        Corruption::NegativeRank,
        Corruption::ExcessRank,
        Corruption::UnknownMode,
        Corruption::DuplicateMode,
        Corruption::Estimate,
    ] {
        let api = Fake::new(Vec::new(), corruption);
        assert!(
            matches!(
                run(&api, |resources| {
                    resources.import(&metadata())?;
                    resources.export()?;
                    resources.intermediate_modes()?;
                    resources.estimate(OptimizerEstimate::LargestTensor)
                }),
                Err(SimulationError::InvalidNativeResult { .. })
            ),
            "{corruption:?}"
        );
        api.assert_released();
    }
}

#[test]
fn construction_error_and_cleanup_error_are_both_preserved() {
    for failures in [
        vec![("create_handle", 1), ("destroy_stream", 1)],
        vec![("create_optimizer_info", 1), ("destroy_network", 1)],
        vec![("set_output", 1), ("destroy_network", 1)],
    ] {
        let api = Fake::new(failures.clone(), Corruption::Intact);
        let error = run(&api, |_| Ok(())).err().expect("injected failure must propagate");
        assert!(matches!(error, SimulationError::ExecutionAndCleanupFailed { .. }));
        for (event, _) in failures {
            assert!(error.message().contains(event));
        }
        api.assert_released();
    }
}

#[test]
fn operation_and_cleanup_failures_do_not_hide_each_other_or_strand_resources() {
    let failures = vec![
        ("read_path", 1),
        ("destroy_optimizer_info", 1),
        ("destroy_optimizer_config", 1),
        ("destroy_network", 1),
        ("destroy_handle", 1),
    ];
    let api = Fake::new(failures.clone(), Corruption::Intact);
    let error = run(&api, |resources| {
        resources.optimize(settings())?;
        resources.export()
    })
    .err()
    .expect("injected failure must propagate");
    for (event, _) in failures {
        assert!(error.message().contains(event), "{}", error.message());
    }
    api.assert_released();
}

#[test]
fn cleanup_failure_is_reported_even_after_successful_operation() {
    for event in [
        "destroy_optimizer_info",
        "destroy_optimizer_config",
        "destroy_network",
        "synchronize_stream",
        "destroy_handle",
        "destroy_stream",
    ] {
        let api = Fake::new(vec![(event, 1)], Corruption::Intact);
        let error = run(&api, |resources| {
            resources.optimize(settings())?;
            resources.export()
        })
        .err()
        .expect("injected failure must propagate");
        assert!(error.message().contains(event), "{event}: {}", error.message());
        api.assert_released();
    }
}

#[test]
fn slice_group_borrows_parent_and_rejects_zero_step_before_native_creation() {
    let api = Fake::new(Vec::new(), Corruption::Intact);
    let mut session = SessionResources::new(&api, 0).expect("valid fixture and successful test operation");
    assert!(SliceGroup::from_id_range(&session, 0, 8, 0).is_err());
    assert!(!api.events().contains(&"create_slice_group"));
    let group = SliceGroup::from_id_range(&session, 0, 8, 2).expect("valid fixture and successful test operation");
    assert_eq!(group.as_handle(), 6);
    group.close().expect("slice group cleanup");
    session.close().expect("valid fixture and successful test operation");
    api.assert_released();
}


fn optimizer_settings() -> CuTensorNetContractionOptimizerSettings {
    let native = settings();
    CuTensorNetContractionOptimizerSettings {
        hyper_samples: native.hyper_samples,
        threads: native.threads,
        seed: native.seed,
        reconfiguration_iterations: native.reconfiguration_iterations,
        disable_rank_simplification: native.disable_rank_simplification,
    }
}

fn constraints(bytes: u64) -> PlanningConstraints {
    PlanningConstraints { workspace_bytes: Some(bytes) }
}

fn automatic() -> PlanningConstraints {
    PlanningConstraints { workspace_bytes: None }
}

fn step(operands: Vec<Operand>, result: Vec<Axis>) -> PlanStep {
    PlanStep { operands, result }
}

fn supplied_plan() -> Vec<PlanStep> {
    vec![
        step(vec![Operand::Input(1), Operand::Input(2)], axes(&[53, 23])),
        step(vec![Operand::Input(0), Operand::Result(0)], axes(&[53, 11])),
        step(vec![Operand::Input(3), Operand::Result(1)], query_keep()),
    ]
}

fn collapse_failure(failure: PreparationFailure) -> SimulationError {
    match combine_execution_and_cleanup::<()>(Err(failure.error), failure.cleanup.map_or(Ok(()), Err)) {
        Err(error) => error,
        Ok(()) => unreachable!("a preparation failure holds its primary failure"),
    }
}

fn optimize(
    api: &Fake,
    constraints: PlanningConstraints,
) -> Result<(Vec<PlanStep>, CuTensorNetPlanningReport<f64>), SimulationError> {
    let mut session = SessionResources::new(api, 0)?;
    let result =
        CuTensorNetContractionOptimizer::new(&session).optimize(&chain(), &query_keep(), constraints, optimizer_settings());
    combine_execution_and_cleanup(result, session.close())
}

fn import(api: &Fake) -> Result<(), SimulationError> {
    let mut session = SessionResources::new(api, 0)?;
    let result = match import_plan(&session, &chain(), &query_keep(), &supplied_plan()) {
        Ok(resources) => resources.close(),
        Err(failure) => Err(collapse_failure(failure)),
    };
    combine_execution_and_cleanup(result, session.close())
}

fn assert_no_numerical_work(api: &Fake) {
    for event in [
        "allocate",
        "copy_to_device",
        "create_workspace",
        "workspace_memory_size",
        "set_workspace_memory",
        "prepare_contraction",
        "contract",
    ] {
        assert!(!api.events().contains(&event), "unexpected {event}");
    }
}

fn operands(plan: &[PlanStep]) -> Vec<Vec<Operand>> {
    plan.iter().map(|step| step.operands.clone()).collect()
}

#[test]
fn selected_plan_and_report_outlive_optimizer_session_and_query() {
    let source = Fake::with_observations(
        Vec::new(),
        Corruption::Intact,
        NativeObservations { estimates: [1234.5, 0.0], ..NativeObservations::default() },
    );
    let (plan, report) = optimize(&source, constraints(67_108_864)).expect("shared optimizer succeeds");
    source.assert_released();
    assert_no_numerical_work(&source);
    assert!(!source.events().contains(&"memory_info"));
    assert_eq!(plan[0].operands, [Operand::Input(1), Operand::Input(2)]);
    assert_eq!(plan[1].operands, [Operand::Input(0), Operand::Result(0)]);
    assert_eq!(plan[2].operands, [Operand::Input(3), Operand::Result(1)]);
    assert_eq!(report.effective_workspace_bytes, 67_108_864);
    assert_eq!(report.workspace_source, WorkspaceBudgetSource::Explicit);
    let shared = &report.planning;
    assert_eq!(shared.optimizer, "cuTensorNet");
    assert_eq!(shared.accepted_constraints, constraints(67_108_864));
    let estimates: Vec<(&str, EstimateKind, f64)> =
        shared.estimates.iter().map(|e: &CostEstimate<f64>| (e.provider, e.quantity, e.value)).collect();
    assert_eq!(
        estimates,
        [("cuTensorNet", EstimateKind::FlopCount, 1234.5), ("cuTensorNet", EstimateKind::LargestIntermediateElements, 0.0)]
    );
    assert!(source.state.lock().expect("state").settings.contains(&(OptimizerSetting::DisableSlicing, 1)));
    drop(source);

    for _ in 0..2 {
        let destination = Fake::new(Vec::new(), Corruption::Intact);
        let mut session = SessionResources::new(&destination, 0).expect("session");
        let resources = import_plan(&session, &chain(), &query_keep(), &plan).ok().expect("fresh import");
        assert_eq!(resources.tensor_ids(), &vec![90, 7, 400, 12]);
        resources.close().expect("close imported topology");
        session.close().expect("close destination session");
        assert!(!destination.events().contains(&"optimize"));
        assert!(!destination.events().contains(&"create_optimizer_config"));
        assert!(!destination.events().contains(&"estimate"));
        assert_no_numerical_work(&destination);
        destination.assert_released();
    }
}

#[test]
fn reversed_pairs_and_ordered_output_do_not_depend_on_native_mode_order() {
    let selected = NativeMetadata { path: vec![[2, 1], [2, 0], [1, 0]], ..metadata() };
    let api = Fake::with_observations(
        Vec::new(),
        Corruption::Intact,
        NativeObservations { selected: selected.clone(), ..NativeObservations::default() },
    );
    let keep = axes(&[71, 11]);
    let mut session = SessionResources::new(&api, 0).expect("session");
    let (plan, _) = CuTensorNetContractionOptimizer::new(&session)
        .optimize(&chain(), &keep, constraints(17), optimizer_settings())
        .expect("optimize reversed pairs");
    assert_eq!(plan[0].operands, [Operand::Input(2), Operand::Input(1)]);
    assert_eq!(plan[1].operands, [Operand::Result(0), Operand::Input(0)]);
    assert_eq!(plan[2].operands, [Operand::Result(1), Operand::Input(3)]);
    assert_eq!(plan[0].result, axes(&[53, 23]));
    assert_eq!(plan[1].result, axes(&[53, 11]));
    assert_eq!(plan[2].result, keep);
    let imported = import_plan(&session, &chain(), &keep, &plan).ok().expect("import selected path");
    assert_eq!(imported.export().expect("owned metadata"), selected);
    imported.close().expect("close import");
    session.close().expect("close session");
    assert_eq!(api.state.lock().expect("state").output, Some(vec![71, 11]));
    assert_eq!(api.calls("optimize"), 1);
    api.assert_released();
}

#[test]
fn supplied_logical_axes_are_not_rewritten_to_native_order() {
    let api = Fake::new(Vec::new(), Corruption::Intact);
    let mut session = SessionResources::new(&api, 0).expect("session");
    let plan = supplied_plan();
    let original = plan.clone();
    let resources = import_plan(&session, &chain(), &query_keep(), &plan).ok().expect("supported logical order");
    assert_eq!(resources.export().expect("native metadata"), metadata());
    assert_eq!(operands(&plan), operands(&original));
    for (left, right) in plan.iter().zip(&original) {
        assert_eq!(left.result, right.result);
    }
    resources.close().expect("close import");
    session.close().expect("close session");
    assert!(!api.events().contains(&"optimize"));
    api.assert_released();
}

#[test]
fn scalar_results_diagonals_and_hyperedges_keep_query_semantics() {
    let scalar_network = vec![axes(&[11, 23]), axes(&[11, 23])];
    let hyperedge_network = vec![axes(&[11, 11, 23]), axes(&[23, 37]), axes(&[23, 37])];
    for (network, keep, path, modes) in [
        (scalar_network, axes(&[]), vec![[1, 0]], vec![vec![]]),
        (hyperedge_network, axes(&[11]), vec![[0, 1], [0, 1]], vec![vec![37, 11, 23], vec![11]]),
    ] {
        let selected = NativeMetadata { path, slicing: Vec::new(), num_slices: 1 };
        let api = Fake::with_observations(
            Vec::new(),
            Corruption::Intact,
            NativeObservations { selected: selected.clone(), modes: Some(modes), ..NativeObservations::default() },
        );
        let mut session = SessionResources::new(&api, 0).expect("session");
        let (plan, _) = CuTensorNetContractionOptimizer::new(&session)
            .optimize(&network, &keep, constraints(1024), optimizer_settings())
            .expect("native plan satisfies shared semantics");
        assert_eq!(plan.last().expect("final step").result, keep);
        let imported = import_plan(&session, &network, &keep, &plan).ok().expect("fresh import");
        assert_eq!(imported.export().expect("imported metadata"), selected);
        imported.close().expect("close import");
        session.close().expect("close session");
        api.assert_released();
    }
}

#[test]
fn automatic_budget_is_half_of_current_free_memory_each_time() {
    let api = Fake::with_observations(
        Vec::new(),
        Corruption::Intact,
        NativeObservations { memory: vec![(1025, 4096), (259, 4096), (2, 4096)], ..NativeObservations::default() },
    );
    let mut session = SessionResources::new(&api, 0).expect("session");
    {
        let optimizer = CuTensorNetContractionOptimizer::new(&session);
        for expected in [512, 129, 1] {
            let (_, report) = optimizer
                .optimize(&chain(), &query_keep(), automatic(), optimizer_settings())
                .expect("automatic budget");
            assert_eq!(report.effective_workspace_bytes, expected);
            assert_eq!(report.workspace_source, WorkspaceBudgetSource::Automatic);
            assert_eq!(report.planning.accepted_constraints.workspace_bytes, None);
        }
    }
    session.close().expect("close session");
    assert_eq!(api.state.lock().expect("state").workspace_constraints, [512, 129, 1]);
    let events = api.events();
    for (index, event) in events.iter().enumerate() {
        if *event == "memory_info" {
            assert_eq!(events[index - 1], "set_device");
        }
    }
    assert_no_numerical_work(&api);
    api.assert_released();
}

#[test]
fn explicit_budget_is_forwarded_without_a_memory_probe() {
    for bytes in [1, u64::MAX] {
        let api = Fake::new(vec![("memory_info", 1)], Corruption::Intact);
        let (_, report) = optimize(&api, constraints(bytes)).expect("explicit budget");
        assert_eq!(report.effective_workspace_bytes, bytes);
        assert_eq!(api.state.lock().expect("state").workspace_constraints, [bytes]);
        assert!(!api.events().contains(&"memory_info"));
        api.assert_released();
    }
}

#[test]
fn invalid_or_unavailable_budgets_fail_without_native_topology() {
    let api = Fake::new(Vec::new(), Corruption::Intact);
    let error = optimize(&api, constraints(0)).err().expect("zero is not automatic");
    assert!(matches!(error, SimulationError::InvalidContractionConfiguration { .. }));
    assert!(error.message().contains("path-search"));
    assert!(!api.events().contains(&"memory_info"));
    assert!(!api.events().contains(&"create_network"));
    api.assert_released();

    for memory in [(0, 4096), (1, 4096), (4097, 4096)] {
        let api = Fake::with_observations(
            Vec::new(),
            Corruption::Intact,
            NativeObservations { memory: vec![memory], ..NativeObservations::default() },
        );
        let error = optimize(&api, automatic()).err().expect("invalid budget");
        if memory.0 > memory.1 {
            assert!(matches!(error, SimulationError::InvalidNativeResult { .. }));
        } else {
            assert!(error.message().contains("automatic workspace budget"));
        }
        assert!(!api.events().contains(&"create_network"));
        api.assert_released();
    }
    for event in [("memory_info", 1), ("set_device", 2)] {
        let api = Fake::new(vec![event], Corruption::Intact);
        assert!(optimize(&api, automatic()).is_err());
        assert!(!api.events().contains(&"create_network"));
        api.assert_released();
    }
}

#[test]
fn invalid_settings_fail_without_native_topology() {
    for settings in [
        CuTensorNetContractionOptimizerSettings { hyper_samples: -1, ..optimizer_settings() },
        CuTensorNetContractionOptimizerSettings { threads: 0, ..optimizer_settings() },
        CuTensorNetContractionOptimizerSettings { seed: -1, ..optimizer_settings() },
        CuTensorNetContractionOptimizerSettings { reconfiguration_iterations: -1, ..optimizer_settings() },
    ] {
        let api = Fake::new(Vec::new(), Corruption::Intact);
        let mut session = SessionResources::new(&api, 0).expect("session");
        assert!(matches!(
            CuTensorNetContractionOptimizer::new(&session).optimize(&chain(), &query_keep(), constraints(1), settings),
            Err(SimulationError::InvalidContractionConfiguration { .. })
        ));
        session.close().expect("close session");
        assert!(!api.events().contains(&"create_network"));
        api.assert_released();
    }
}

#[test]
fn invalid_plan_and_unsupported_capabilities_are_distinct() {
    let api = Fake::new(Vec::new(), Corruption::Intact);
    let mut session = SessionResources::new(&api, 0).expect("session");
    let nary = vec![step((0..4).map(Operand::Input).collect(), query_keep())];
    assert!(matches!(
        import_plan(&session, &chain(), &query_keep(), &nary).err().map(|failure| failure.error),
        Some(SimulationError::UnsupportedContraction { .. })
    ));
    let single = vec![axes(&[11, 71])];
    let single_keep = query_keep();
    let trivial: Vec<PlanStep> = Vec::new();
    assert!(matches!(
        import_plan(&session, &single, &single_keep, &trivial).err().map(|failure| failure.error),
        Some(SimulationError::UnsupportedContraction { .. })
    ));
    assert!(matches!(
        CuTensorNetContractionOptimizer::new(&session).optimize(
            &single,
            &single_keep,
            constraints(1),
            optimizer_settings()
        ),
        Err(SimulationError::UnsupportedContraction { .. })
    ));
    let skipping = vec![
        step(vec![Operand::Input(1), Operand::Input(2)], axes(&[53, 23])),
        step(vec![Operand::Input(1), Operand::Result(0)], axes(&[53, 11])),
        step(vec![Operand::Input(3), Operand::Result(1)], query_keep()),
    ];
    assert!(matches!(
        import_plan(&session, &chain(), &query_keep(), &skipping).err().map(|failure| failure.error),
        Some(SimulationError::InvalidContractionPlan { .. })
    ));
    session.close().expect("close session");
    assert!(!api.events().contains(&"create_network"));
    api.assert_released();
}

#[test]
fn native_width_capabilities_are_checked_before_creating_resources() {
    let mut unsupported = vec![(u32::MAX as usize, 2)];
    if let Ok(extent) = usize::try_from(1_u64 << 63) {
        unsupported.push((11, extent));
    }
    for axis in unsupported {
        let network = vec![vec![axis], vec![axis]];
        let keep: Vec<Axis> = Vec::new();
        let plan = vec![step(vec![Operand::Input(0), Operand::Input(1)], Vec::new())];
        let api = Fake::new(Vec::new(), Corruption::Intact);
        let mut session = SessionResources::new(&api, 0).expect("session");
        assert!(matches!(
            import_plan(&session, &network, &keep, &plan).err().map(|failure| failure.error),
            Some(SimulationError::UnsupportedContraction { .. })
        ));
        assert!(matches!(
            CuTensorNetContractionOptimizer::new(&session).optimize(&network, &keep, constraints(1), optimizer_settings()),
            Err(SimulationError::UnsupportedContraction { .. })
        ));
        session.close().expect("close session");
        assert!(!api.events().contains(&"create_network"));
        api.assert_released();
    }
}

#[test]
fn sliced_native_selection_is_not_silently_exported_as_unsliced() {
    let api = Fake::with_observations(
        Vec::new(),
        Corruption::Intact,
        NativeObservations {
            selected: NativeMetadata { slicing: vec![SlicedMode { mode: 23, extent: 1 }], num_slices: 3, ..metadata() },
            ..NativeObservations::default()
        },
    );
    assert!(matches!(optimize(&api, constraints(1024)), Err(SimulationError::UnsupportedContraction { .. })));
    api.assert_released();
}

#[test]
fn native_mode_sets_are_validated_not_just_mode_membership() {
    for modes in [
        vec![vec![23], vec![11, 53], vec![11, 71]],
        vec![vec![23, 37], vec![11, 53], vec![11, 71]],
        vec![vec![23, 71], vec![11, 53], vec![11, 71]],
        vec![vec![23, 53], vec![11, 53], vec![11, 53]],
    ] {
        let api = Fake::with_observations(
            Vec::new(),
            Corruption::Intact,
            NativeObservations { modes: Some(modes), ..NativeObservations::default() },
        );
        assert!(matches!(optimize(&api, constraints(1024)), Err(SimulationError::InvalidNativeResult { .. })));
        api.assert_released();
    }
}

#[test]
fn optimizer_native_failures_and_missing_estimates_propagate_with_cleanup() {
    for failure in [
        ("create_network", 1),
        ("append_tensor", 2),
        ("set_output", 1),
        ("set_compute_f64", 1),
        ("create_optimizer_info", 1),
        ("create_optimizer_config", 1),
        ("configure_optimizer", 4),
        ("optimize", 1),
        ("read_path", 1),
        ("num_sliced_modes", 1),
        ("read_slicing", 1),
        ("num_slices", 1),
        ("intermediate_mode_counts", 1),
        ("intermediate_modes", 1),
        ("estimate", 1),
        ("estimate", 2),
    ] {
        let api = Fake::new(vec![failure], Corruption::Intact);
        let error = optimize(&api, constraints(1024)).err().expect("native failure");
        assert!(error.message().contains(failure.0), "{}", error.message());
        api.assert_released();
    }
    for values in [[f64::NAN, 1.0], [1.0, f64::INFINITY], [1.0, -1.0]] {
        let api = Fake::with_observations(
            Vec::new(),
            Corruption::Intact,
            NativeObservations { estimates: values, ..NativeObservations::default() },
        );
        assert!(matches!(optimize(&api, constraints(1024)), Err(SimulationError::InvalidNativeResult { .. })));
        api.assert_released();
    }
}

#[test]
fn malformed_native_metadata_does_not_escape_the_shared_adapter() {
    for corruption in [
        Corruption::DuplicateId,
        Corruption::PathCount,
        Corruption::PathOperand,
        Corruption::NegativeSlicedCount,
        Corruption::ExcessSlicedCount,
        Corruption::ChangedSlicedCount,
        Corruption::SliceCount,
        Corruption::NegativeRank,
        Corruption::ExcessRank,
        Corruption::UnknownMode,
        Corruption::DuplicateMode,
    ] {
        let api = Fake::new(Vec::new(), corruption);
        assert!(
            matches!(optimize(&api, constraints(1024)), Err(SimulationError::InvalidNativeResult { .. })),
            "{corruption:?}"
        );
        api.assert_released();
        let api = Fake::new(Vec::new(), corruption);
        assert!(matches!(import(&api), Err(SimulationError::InvalidNativeResult { .. })), "{corruption:?}");
        api.assert_released();
    }
}

#[test]
fn import_failures_close_fresh_owners_without_search() {
    for failure in [
        ("create_network", 1),
        ("append_tensor", 2),
        ("set_output", 1),
        ("set_compute_f64", 1),
        ("create_optimizer_info", 1),
        ("set_path", 1),
        ("set_slicing", 1),
        ("attach_optimizer_info", 1),
        ("read_path", 1),
        ("num_sliced_modes", 1),
        ("read_slicing", 1),
        ("num_slices", 1),
        ("intermediate_mode_counts", 1),
        ("intermediate_modes", 1),
    ] {
        let api = Fake::new(vec![failure], Corruption::Intact);
        let error = import(&api).err().expect("failed import");
        assert!(error.message().contains(failure.0), "{}", error.message());
        assert!(!api.events().contains(&"optimize"));
        assert!(!api.events().contains(&"create_optimizer_config"));
        api.assert_released();
    }
    let api = Fake::new(Vec::new(), Corruption::ChangedPath);
    assert!(matches!(import(&api), Err(SimulationError::InvalidNativeResult { .. })));
    api.assert_released();
}

#[test]
fn primary_conversion_and_cleanup_failures_are_both_observable() {
    for failures in [
        vec![("set_output", 1), ("destroy_network", 1)],
        vec![("estimate", 1), ("destroy_optimizer_info", 1), ("destroy_optimizer_config", 1), ("destroy_network", 1)],
    ] {
        let api = Fake::new(failures.clone(), Corruption::Intact);
        let error = optimize(&api, constraints(1024)).err().expect("combined failure");
        assert!(matches!(error, SimulationError::ExecutionAndCleanupFailed { .. }));
        for (event, _) in failures {
            assert!(error.message().contains(event), "{}", error.message());
            assert_eq!(api.calls(event), 1);
        }
        api.assert_released();
    }
    let api = Fake::new(vec![("destroy_optimizer_info", 1), ("destroy_network", 1)], Corruption::ChangedPath);
    let error = import(&api).err().expect("conversion and cleanup failure");
    assert!(matches!(error, SimulationError::ExecutionAndCleanupFailed { .. }));
    for message in ["changed the supplied path", "destroy_optimizer_info", "destroy_network"] {
        assert!(error.message().contains(message), "{}", error.message());
    }
    api.assert_released();
}

#[test]
fn successful_planning_does_not_hide_cleanup_failure() {
    for event in ["destroy_optimizer_info", "destroy_optimizer_config", "destroy_network"] {
        let api = Fake::new(vec![(event, 1)], Corruption::Intact);
        let error = optimize(&api, constraints(1024)).err().expect("cleanup failure");
        assert!(error.message().contains(event), "{}", error.message());
        assert_eq!(api.calls(event), 1);
        api.assert_released();
    }
}

type Executable<'s> = CuTensorNetExecutableContraction<'s, &'s Fake, Vec<PlanStep>>;

fn limits() -> ExecutionLimits {
    ExecutionLimits { device_scratch_bytes: Some(1024), host_scratch_bytes: Some(256) }
}

fn shared_chain() -> Vec<Vec<Axis>> {
    let axes: Vec<Axis> = [11, 23, 37, 53, 71].into_iter().map(|id| (id, 2)).collect();
    axes.windows(2).map(|pair| pair.to_vec()).collect()
}

fn shared_keep() -> Vec<Axis> {
    vec![(11, 2), (71, 2)]
}

fn coefficients() -> Vec<Vec<Complex64>> {
    vec![vec![Complex64::new(0.5, -0.25); 4]]
}

fn selected_plan(keep: &[Axis]) -> Vec<PlanStep> {
    let second: Vec<Axis> = [53, 11]
        .into_iter()
        .filter(|&id| id == 53 || keep.iter().any(|axis| axis.0 == id))
        .map(|id| (id, 2))
        .collect();
    vec![
        step(vec![Operand::Input(1), Operand::Input(2)], vec![(53, 2), (23, 2)]),
        step(vec![Operand::Input(0), Operand::Result(0)], second),
        step(vec![Operand::Input(3), Operand::Result(1)], keep.to_vec()),
    ]
}

fn matrix_dimensions() -> Vec<usize> {
    vec![2, 2]
}

fn reals(values: &[f64]) -> Vec<Complex64> {
    values.iter().map(|&value| Complex64::new(value, 0.0)).collect()
}

fn register<'s>(
    execution: &mut Executable<'s>,
    values: &Vec<Complex64>,
    mutability: InputMutability,
) -> Result<InputId, SimulationError> {
    let dimensions = matrix_dimensions();
    execution.register_input(TensorInput { dimensions: &dimensions, values }, mutability)
}

fn replace<'s>(execution: &mut Executable<'s>, id: InputId, values: &Vec<Complex64>) -> Result<(), SimulationError> {
    let dimensions = matrix_dimensions();
    execution.replace_input(id, TensorInput { dimensions: &dimensions, values })
}

fn prepare_numerical<'s>(
    session: &'s SessionResources<&'s Fake>,
    inputs: &Vec<Vec<Axis>>,
    keep: &Vec<Axis>,
    buffers: &[Vec<Complex64>],
    bindings: &[usize],
    limits: ExecutionLimits,
    owner: usize,
) -> Result<(Executable<'s>, Vec<InputId>), SimulationError> {
    let mut execution = session.prepare(inputs, keep, &selected_plan(keep), limits, owner).map_err(collapse_failure)?;
    let result = (|| {
        let mut ids = Vec::new();
        for values in buffers {
            ids.push(register(&mut execution, values, InputMutability::Immutable)?);
        }
        bindings
            .iter()
            .map(|&index| {
                ids.get(index).copied().ok_or(SimulationError::InvalidContractionConfiguration {
                    reason: "test input index out of range",
                })
            })
            .collect::<Result<Vec<_>, _>>()
    })();
    match result {
        Ok(inputs) => Ok((execution, inputs)),
        Err(error) => combine_execution_and_cleanup(Err(error), execution.close()),
    }
}

fn run_numerical<T>(
    api: &Fake,
    buffers: &[Vec<Complex64>],
    bindings: &[usize],
    limits: ExecutionLimits,
    operation: impl FnOnce(&mut Executable<'_>, &Vec<InputId>) -> Result<T, SimulationError>,
) -> Result<T, SimulationError> {
    let mut session = SessionResources::new(api, 0)?;
    let result = (|| {
        let (mut execution, inputs) =
            prepare_numerical(&session, &shared_chain(), &shared_keep(), buffers, bindings, limits, 1)?;
        let result = operation(&mut execution, &inputs);
        combine_execution_and_cleanup(result, execution.close())
    })();
    combine_execution_and_cleanup(result, session.close())
}

fn assert_poisoned(execution: &mut Executable<'_>, api: &Fake, id: InputId) {
    let report = execution.resources();
    let before = api.events();
    assert!(matches!(execution.execute(&vec![id; 4]), Err(SimulationError::UnusableContraction)));
    assert!(matches!(
        register(execution, &reals(&[1.; 4]), InputMutability::Mutable),
        Err(SimulationError::UnusableContraction)
    ));
    assert!(matches!(replace(execution, id, &reals(&[1.; 4])), Err(SimulationError::UnusableContraction)));
    assert_eq!(execution.resources(), report);
    assert_eq!(api.events(), before);
}

#[test]
fn successful_cleanup_allows_sequential_numerical_preparations() {
    let api = Fake::numerical(vec![], NumericalSettings::default());
    let mut session = SessionResources::new(&api, 0).expect("session");
    for (owner, (keep, output_count)) in [(shared_keep(), 4), (Vec::new(), 1), (shared_keep(), 4)].into_iter().enumerate()
    {
        let (mut execution, inputs) =
            prepare_numerical(&session, &shared_chain(), &keep, &coefficients(), &[0; 4], limits(), owner)
                .ok()
                .expect("fresh preparation");
        assert_eq!(execution.execute(&inputs).expect("output").len(), output_count);
        execution.close().expect("successful executable cleanup");
    }
    session.close().expect("session cleanup");
    api.assert_released();
    assert_eq!(api.calls("prepare_contraction"), 3);
}

#[test]
fn independent_live_owners_keep_their_outputs_and_cleanup_separate() {
    for cleanup_failures in [vec![], vec![("destroy_workspace", 1), ("free", 1)]] {
        let expect_cleanup_error = !cleanup_failures.is_empty();
        let api = Fake::numerical(cleanup_failures, NumericalSettings::default());
        let mut first_session = SessionResources::new(&api, 0).expect("first session");
        let mut second_session = SessionResources::new(&api, 0).expect("second session");
        let (mut first, first_inputs) =
            prepare_numerical(&first_session, &shared_chain(), &shared_keep(), &coefficients(), &[0; 4], limits(), 1)
                .ok()
                .expect("first executable");
        let (mut second, second_inputs) =
            prepare_numerical(&second_session, &shared_chain(), &Vec::new(), &coefficients(), &[0; 4], limits(), 2)
                .ok()
                .expect("second executable");
        assert_eq!(first.execute(&first_inputs).expect("first output").len(), 4);
        let second_output = second.execute(&second_inputs).expect("second output");
        assert_eq!(second_output, vec![Complex64::new(0.25, -0.125)]);
        assert_eq!(first.close().is_err(), expect_cleanup_error);
        first_session.close().expect("first session cleanup");
        assert_eq!(second.execute(&second_inputs).expect("surviving executable"), second_output);
        second.close().expect("second executable cleanup");
        second_session.close().expect("second session cleanup");
        api.assert_released();
    }
}

#[test]
fn a_failed_contraction_does_not_block_an_independent_stream() {
    let api = Fake::numerical(vec![("contract", 1)], NumericalSettings::default());
    let mut first_session = SessionResources::new(&api, 0).expect("first session");
    let mut second_session = SessionResources::new(&api, 0).expect("second session");
    let (mut first, first_inputs) =
        prepare_numerical(&first_session, &shared_chain(), &shared_keep(), &coefficients(), &[0; 4], limits(), 1)
            .ok()
            .expect("first executable");
    let (mut second, second_inputs) =
        prepare_numerical(&second_session, &shared_chain(), &shared_keep(), &coefficients(), &[0; 4], limits(), 2)
            .ok()
            .expect("second executable");
    assert!(first.execute(&first_inputs).is_err());
    assert_eq!(second.execute(&second_inputs).expect("independent stream").len(), 4);
    second.close().expect("independent cleanup");
    second_session.close().expect("second session cleanup");
    first.close().expect("drain and close failed executable");
    first_session.close().expect("first session cleanup");
    api.assert_released();
}

#[test]
fn shared_buffers_native_ids_repeated_readback_and_owned_results() {
    let api = Fake::numerical(vec![], NumericalSettings::default());
    let output = run_numerical(&api, &coefficients(), &[0; 4], limits(), |execution, inputs| {
        assert_eq!(execution.metadata()?, metadata());
        assert_eq!(execution.resources().selected_input_count, None);
        assert_eq!(execution.resources().selected_input_bytes, None);
        assert_eq!(execution.resources().resident_input_count, Some(1));
        assert_eq!(execution.resources().resident_input_bytes, Some(64));
        assert_eq!(execution.resources().output_bytes, Some(64));
        assert_eq!(execution.resources().owned_device_bytes, Some(640));
        let first = execution.execute(inputs)?;
        assert_eq!(execution.resources().selected_input_count, Some(1));
        assert_eq!(execution.resources().selected_input_bytes, Some(64));
        assert_eq!(first, execution.execute(inputs)?);
        Ok(first)
    })
    .expect("execution");
    api.assert_released();
    assert_eq!(output, vec![Complex64::new(0.25, -0.125); 4]);
    let state = api.state.lock().expect("state");
    assert_eq!(state.uploads.len(), 1);
    assert_eq!(state.input_bindings.iter().map(|(id, _)| *id).collect::<Vec<_>>(), [90, 7, 400, 12]);
    assert!(state.input_bindings.windows(2).all(|w| w[0].1 == w[1].1));
    assert!(!state.events.contains(&"optimize"));
    assert!(!state.events.contains(&"create_optimizer_config"));
    assert_eq!(state.events.iter().filter(|&&event| event == "prepare_contraction").count(), 1);
}

#[test]
fn validates_bindings_and_values_before_uploading_or_binding() {
    for (buffers, bindings) in [
        (coefficients(), vec![0; 3]),
        (coefficients(), vec![1; 4]),
        (vec![vec![Complex64::new(1.0, 0.0); 3]], vec![0; 4]),
        (vec![vec![Complex64::new(f64::NAN, 0.0); 4]], vec![0; 4]),
    ] {
        let api = Fake::numerical(vec![], NumericalSettings::default());
        assert!(run_numerical(&api, &buffers, &bindings, limits(), |execution, inputs| execution.execute(inputs)).is_err());
        api.assert_released();
        assert!(api.events().contains(&"prepare_contraction"));
        assert!(!api.events().contains(&"bind_input"));
        assert!(!api.events().contains(&"contract"));
    }
}

#[test]
fn rejects_missing_metadata_and_unqualified_numerical_slicing_before_allocation() {
    for selected in [
        None,
        Some(NativeMetadata { slicing: vec![SlicedMode { mode: 23, extent: 1 }], num_slices: 3, ..metadata() }),
    ] {
        let api = Fake::numerical(vec![], NumericalSettings::default());
        let mut session = SessionResources::new(&api, 0).expect("session");
        {
            let topology = Topology::new(&chain(), &query_keep()).expect("topology");
            let mut resources = ContractionResources::new(&session, topology).expect("network");
            if let Some(selected) = selected {
                resources.import(&selected).expect("supported metadata subset");
            }
            assert!(matches!(
                CuTensorNetExecutableContraction::prepare(resources, supplied_plan(), limits(), 1)
                    .err()
                    .map(|failure| failure.error),
                Some(
                    SimulationError::InvalidContractionConfiguration { .. }
                        | SimulationError::UnsupportedContraction { .. }
                )
            ));
        }
        session.close().expect("session cleanup");
        api.assert_released();
        assert!(!api.events().contains(&"create_workspace"));
        assert!(!api.events().contains(&"allocate"));
    }
}

#[test]
fn retains_unselected_registered_buffers_and_keeps_distinct_bindings() {
    let api = Fake::numerical(vec![], NumericalSettings::default());
    let buffers = vec![
        vec![Complex64::new(0.5, -0.25); 4],
        vec![Complex64::new(-0.5, 0.25); 4],
        vec![Complex64::new(0.0, 1.0); 4],
    ];
    run_numerical(&api, &buffers, &[0, 1, 0, 1], limits(), |execution, inputs| {
        execution.execute(inputs)?;
        assert_eq!(execution.resources().selected_input_count, Some(2));
        assert_eq!(execution.resources().selected_input_bytes, Some(128));
        assert_eq!(execution.resources().resident_input_count, Some(3));
        assert_eq!(execution.resources().resident_input_bytes, Some(192));
        Ok(())
    })
    .expect("all explicitly registered buffers");
    api.assert_released();
    let state = api.state.lock().expect("state");
    assert_eq!(state.uploads.len(), 3);
    let inputs = &state.input_bindings;
    assert_eq!(inputs[0].1, inputs[2].1);
    assert_eq!(inputs[1].1, inputs[3].1);
    assert_ne!(inputs[0].1, inputs[1].1);
}

#[test]
fn honors_exact_workspace_limits_and_distinguishes_zero_scratch_from_disabled_cache() {
    for (device, host) in [(512_i64, 128_i64), (0, 0)] {
        let api = Fake::numerical(
            vec![],
            NumericalSettings { device_minimum: device, host_minimum: host, ..NumericalSettings::default() },
        );
        run_numerical(
            &api,
            &coefficients(),
            &[0; 4],
            ExecutionLimits {
                device_scratch_bytes: Some(usize::try_from(device.max(256)).expect("size")),
                host_scratch_bytes: Some(usize::try_from(host).expect("size")),
            },
            |execution, inputs| {
                assert_eq!(execution.resources().device_scratch_minimum, Some(usize::try_from(device).expect("size")));
                assert_eq!(
                    execution.resources().device_scratch_allocated,
                    Some(usize::try_from(device.max(256)).expect("size"))
                );
                assert_eq!(execution.resources().host_scratch_allocated, Some(usize::try_from(host).expect("size")));
                execution.execute(inputs)
            },
        )
        .expect("exact bound");
        api.assert_released();
        let state = api.state.lock().expect("state");
        assert_eq!(state.workspace_bindings.iter().filter(|(_, kind, _, _)| *kind == WorkspaceKind::Cache).count(), 2);
        assert_eq!(
            state
                .workspace_bindings
                .iter()
                .filter(|(space, kind, _, _)| *space == MemorySpace::Host && *kind == WorkspaceKind::Scratch)
                .count(),
            usize::from(host > 0)
        );
    }
    for (device, host) in [(511, 128), (512, 127)] {
        let api = Fake::numerical(vec![], NumericalSettings::default());
        assert!(matches!(
            run_numerical(
                &api,
                &coefficients(),
                &[0; 4],
                ExecutionLimits { device_scratch_bytes: Some(device), host_scratch_bytes: Some(host) },
                |_, _| Ok(())
            ),
            Err(SimulationError::WorkspaceLimitExceeded { .. })
        ));
        api.assert_released();
        assert!(!api.events().contains(&"allocate"));
    }
}

#[test]
fn observed_4x4_workspace_requirement_is_rejected_before_allocation() {
    let api = Fake::numerical(
        vec![],
        NumericalSettings { device_minimum: 2_186_281_216, host_minimum: 0, ..NumericalSettings::default() },
    );
    assert!(matches!(
        run_numerical::<()>(
            &api,
            &coefficients(),
            &[0; 4],
            ExecutionLimits { device_scratch_bytes: Some(67_108_864), host_scratch_bytes: Some(1_048_576) },
            |_, _| panic!("over-budget preparation must not reach execution"),
        ),
        Err(SimulationError::WorkspaceLimitExceeded { required: 2_186_281_216, maximum: 67_108_864 })
    ));
    api.assert_released();
    let events = api.events();
    assert!(events.contains(&"compute_contraction_workspace"));
    assert!(!events.contains(&"allocate"));
    assert!(!events.contains(&"prepare_contraction"));
    assert!(!events.contains(&"contract"));
}

#[test]
fn absent_workspace_limits_allocate_and_report_the_native_minimum() {
    let api = Fake::numerical(
        vec![],
        NumericalSettings { device_minimum: 2_186_281_216, host_minimum: 128, ..NumericalSettings::default() },
    );
    run_numerical(
        &api,
        &coefficients(),
        &[0; 4],
        ExecutionLimits { device_scratch_bytes: None, host_scratch_bytes: None },
        |execution, inputs| {
            assert_eq!(execution.resources().device_scratch_allocated, Some(2_186_281_216));
            assert_eq!(execution.resources().host_scratch_allocated, Some(128));
            assert_eq!(execution.resources().owned_device_bytes, Some(2_186_281_216 + 64 + 64));
            execution.execute(inputs)
        },
    )
    .expect("no policy ceiling");
    api.assert_released();
}

#[test]
fn overnight_policy_enforces_device_ceiling_independently_of_host_scratch() {
    let ceiling: usize = 32 * 1024 * 1024 * 1024;
    for required in [ceiling, ceiling + 256] {
        let api = Fake::numerical(
            vec![],
            NumericalSettings {
                device_minimum: i64::try_from(required).expect("size"),
                host_minimum: 1_048_832,
                ..NumericalSettings::default()
            },
        );
        let result = run_numerical(
            &api,
            &coefficients(),
            &[0; 4],
            ExecutionLimits { device_scratch_bytes: Some(ceiling), host_scratch_bytes: None },
            |execution, inputs| {
                assert_eq!(execution.resources().device_scratch_allocated, Some(ceiling));
                assert_eq!(execution.resources().host_scratch_allocated, Some(1_048_832));
                execution.execute(inputs)
            },
        );
        if required == ceiling {
            result.expect("inclusive device limit and no host policy ceiling");
        } else {
            assert!(matches!(
                result,
                Err(SimulationError::WorkspaceLimitExceeded { required: value, maximum })
                    if value == required as u64 && maximum == ceiling as u64
            ));
            assert!(!api.events().contains(&"allocate"));
        }
        api.assert_released();
    }
}

#[test]
fn native_negative_workspace_and_nonfinite_readback_are_errors() {
    for settings in [
        NumericalSettings { device_minimum: -1, ..NumericalSettings::default() },
        NumericalSettings { host_minimum: -1, ..NumericalSettings::default() },
        NumericalSettings { nonfinite_output: true, ..NumericalSettings::default() },
    ] {
        let api = Fake::numerical(vec![], settings);
        assert!(matches!(
            run_numerical(&api, &coefficients(), &[0; 4], limits(), |execution, inputs| execution.execute(inputs)),
            Err(SimulationError::InvalidNativeResult { .. })
        ));
        api.assert_released();
    }
}

#[test]
fn every_numerical_boundary_reports_failures_and_releases_resources() {
    let mut points = vec![
        ("create_workspace", 1),
        ("compute_contraction_workspace", 1),
        ("copy_to_device", 1),
        ("bind_output", 1),
        ("prepare_contraction", 1),
        ("contract", 1),
        ("synchronize_stream", 1),
        ("copy_from_device", 1),
    ];
    points.extend((1..=6).map(|n| ("workspace_memory_size", n)));
    points.extend((1..=3).map(|n| ("allocate", n)));
    points.extend((1..=4).map(|n| ("set_workspace_memory", n)));
    points.extend((1..=4).map(|n| ("bind_input", n)));
    for point in points {
        let api = Fake::numerical(vec![point], NumericalSettings::default());
        let error = run_numerical(&api, &coefficients(), &[0; 4], limits(), |execution, inputs| execution.execute(inputs))
            .err()
            .expect("injected failure");
        assert!(error.message().contains(point.0), "{point:?}: {}", error.message());
        api.assert_released();
    }
}

#[test]
fn execution_failure_invalidates_reuse_and_preserves_cleanup_failures() {
    let api = Fake::numerical(
        vec![("contract", 1), ("destroy_workspace", 1), ("free", 1)],
        NumericalSettings::default(),
    );
    let error = run_numerical(&api, &coefficients(), &[0; 4], limits(), |execution, inputs| {
        let result = execution.execute(inputs);
        assert!(matches!(execution.execute(inputs), Err(SimulationError::UnusableContraction)));
        assert!(matches!(execution.metadata(), Err(SimulationError::UnusableContraction)));
        assert!(matches!(execution.intermediate_modes(), Err(SimulationError::UnusableContraction)));
        result
    })
    .err()
    .expect("execution and cleanup");
    for operation in ["contract", "destroy_workspace", "free"] {
        assert!(error.message().contains(operation));
    }
    api.assert_released();
}

#[test]
fn preparation_failure_preserves_cleanup_errors() {
    let api = Fake::numerical(
        vec![("prepare_contraction", 1), ("destroy_workspace", 1), ("free", 1)],
        NumericalSettings::default(),
    );
    let error = run_numerical(&api, &coefficients(), &[0; 4], limits(), |_, _| Ok(()))
        .err()
        .expect("preparation and cleanup");
    for operation in ["prepare_contraction", "destroy_workspace", "free"] {
        assert!(error.message().contains(operation));
    }
    api.assert_released();
}

#[test]
fn drop_and_explicit_cleanup_failures_attempt_every_release_once() {
    for failure in [
        ("synchronize_stream", 2),
        ("destroy_workspace", 1),
        ("destroy_network", 1),
        ("free", 1),
        ("free", 2),
        ("free", 3),
    ] {
        let api = Fake::numerical(vec![failure], NumericalSettings::default());
        assert!(run_numerical(&api, &coefficients(), &[0; 4], limits(), |execution, inputs| execution.execute(inputs))
            .is_err());
        api.assert_released();
        assert_eq!(api.calls("free"), 3);
    }
    let api = Fake::numerical(vec![], NumericalSettings::default());
    {
        let mut session = SessionResources::new(&api, 0).expect("session");
        let (mut execution, inputs) =
            prepare_numerical(&session, &shared_chain(), &shared_keep(), &coefficients(), &[0; 4], limits(), 1)
                .ok()
                .expect("prepare");
        execution.execute(&inputs).expect("contract");
        execution.close().expect("release");
        session.close().expect("session");
    }
    api.assert_released();
    assert_eq!(api.calls("destroy_workspace"), 1);
}

#[test]
fn resident_candidates_diverge_rejoin_and_replace_without_repreparation_or_reupload() {
    let api = Fake::numerical(vec![], NumericalSettings { input_dependent: true, ..NumericalSettings::default() });
    let mut session = SessionResources::new(&api, 0).expect("session");
    let selected = selected_plan(&shared_keep());
    let mut execution =
        session.prepare(&shared_chain(), &shared_keep(), &selected, limits(), 1).ok().expect("structural prepare");
    assert_eq!(operands(execution.plan()), operands(&selected));
    assert_eq!(api.calls("copy_to_device"), 0);
    assert_eq!(api.calls("bind_input"), 0);
    let identity = register(&mut execution, &reals(&[1., 0., 0., 1.]), InputMutability::Immutable).expect("identity");
    let pauli_x = register(&mut execution, &reals(&[0., 1., 1., 0.]), InputMutability::Immutable).expect("X");
    let mutable =
        register(&mut execution, &reals(&[2., 0., 0., 3.]), InputMutability::Mutable).expect("general nonunitary");
    let phase = vec![Complex64::new(1., 0.), Complex64::new(0., 0.), Complex64::new(0., 0.), Complex64::new(0., 1.)];
    let phase_id = register(&mut execution, &phase, InputMutability::Immutable).expect("S candidate");
    let allocations = api.calls("allocate");
    let a = execution.execute(&vec![identity, identity, mutable, identity]).expect("A");
    assert_eq!(a, reals(&[2., 0., 0., 3.]));
    let b = execution.execute(&vec![pauli_x, identity, mutable, identity]).expect("B");
    assert_eq!(b, reals(&[0., 2., 3., 0.]));
    assert_eq!(execution.execute(&vec![pauli_x, pauli_x, mutable, identity]).expect("rejoin"), a);
    assert_eq!(api.calls("copy_to_device"), 4);
    let replacement =
        vec![Complex64::new(2., 0.), Complex64::new(0., 0.), Complex64::new(0., 1.), Complex64::new(3., 0.)];
    replace(&mut execution, mutable, &replacement).expect("same capacity replacement");
    let c = execution.execute(&vec![pauli_x, identity, mutable, identity]).expect("C");
    assert_eq!(c, [Complex64::new(0., 0.), Complex64::new(2., 0.), Complex64::new(3., 0.), Complex64::new(0., 1.)]);
    assert_eq!(execution.execute(&vec![identity, identity, mutable, identity]).expect("only one slot changed"), replacement);
    assert_eq!(
        execution.execute(&vec![identity, identity, mutable, mutable]).expect("all users see replacement"),
        [Complex64::new(4., 0.), Complex64::new(0., 0.), Complex64::new(0., 5.), Complex64::new(9., 0.)]
    );
    assert_eq!(execution.execute(&vec![phase_id, identity, identity, identity]).expect("non-Pauli candidate"), phase);
    let bindings = api.calls("bind_input");
    assert_eq!(execution.execute(&vec![phase_id, identity, identity, identity]).expect("warm selection"), phase);
    assert_eq!(api.calls("bind_input"), bindings);
    assert_eq!(api.calls("allocate"), allocations);
    assert_eq!(api.calls("copy_to_device"), 5);
    assert_eq!(api.calls("prepare_contraction"), 1);
    assert_eq!(api.calls("optimize"), 0);
    assert_eq!(api.calls("create_optimizer_config"), 0);
    let report: ResourceReport = execution.resources();
    assert_eq!(report.resident_input_count, Some(4));
    assert_eq!(report.resident_input_bytes, Some(256));
    assert_eq!(report.selected_input_count, Some(2));
    assert_eq!(report.selected_input_bytes, Some(128));
    assert_eq!(report.owned_device_bytes, Some(512 + 64 + 256));
    execution.close().expect("close");
    session.close().expect("session close");
    assert_eq!(a, reals(&[2., 0., 0., 3.]));
    assert_eq!(b, reals(&[0., 2., 3., 0.]));
    assert_eq!(c[3], Complex64::new(0., 1.));
    api.assert_released();
}

#[test]
fn optimizer_selected_plan_and_reordered_output_use_the_same_context_path() {
    for optimized in [false, true] {
        let api = Fake::numerical(vec![], NumericalSettings { input_dependent: true, ..NumericalSettings::default() });
        let mut session = SessionResources::new(&api, 0).expect("session");
        let keep = vec![(71, 2), (11, 2)];
        let plan = if optimized {
            CuTensorNetContractionOptimizer::new(&session)
                .optimize(
                    &shared_chain(),
                    &keep,
                    constraints(1024),
                    CuTensorNetContractionOptimizerSettings {
                        hyper_samples: 1,
                        threads: 1,
                        seed: 17,
                        reconfiguration_iterations: 0,
                        disable_rank_simplification: true,
                    },
                )
                .expect("selected")
                .0
        } else {
            selected_plan(&keep)
        };
        let searches = api.calls("optimize");
        let configs = api.calls("create_optimizer_config");
        let mut execution = session.prepare(&shared_chain(), &keep, &plan, limits(), 1).ok().expect("prepare");
        assert_eq!(operands(execution.plan()), operands(&plan));
        let i = register(&mut execution, &reals(&[1., 0., 0., 1.]), InputMutability::Immutable).expect("I");
        let r1 = register(&mut execution, &reals(&[0., 0., 1., 0.]), InputMutability::Immutable)
            .expect("nonunitary reset branch");
        assert_eq!(execution.execute(&vec![i, r1, i, i]).expect("ordered output"), reals(&[0., 1., 0., 0.]));
        assert_eq!(api.calls("optimize"), searches);
        assert_eq!(api.calls("create_optimizer_config"), configs);
        execution.close().expect("close");
        session.close().expect("session");
        api.assert_released();
    }
}

#[test]
fn all_input_validation_failures_poison_before_native_side_effects() {
    for case in 0..11 {
        let api = Fake::numerical(vec![], NumericalSettings::default());
        let mut session = SessionResources::new(&api, 0).expect("session");
        let mut foreign_session = SessionResources::new(&api, 0).expect("other session");
        let plan = selected_plan(&shared_keep());
        let mut execution = session.prepare(&shared_chain(), &shared_keep(), &plan, limits(), 1).ok().expect("prepare");
        let mut other =
            foreign_session.prepare(&shared_chain(), &shared_keep(), &plan, limits(), 2).ok().expect("other");
        let foreign = register(&mut other, &reals(&[1.; 4]), InputMutability::Mutable).expect("foreign");
        let id = register(&mut execution, &reals(&[1.; 4]), InputMutability::Mutable).expect("mutable");
        let immutable = register(&mut execution, &reals(&[1.; 4]), InputMutability::Immutable).expect("immutable");
        let wrong_shape = execution
            .register_input(TensorInput { dimensions: &vec![4], values: &reals(&[1.; 4]) }, InputMutability::Immutable)
            .expect("valid but incompatible");
        let wrong_order = execution
            .register_input(TensorInput { dimensions: &vec![1, 4], values: &reals(&[1.; 4]) }, InputMutability::Immutable)
            .expect("same rank and byte count, different ordered dimensions");
        execution.execute(&vec![id; 4]).expect("previous selection");
        let previous = execution.resources();
        let before = api.events();
        let result = match case {
            0 => register(&mut execution, &reals(&[1.; 3]), InputMutability::Immutable).map(|_| ()),
            1 => register(&mut execution, &reals(&[f64::NAN; 4]), InputMutability::Immutable).map(|_| ()),
            2 => execution
                .register_input(TensorInput { dimensions: &vec![0], values: &Vec::new() }, InputMutability::Immutable)
                .map(|_| ()),
            3 => execution.replace_input(id, TensorInput { dimensions: &vec![4], values: &reals(&[1.; 4]) }),
            4 => replace(&mut execution, immutable, &reals(&[1.; 4])),
            5 => replace(&mut execution, id, &reals(&[f64::INFINITY; 4])),
            6 => replace(&mut execution, foreign, &reals(&[1.; 4])),
            7 => execution.execute(&vec![id; 3]).map(|_| ()),
            8 => execution.execute(&vec![id, id, id, foreign]).map(|_| ()),
            9 => execution.execute(&vec![id, id, id, wrong_shape]).map(|_| ()),
            10 => execution.execute(&vec![id, id, id, wrong_order]).map(|_| ()),
            _ => unreachable!(),
        };
        assert!(matches!(result, Err(SimulationError::InvalidContractionConfiguration { .. })), "case {case}");
        assert_eq!(api.events(), before, "case {case}: validation before any native work");
        assert_eq!(execution.resources(), previous);
        assert_poisoned(&mut execution, &api, id);
        execution.close().expect("failed owner close");
        other.close().expect("other close");
        session.close().expect("session close");
        foreign_session.close().expect("foreign close");
        api.assert_released();
    }
}

#[test]
fn registration_upload_and_partial_binding_failures_retain_acquisitions_and_selection_evidence() {
    for point in [("allocate", 4), ("copy_to_device", 2), ("bind_input", 3)] {
        let api = Fake::numerical(vec![point], NumericalSettings::default());
        let mut session = SessionResources::new(&api, 0).expect("session");
        let mut execution = session
            .prepare(&shared_chain(), &shared_keep(), &selected_plan(&shared_keep()), limits(), 1)
            .ok()
            .expect("prepare");
        let id = register(&mut execution, &reals(&[1.; 4]), InputMutability::Mutable).expect("prior input");
        let registration = register(&mut execution, &reals(&[1.; 4]), InputMutability::Mutable);
        if point.0 == "bind_input" {
            registration.expect("registered");
            assert!(execution.execute(&vec![id; 4]).is_err());
            assert_eq!(api.calls("bind_input"), 3);
            assert_eq!(api.calls("contract"), 0);
            assert_eq!(execution.resources().selected_input_count, Some(1));
            assert_eq!(execution.resources().selected_input_bytes, Some(64));
        } else {
            assert!(registration.is_err());
            assert_eq!(execution.resources().selected_input_count, None);
        }
        let acquired = 1 + usize::from(point.0 != "allocate");
        assert_eq!(execution.resources().resident_input_count, Some(acquired));
        assert_eq!(execution.resources().resident_input_bytes, Some(64 * acquired));
        assert_eq!(execution.resources().owned_device_bytes, Some(576 + 64 * acquired));
        assert_poisoned(&mut execution, &api, id);
        execution.close().expect("close");
        session.close().expect("session");
        api.assert_released();
    }
}

#[test]
fn failed_replacement_keeps_prior_output_and_prohibits_consuming_partial_values() {
    let api =
        Fake::numerical(vec![("copy_to_device", 2)], NumericalSettings { input_dependent: true, ..NumericalSettings::default() });
    let mut session = SessionResources::new(&api, 0).expect("session");
    let mut execution = session
        .prepare(&shared_chain(), &shared_keep(), &selected_plan(&shared_keep()), limits(), 1)
        .ok()
        .expect("prepare");
    let id = register(&mut execution, &reals(&[1., 0., 0., 1.]), InputMutability::Mutable).expect("input");
    let output = execution.execute(&vec![id; 4]).expect("first");
    let report = execution.resources();
    assert!(replace(&mut execution, id, &reals(&[2.; 4])).is_err());
    assert_eq!(execution.resources(), report);
    assert_eq!(api.calls("allocate"), 3);
    assert_poisoned(&mut execution, &api, id);
    execution.close().expect("close");
    session.close().expect("session");
    assert_eq!(output, reals(&[1., 0., 0., 1.]));
    api.assert_released();
}

#[test]
fn preparation_records_each_observation_and_acquisition_before_the_next_failure() {
    let mut points = vec![
        ("create_workspace", 1),
        ("compute_contraction_workspace", 1),
        ("allocate_host_scratch", 1),
        ("bind_output", 1),
        ("prepare_contraction", 1),
    ];
    points.extend((1..=6).map(|n| ("workspace_memory_size", n)));
    points.extend((1..=2).map(|n| ("allocate", n)));
    points.extend((1..=4).map(|n| ("set_workspace_memory", n)));
    for point in points {
        let api = Fake::numerical(vec![point, ("destroy_network", 1)], NumericalSettings::default());
        let mut session = SessionResources::new(&api, 0).expect("session");
        let failure = session
            .prepare(&shared_chain(), &shared_keep(), &selected_plan(&shared_keep()), limits(), 1)
            .err()
            .expect("failure");
        let report = &failure.partial;
        let observed = match point {
            ("create_workspace" | "compute_contraction_workspace", _) => 0,
            ("workspace_memory_size", n) => n - 1,
            _ => 6,
        };
        for (index, (actual, expected)) in [
            (report.device_scratch_minimum, 512),
            (report.device_scratch_recommended, 1024),
            (report.host_scratch_minimum, 128),
            (report.host_scratch_recommended, 256),
            (report.device_cache_recommended, 4096),
            (report.host_cache_recommended, 4096),
        ]
        .into_iter()
        .enumerate()
        {
            assert_eq!(actual, (index < observed).then_some(expected), "{point:?}");
        }
        let device = match point {
            ("create_workspace" | "compute_contraction_workspace" | "workspace_memory_size", _) | ("allocate", 1) => 0,
            _ => 512,
        };
        let host = if device == 0 || point.0 == "allocate_host_scratch" { 0 } else { 128 };
        let output = usize::from(matches!(point.0, "bind_output" | "prepare_contraction")) * 64;
        assert_eq!(report.output_bytes, Some(64), "{point:?}");
        assert_eq!(report.device_scratch_allocated, Some(device), "{point:?}");
        assert_eq!(report.host_scratch_allocated, Some(host), "{point:?}");
        assert_eq!(report.owned_device_bytes, Some(device + output), "{point:?}");
        assert_eq!(report.resident_input_count, Some(0));
        assert!(failure.cleanup.as_ref().expect("separate cleanup").message().contains("destroy_network"));
        if point.0 == "allocate_host_scratch" {
            assert!(matches!(failure.error, SimulationError::HostScratchAllocationFailed { bytes: 128 }));
        } else {
            assert!(failure.error.message().contains(point.0));
        }
        session.close().expect("session");
        api.assert_released();
    }
}

#[test]
fn earliest_topology_and_import_failures_keep_primary_and_cleanup_separate() {
    let mut points = vec![
        ("set_device", 2),
        ("create_network", 1),
        ("set_output", 1),
        ("set_compute_f64", 1),
        ("create_optimizer_info", 1),
        ("set_path", 1),
        ("set_slicing", 1),
        ("attach_optimizer_info", 1),
        ("read_path", 1),
        ("num_sliced_modes", 1),
        ("read_slicing", 1),
        ("num_slices", 1),
        ("intermediate_mode_counts", 1),
        ("intermediate_modes", 1),
    ];
    points.extend((1..=4).map(|n| ("append_tensor", n)));
    for point in points {
        let api = Fake::numerical(vec![point, ("destroy_network", 1)], NumericalSettings::default());
        let mut session = SessionResources::new(&api, 0).expect("session");
        let failure = session
            .prepare(&shared_chain(), &shared_keep(), &selected_plan(&shared_keep()), limits(), 1)
            .err()
            .expect("failure");
        assert!(
            matches!(failure.error, SimulationError::NativeCallFailed { .. }),
            "{point:?}: {}",
            failure.error.message()
        );
        assert!(failure.error.message().contains(point.0));
        assert_eq!(failure.cleanup.is_some(), !matches!(point.0, "set_device" | "create_network"));
        assert_eq!(failure.partial.owned_device_bytes, Some(0));
        assert_eq!(failure.partial.output_bytes, None);
        assert_eq!(failure.partial.device_scratch_minimum, None);
        session.close().expect("session");
        api.assert_released();
    }
}

#[test]
fn scratch_ceiling_failures_retain_requirements_but_never_project_allocations() {
    for limits in [
        ExecutionLimits { device_scratch_bytes: Some(0), host_scratch_bytes: None },
        ExecutionLimits { device_scratch_bytes: Some(511), host_scratch_bytes: None },
        ExecutionLimits { device_scratch_bytes: None, host_scratch_bytes: Some(0) },
        ExecutionLimits { device_scratch_bytes: None, host_scratch_bytes: Some(127) },
    ] {
        let api = Fake::numerical(vec![], NumericalSettings::default());
        let mut session = SessionResources::new(&api, 0).expect("session");
        let failure = session
            .prepare(&shared_chain(), &shared_keep(), &selected_plan(&shared_keep()), limits, 1)
            .err()
            .expect("limit");
        assert!(matches!(failure.error, SimulationError::WorkspaceLimitExceeded { .. }));
        assert_eq!(failure.partial.device_scratch_minimum, Some(512));
        assert_eq!(failure.partial.host_scratch_minimum, Some(128));
        assert_eq!(failure.partial.device_cache_recommended, Some(4096));
        assert_eq!(failure.partial.device_scratch_allocated, Some(0));
        assert_eq!(failure.partial.host_scratch_allocated, Some(0));
        assert_eq!(failure.partial.owned_device_bytes, Some(0));
        assert_eq!(api.calls("allocate"), 0);
        session.close().expect("session");
        api.assert_released();
    }
}

#[test]
fn retained_identity_cannot_alias_a_later_executable_on_the_same_session() {
    let api = Fake::numerical(vec![], NumericalSettings::default());
    let mut session = SessionResources::new(&api, 0).expect("session");
    let plan = selected_plan(&shared_keep());
    let mut first = session.prepare(&shared_chain(), &shared_keep(), &plan, limits(), 1).ok().expect("first");
    let stale = register(&mut first, &reals(&[1.; 4]), InputMutability::Mutable).expect("input");
    first.close().expect("close first");
    let mut second = session.prepare(&shared_chain(), &shared_keep(), &plan, limits(), 2).ok().expect("second");
    let current = register(&mut second, &reals(&[1.; 4]), InputMutability::Mutable).expect("input");
    assert!(second.execute(&vec![stale; 4]).is_err());
    assert_eq!(second.resources().selected_input_bytes, None);
    assert_eq!(api.calls("bind_input"), 0);
    assert_poisoned(&mut second, &api, current);
    second.close().expect("close second");
    session.close().expect("close session");
    api.assert_released();
}

#[test]
fn general_multiqubit_tensors_reuse_the_same_numerical_api() {
    let api = Fake::custom(
        vec![],
        NumericalSettings { input_dependent: true, ..NumericalSettings::default() },
        NativeObservations {
            selected: NativeMetadata { path: vec![[0, 1]], slicing: vec![], num_slices: 1 },
            use_query_output: true,
            ..NativeObservations::default()
        },
    );
    let two = |ids: &[usize]| ids.iter().map(|&id| (id, 2)).collect::<Vec<Axis>>();
    let network = vec![two(&[0, 1, 2, 3]), two(&[2, 3])];
    let keep = two(&[0, 1]);
    let plan = vec![step(vec![Operand::Input(0), Operand::Input(1)], keep.clone())];
    let mut session = SessionResources::new(&api, 0).expect("session");
    let mut execution = session.prepare(&network, &keep, &plan, limits(), 1).ok().expect("prepare");
    let mut nonunitary = reals(&[0.; 16]);
    nonunitary[0] = Complex64::new(0.5, 0.);
    nonunitary[15] = Complex64::new(0.25, 0.);
    let mut joint = reals(&[0.; 16]);
    for column in 0..4 {
        joint[4 * column + (column ^ 3)] = Complex64::new(1., 0.);
    }
    let filter = execution
        .register_input(TensorInput { dimensions: &vec![2; 4], values: &nonunitary }, InputMutability::Immutable)
        .expect("general filter");
    let joint = execution
        .register_input(TensorInput { dimensions: &vec![2; 4], values: &joint }, InputMutability::Immutable)
        .expect("joint operator");
    let input = vec![Complex64::new(1., 0.), Complex64::new(0., 0.), Complex64::new(0., 0.), Complex64::new(0., 1.)];
    let input = register(&mut execution, &input, InputMutability::Immutable).expect("input");
    let expected = [Complex64::new(0.5, 0.), Complex64::new(0., 0.), Complex64::new(0., 0.), Complex64::new(0., 0.25)];
    assert_eq!(execution.execute(&vec![filter, input]).expect("filter"), expected);
    assert_eq!(
        execution.execute(&vec![joint, input]).expect("joint"),
        [Complex64::new(0., 1.), Complex64::new(0., 0.), Complex64::new(0., 0.), Complex64::new(1., 0.)]
    );
    assert_eq!(execution.execute(&vec![filter, input]).expect("reuse"), expected);
    assert_eq!(api.calls("copy_to_device"), 3);
    assert_eq!(api.calls("prepare_contraction"), 1);
    execution.close().expect("close");
    session.close().expect("session");
    api.assert_released();
}
