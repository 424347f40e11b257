use qdk_cutensornet::{
    combine_execution_and_cleanup, AdjacentZQuery, BranchOutcome, BranchRequest, Circuit, ExecutionPolicy, Gate,
    MpsTarget, OutputMetadata, Replay, ReplayApi, SamplerApi, SamplingRequest, SelectedBranch, SimulationError,
    StateConfiguration, StateCutoff, StateReadout, EXPECTATION_HYPER_SAMPLES,
};
use std::cell::RefCell;
use std::collections::VecDeque;

#[derive(Clone, Copy, Debug, Eq, Hash, PartialEq)]
enum Event {
    CreateState,
    CreateWorkspace,
    Allocate(usize),
    CopyToDevice(usize),
    ApplyUnitary(usize),
    ApplyProjection,
    FinalizeMps,
    CaptureMps(usize),
    ConfigureF64(usize),
    ConfigureU32(usize),
    MemoryInfo,
    PrepareState,
    WorkspaceSize,
    SetWorkspace,
    ComputeState,
    Synchronize(usize),
    CopyFromDevice(usize),
    CreateNetworkOperator,
    AppendProduct(usize),
    CreateExpectation,
    ConfigureExpectation,
    CreateQueryWorkspace,
    PrepareExpectation,
    ComputeExpectation,
    DestroyQueryWorkspace,
    DestroyExpectation,
    DestroyNetworkOperator,
    QueryMemoryInfo,
    QueryWorkspaceSize,
    QuerySetWorkspace,
    CreateSampler,
    ConfigureSamplerHyperSamples,
    ConfigureSamplerPathSeed,
    PrepareSampler,
    ConfigureSamplerSampleSeed,
    Sample,
    DestroySampler,
    DestroyWorkspace,
    DestroyState,
    Free(usize),
}

impl Event {
    fn operation(self) -> &'static str {
        match self {
            Self::CreateState => "create_state",
            Self::CreateWorkspace => "create_workspace",
            Self::Allocate(_) => "allocate",
            Self::CopyToDevice(_) => "copy_to_device",
            Self::ApplyUnitary(_) | Self::ApplyProjection => "apply_tensor_operator",
            Self::FinalizeMps => "finalize_mps",
            Self::CaptureMps(_) => "capture_mps",
            Self::ConfigureF64(_) => "configure_state_f64",
            Self::ConfigureU32(_) => "configure_state_u32",
            Self::MemoryInfo | Self::QueryMemoryInfo => "memory_info",
            Self::PrepareState => "prepare_state",
            Self::WorkspaceSize | Self::QueryWorkspaceSize => "workspace_size",
            Self::SetWorkspace | Self::QuerySetWorkspace => "set_workspace",
            Self::ComputeState => "compute_state",
            Self::Synchronize(_) => "synchronize_stream",
            Self::CopyFromDevice(_) => "copy_from_device",
            Self::CreateNetworkOperator => "create_network_operator",
            Self::AppendProduct(_) => "append_product",
            Self::CreateExpectation => "create_expectation",
            Self::ConfigureExpectation => "configure_expectation",
            Self::CreateQueryWorkspace => "create_query_workspace",
            Self::PrepareExpectation => "prepare_expectation",
            Self::ComputeExpectation => "compute_expectation",
            Self::DestroyQueryWorkspace => "destroy_query_workspace",
            Self::DestroyExpectation => "destroy_expectation",
            Self::DestroyNetworkOperator => "destroy_network_operator",
            Self::CreateSampler => "create_sampler",
            Self::ConfigureSamplerHyperSamples => "configure_sampler_hyper_samples",
            Self::ConfigureSamplerPathSeed => "configure_sampler_path_seed",
            Self::PrepareSampler => "prepare_sampler",
            Self::ConfigureSamplerSampleSeed => "configure_sampler_sample_seed",
            Self::Sample => "sample",
            Self::DestroySampler => "destroy_sampler",
            Self::DestroyWorkspace => "destroy_workspace",
            Self::DestroyState => "destroy_state",
            Self::Free(_) => "free",
        }
    }
}

type Element = [f64; 2];

#[derive(Default)]
struct FakeState {
    events: Vec<Event>,
    next_handle: u64,
    allocate_count: usize,
    copy_to_device_count: usize,
    apply_count: usize,
    capture_count: usize,
    configure_f64_count: usize,
    configure_u32_count: usize,
    synchronize_count: usize,
    copy_from_device_count: usize,
    free_count: usize,
    append_count: usize,
    allocation_handles: Vec<u64>,
    allocation_sizes: Vec<usize>,
    uploaded_tensors: Vec<Vec<Element>>,
    freed_handles: Vec<u64>,
    prepare_maximum_workspace_bytes: Vec<u64>,
    appended_modes: Vec<Vec<Vec<i32>>>,
    expectation_hyper_samples: Vec<i32>,
    state_workspace_handle: Option<u64>,
    memory_info_count: usize,
    workspace_size_count: usize,
    set_workspace_count: usize,
}

struct FakeReplayApi {
    state: RefCell<FakeState>,
    failures: Vec<Event>,
    memory_info: (usize, usize),
    workspace_size: i64,
    expectation_outputs: RefCell<VecDeque<(f64, f64)>>,
}

impl FakeReplayApi {
    fn new(failures: impl IntoIterator<Item = Event>) -> Self {
        Self {
            state: RefCell::new(FakeState { next_handle: 0x100, ..FakeState::default() }),
            failures: failures.into_iter().collect(),
            memory_info: (64 * 1024 * 1024, 80 * 1024 * 1024),
            workspace_size: 256,
            expectation_outputs: RefCell::new(VecDeque::new()),
        }
    }

    fn with_workspace(mut self, free_bytes: usize, workspace_size: i64) -> Self {
        self.memory_info = (free_bytes, 80 * 1024 * 1024 * 1024);
        self.workspace_size = workspace_size;
        self
    }

    fn with_expectations(self, outputs: impl IntoIterator<Item = (f64, f64)>) -> Self {
        self.expectation_outputs.replace(outputs.into_iter().collect());
        self
    }

    fn events(&self) -> Vec<Event> {
        self.state.borrow().events.clone()
    }

    fn allocation_handles(&self) -> Vec<u64> {
        self.state.borrow().allocation_handles.clone()
    }

    fn freed_handles(&self) -> Vec<u64> {
        self.state.borrow().freed_handles.clone()
    }

    fn record(&self, event: Event) -> Result<(), SimulationError> {
        self.state.borrow_mut().events.push(event);
        if self.failures.contains(&event) {
            Err(SimulationError::NativeCallFailed {
                component: "fake replay API",
                operation: event.operation(),
                status: 17,
                message: "injected failure".to_string(),
            })
        } else {
            Ok(())
        }
    }

    fn handle(&self) -> u64 {
        let mut state = self.state.borrow_mut();
        let address = state.next_handle;
        state.next_handle += 0x100;
        address
    }

    fn counted(&self, select: impl FnOnce(&mut FakeState) -> &mut usize, make: impl FnOnce(usize) -> Event) -> Event {
        let mut state = self.state.borrow_mut();
        let counter = select(&mut state);
        let event = make(*counter);
        *counter += 1;
        event
    }
}

impl ReplayApi for FakeReplayApi {
    type Element = Element;
    type Expectation = (f64, f64);
    type QueryValue = (f64, f64, f64);
    type Amplitudes = Vec<Element>;
    type Masses = (f64, f64);
    type Probability = f64;

    fn memory_info(&self) -> Result<(usize, usize), SimulationError> {
        let event = {
            let mut state = self.state.borrow_mut();
            let event = if state.memory_info_count == 0 { Event::MemoryInfo } else { Event::QueryMemoryInfo };
            state.memory_info_count += 1;
            event
        };
        self.record(event)?;
        Ok(self.memory_info)
    }

    fn allocate(&self, bytes: usize) -> Result<u64, SimulationError> {
        self.record(self.counted(|s| &mut s.allocate_count, Event::Allocate))?;
        let allocation = self.handle();
        let mut state = self.state.borrow_mut();
        state.allocation_handles.push(allocation);
        state.allocation_sizes.push(bytes);
        Ok(allocation)
    }

    fn free(&self, allocation: u64) -> Result<(), SimulationError> {
        self.state.borrow_mut().freed_handles.push(allocation);
        self.record(self.counted(|s| &mut s.free_count, Event::Free))
    }

    fn copy_to_device(&self, _destination: u64, source: &Vec<Element>) -> Result<(), SimulationError> {
        self.state.borrow_mut().uploaded_tensors.push(source.clone());
        self.record(self.counted(|s| &mut s.copy_to_device_count, Event::CopyToDevice))
    }

    fn copy_from_device(&self, _source: u64, elements: usize) -> Result<Vec<Element>, SimulationError> {
        let event = self.counted(|s| &mut s.copy_from_device_count, Event::CopyFromDevice);
        self.record(event)?;
        assert_eq!(elements, 4);
        let scale = std::f64::consts::FRAC_1_SQRT_2;
        Ok(match event {
            Event::CopyFromDevice(index) if index % 2 == 0 => vec![[scale, 0.0], [0.0, 0.0], [0.0, 0.0], [scale, 0.0]],
            _ => vec![[1.0, 0.0], [0.0, 0.0], [0.0, 0.0], [1.0, 0.0]],
        })
    }

    fn create_state(&self, _handle: u64, mode_extents: &Vec<i64>) -> Result<u64, SimulationError> {
        assert!(mode_extents.iter().all(|extent| *extent == 2));
        self.record(Event::CreateState)?;
        Ok(self.handle())
    }

    fn destroy_state(&self, _state: u64) -> Result<(), SimulationError> {
        self.record(Event::DestroyState)
    }

    fn apply_tensor_operator(
        &self,
        _handle: u64,
        _state: u64,
        _modes: &Vec<i32>,
        _tensor: u64,
        unitary: bool,
    ) -> Result<(), SimulationError> {
        let event = if unitary {
            self.counted(|s| &mut s.apply_count, Event::ApplyUnitary)
        } else {
            Event::ApplyProjection
        };
        self.record(event)
    }

    fn finalize_mps(&self, _handle: u64, _state: u64, target: &MpsTarget) -> Result<(), SimulationError> {
        assert_eq!(target.site_count(), 2);
        self.record(Event::FinalizeMps)
    }

    fn capture_mps(&self, _handle: u64, _state: u64) -> Result<(), SimulationError> {
        self.record(self.counted(|s| &mut s.capture_count, Event::CaptureMps))
    }

    fn configure_state_cutoff(
        &self,
        _handle: u64,
        _state: u64,
        _attribute: StateCutoff,
        _value_bits: u64,
    ) -> Result<(), SimulationError> {
        self.record(self.counted(|s| &mut s.configure_f64_count, Event::ConfigureF64))
    }

    fn configure_state(
        &self,
        _handle: u64,
        _state: u64,
        _configuration: StateConfiguration,
    ) -> Result<(), SimulationError> {
        self.record(self.counted(|s| &mut s.configure_u32_count, Event::ConfigureU32))
    }

    fn create_workspace(&self, _handle: u64) -> Result<u64, SimulationError> {
        let event = if self.state.borrow().state_workspace_handle.is_none() {
            Event::CreateWorkspace
        } else {
            Event::CreateQueryWorkspace
        };
        self.record(event)?;
        let workspace = self.handle();
        let mut state = self.state.borrow_mut();
        if state.state_workspace_handle.is_none() {
            state.state_workspace_handle = Some(workspace);
        }
        Ok(workspace)
    }

    fn destroy_workspace(&self, workspace: u64) -> Result<(), SimulationError> {
        let event = if self.state.borrow().state_workspace_handle == Some(workspace) {
            Event::DestroyWorkspace
        } else {
            Event::DestroyQueryWorkspace
        };
        self.record(event)
    }

    fn prepare_state(
        &self,
        _handle: u64,
        _state: u64,
        maximum_workspace_bytes: u64,
        _workspace: u64,
        _stream: u64,
    ) -> Result<(), SimulationError> {
        self.state.borrow_mut().prepare_maximum_workspace_bytes.push(maximum_workspace_bytes);
        self.record(Event::PrepareState)
    }

    fn workspace_size(&self, _handle: u64, _workspace: u64) -> Result<i64, SimulationError> {
        let event = {
            let mut state = self.state.borrow_mut();
            let event = if state.workspace_size_count == 0 { Event::WorkspaceSize } else { Event::QueryWorkspaceSize };
            state.workspace_size_count += 1;
            event
        };
        self.record(event)?;
        Ok(self.workspace_size)
    }

    fn set_workspace(&self, _handle: u64, _workspace: u64, _allocation: u64, _bytes: i64) -> Result<(), SimulationError> {
        let event = {
            let mut state = self.state.borrow_mut();
            let event = if state.set_workspace_count == 0 { Event::SetWorkspace } else { Event::QuerySetWorkspace };
            state.set_workspace_count += 1;
            event
        };
        self.record(event)
    }

    fn compute_state(
        &self,
        _handle: u64,
        _state: u64,
        _workspace: u64,
        metadata: &mut OutputMetadata,
        outputs: &Vec<u64>,
        _stream: u64,
    ) -> Result<(), SimulationError> {
        self.record(Event::ComputeState)?;
        assert_eq!(outputs.len(), 2);
        metadata.extents[0].copy_from_slice(&[2, 2]);
        metadata.extents[1].copy_from_slice(&[2, 2]);
        metadata.strides[0].copy_from_slice(&[2, 1]);
        metadata.strides[1].copy_from_slice(&[2, 1]);
        Ok(())
    }

    fn synchronize_stream(&self, _stream: u64) -> Result<(), SimulationError> {
        self.record(self.counted(|s| &mut s.synchronize_count, Event::Synchronize))
    }

    fn create_network_operator(&self, _handle: u64, _mode_extents: &Vec<i64>) -> Result<u64, SimulationError> {
        self.record(Event::CreateNetworkOperator)?;
        Ok(self.handle())
    }

    fn destroy_network_operator(&self, _operator: u64) -> Result<(), SimulationError> {
        self.record(Event::DestroyNetworkOperator)
    }

    fn append_product(
        &self,
        _handle: u64,
        _operator: u64,
        factor_modes: &Vec<Vec<i32>>,
        factor_tensors: &Vec<u64>,
    ) -> Result<(), SimulationError> {
        assert_eq!(factor_modes.len(), factor_tensors.len());
        self.state.borrow_mut().appended_modes.push(factor_modes.clone());
        self.record(self.counted(|s| &mut s.append_count, Event::AppendProduct))
    }

    fn create_expectation(&self, _handle: u64, _state: u64, _operator: u64) -> Result<u64, SimulationError> {
        self.record(Event::CreateExpectation)?;
        Ok(self.handle())
    }

    fn destroy_expectation(&self, _expectation: u64) -> Result<(), SimulationError> {
        self.record(Event::DestroyExpectation)
    }

    fn configure_expectation_hyper_samples(
        &self,
        _handle: u64,
        _expectation: u64,
        hyper_samples: i32,
    ) -> Result<(), SimulationError> {
        self.state.borrow_mut().expectation_hyper_samples.push(hyper_samples);
        self.record(Event::ConfigureExpectation)
    }

    fn prepare_expectation(
        &self,
        _handle: u64,
        _expectation: u64,
        maximum_workspace_bytes: u64,
        _workspace: u64,
        _stream: u64,
    ) -> Result<(), SimulationError> {
        self.state.borrow_mut().prepare_maximum_workspace_bytes.push(maximum_workspace_bytes);
        self.record(Event::PrepareExpectation)
    }

    fn compute_expectation(
        &self,
        _handle: u64,
        _expectation: u64,
        _workspace: u64,
        _stream: u64,
    ) -> Result<(f64, f64), SimulationError> {
        self.record(Event::ComputeExpectation)?;
        Ok(self.expectation_outputs.borrow_mut().pop_front().unwrap_or((6.0, 2.0)))
    }

    fn gate_matrix(&self, gate: Gate) -> Vec<Element> {
        match gate {
            Gate::Cnot { .. } => {
                let mut matrix = vec![[0.0, 0.0]; 16];
                matrix[0] = [1.0, 0.0];
                matrix[5] = [1.0, 0.0];
                matrix[11] = [1.0, 0.0];
                matrix[14] = [1.0, 0.0];
                matrix
            }
            _ => vec![[0.0, 0.0], [1.0, 0.0], [1.0, 0.0], [0.0, 0.0]],
        }
    }

    fn pauli_z_matrix(&self) -> Vec<Element> {
        vec![[1.0, 0.0], [0.0, 0.0], [0.0, 0.0], [-1.0, 0.0]]
    }

    fn outcome_projector(&self, outcome: SelectedBranch) -> Vec<Element> {
        match outcome {
            SelectedBranch::Zero => vec![[1.0, 0.0], [0.0, 0.0], [0.0, 0.0], [0.0, 0.0]],
            SelectedBranch::One => vec![[0.0, 0.0], [0.0, 0.0], [0.0, 0.0], [1.0, 0.0]],
        }
    }

    fn normalized_projector(&self, masses: &(f64, f64), selected: SelectedBranch) -> Result<Vec<Element>, SimulationError> {
        let mass = match selected {
            SelectedBranch::Zero => masses.0,
            SelectedBranch::One => masses.1,
        };
        if !mass.is_finite() || mass <= 0.0 {
            return Err(SimulationError::InvalidCircuit {
                reason: "cannot project onto a nonpositive or non-finite branch mass".to_string(),
            });
        }
        let scale = 1.0 / mass.sqrt();
        Ok(match selected {
            SelectedBranch::Zero => vec![[scale, 0.0], [0.0, 0.0], [0.0, 0.0], [0.0, 0.0]],
            SelectedBranch::One => vec![[0.0, 0.0], [0.0, 0.0], [0.0, 0.0], [scale, 0.0]],
        })
    }

    fn normalize_expectation(&self, value: (f64, f64)) -> Result<(f64, f64, f64), SimulationError> {
        if !(value.1 > 0.0) {
            return Err(SimulationError::InvalidNativeResult { reason: "squared norm is not positive".to_string() });
        }
        Ok((value.0, value.1, value.0 / value.1))
    }

    fn branch_masses(&self, zero: (f64, f64), one: (f64, f64)) -> Result<(f64, f64), SimulationError> {
        Ok((zero.0 / zero.1, one.0 / one.1))
    }

    fn selected_mass_is_positive(&self, masses: &(f64, f64), selected: SelectedBranch) -> bool {
        match selected {
            SelectedBranch::Zero => masses.0 > 0.0,
            SelectedBranch::One => masses.1 > 0.0,
        }
    }

    fn probability(&self, masses: &(f64, f64), selected: SelectedBranch) -> Result<f64, SimulationError> {
        let mass = match selected {
            SelectedBranch::Zero => masses.0,
            SelectedBranch::One => masses.1,
        };
        Ok(mass / (masses.0 + masses.1))
    }

    fn log_probability(&self, masses: &(f64, f64), selected: SelectedBranch) -> Result<f64, SimulationError> {
        Ok(self.probability(masses, selected)?.ln())
    }

    fn contract_chain(
        &self,
        realized: &Vec<Vec<usize>>,
        outputs: Vec<Vec<Element>>,
        _strides: &Vec<Vec<usize>>,
    ) -> Result<Vec<Element>, SimulationError> {
        assert_eq!(realized.len(), outputs.len());
        Ok(outputs.into_iter().next().unwrap_or_default())
    }
}

impl SamplerApi for FakeReplayApi {
    fn create_sampler(&self, _handle: u64, _state: u64, modes_to_sample: &Vec<i32>) -> Result<u64, SimulationError> {
        assert_eq!(modes_to_sample, &vec![0, 1]);
        self.record(Event::CreateSampler)?;
        Ok(self.handle())
    }

    fn destroy_sampler(&self, _sampler: u64) -> Result<(), SimulationError> {
        self.record(Event::DestroySampler)
    }

    fn configure_sampler_hyper_samples(&self, _handle: u64, _sampler: u64, hyper_samples: i32) -> Result<(), SimulationError> {
        assert_eq!(hyper_samples, 8);
        self.record(Event::ConfigureSamplerHyperSamples)
    }

    fn configure_sampler_path_seed(&self, _handle: u64, _sampler: u64, seed: i32) -> Result<(), SimulationError> {
        assert_eq!(seed, 11);
        self.record(Event::ConfigureSamplerPathSeed)
    }

    fn prepare_sampler(
        &self,
        _handle: u64,
        _sampler: u64,
        maximum_workspace_bytes: u64,
        _workspace: u64,
        _stream: u64,
    ) -> Result<(), SimulationError> {
        assert_eq!(maximum_workspace_bytes, ExecutionPolicy::bell_regression().maximum_workspace_bytes);
        self.record(Event::PrepareSampler)
    }

    fn configure_sampler_sample_seed(&self, _handle: u64, _sampler: u64, seed: i32) -> Result<(), SimulationError> {
        assert_eq!(seed, 29);
        self.record(Event::ConfigureSamplerSampleSeed)
    }

    fn sample(
        &self,
        _handle: u64,
        _sampler: u64,
        shots: i64,
        _workspace: u64,
        output: &mut Vec<i64>,
        _stream: u64,
    ) -> Result<(), SimulationError> {
        assert_eq!(shots, 3);
        assert_eq!(output.len(), 6);
        self.record(Event::Sample)?;
        output.copy_from_slice(&[0, 0, 1, 1, 0, 0]);
        Ok(())
    }
}

fn circuit() -> Circuit {
    let mut circuit = Circuit::new(2).expect("two-qubit fixture should be valid");
    circuit.push(Gate::H { target: 0 }).expect("Hadamard should be valid");
    circuit.push(Gate::Cnot { control: 0, target: 1 }).expect("CNOT should be valid");
    circuit
}

fn continuation_circuit() -> Circuit {
    let mut continuation = Circuit::new(2).expect("two-qubit continuation should be valid");
    continuation.push(Gate::H { target: 1 }).expect("continuation Hadamard should be valid");
    continuation.push(Gate::Cnot { control: 1, target: 0 }).expect("continuation CNOT should be valid");
    continuation
}

fn new_replay<'api>(api: &'api FakeReplayApi, circuit: &Circuit) -> Result<Replay<'api, FakeReplayApi>, SimulationError> {
    Replay::new(api, 0x1000, 0x2000, circuit, ExecutionPolicy::bell_regression())
}

fn run(api: &FakeReplayApi) -> Result<(), SimulationError> {
    let circuit = circuit();
    let mut replay = new_replay(api, &circuit)?;
    let execution = replay.execute(&circuit, StateReadout::FullAmplitudes).map(|_| ());
    let cleanup = replay.close();
    combine_execution_and_cleanup(execution, cleanup)
}

fn run_query(api: &FakeReplayApi) -> Result<(), SimulationError> {
    let circuit = circuit();
    let mut replay = new_replay(api, &circuit)?;
    let execution = replay
        .execute(&circuit, StateReadout::MetadataOnly)
        .and_then(|_| {
            let query = AdjacentZQuery::new(2).expect("Query should be valid");
            replay.execute_query(&query).map(|_| ())
        });
    let cleanup = replay.close();
    combine_execution_and_cleanup(execution, cleanup)
}

fn branch_api(failures: impl IntoIterator<Item = Event>, q0: f64, q1: f64) -> FakeReplayApi {
    FakeReplayApi::new(failures).with_expectations([(q0, 1.0), (q1, 1.0), (0.25, 1.0)])
}

fn run_branch(api: &FakeReplayApi, selected: SelectedBranch) -> Result<BranchOutcome<FakeReplayApi>, SimulationError> {
    let initial = circuit();
    let continuation = continuation_circuit();
    let query = AdjacentZQuery::new(2).expect("Query should be valid");
    let mut replay = new_replay(api, &initial)?;
    let execution = replay.execute_branch(&initial, BranchRequest { mode: 0, selected }, &continuation, &query);
    let cleanup = replay.close();
    combine_execution_and_cleanup(execution, cleanup)
}

fn positions(events: &[Event], selected: Event) -> Vec<usize> {
    events
        .iter()
        .enumerate()
        .filter_map(|(index, event)| if *event == selected { Some(index) } else { None })
        .collect()
}

fn assert_native_operation(error: &SimulationError, operation: &'static str) {
    assert!(
        matches!(
            error,
            SimulationError::NativeCallFailed { operation: actual, status: 17, .. } if *actual == operation
        ),
        "expected injected {operation} failure, got {error:?}"
    );
}

#[test]
fn successful_replay_cleans_up_in_dependency_order() {
    let api = FakeReplayApi::new([]);
    run(&api).expect("fake replay should succeed");

    assert_eq!(
        api.events(),
        [
            Event::CreateState,
            Event::CreateWorkspace,
            Event::Allocate(0),
            Event::CopyToDevice(0),
            Event::ApplyUnitary(0),
            Event::Allocate(1),
            Event::CopyToDevice(1),
            Event::ApplyUnitary(1),
            Event::FinalizeMps,
            Event::ConfigureF64(0),
            Event::ConfigureF64(1),
            Event::ConfigureU32(0),
            Event::ConfigureU32(1),
            Event::Allocate(2),
            Event::Allocate(3),
            Event::MemoryInfo,
            Event::PrepareState,
            Event::WorkspaceSize,
            Event::Allocate(4),
            Event::SetWorkspace,
            Event::ComputeState,
            Event::Synchronize(0),
            Event::CopyFromDevice(0),
            Event::CopyFromDevice(1),
            Event::Synchronize(1),
            Event::DestroyWorkspace,
            Event::DestroyState,
            Event::Free(0),
            Event::Free(1),
            Event::Free(2),
            Event::Free(3),
            Event::Free(4),
        ]
    );
    let mut expected_freed_handles = api.allocation_handles();
    expected_freed_handles.reverse();
    assert_eq!(api.freed_handles(), expected_freed_handles);
}

#[test]
fn sampler_materializes_mps_before_creation_and_retains_it_through_cleanup() {
    let api = FakeReplayApi::new([]);
    let circuit = circuit();
    let mut replay = new_replay(&api, &circuit).expect("replay should be created");
    let request = SamplingRequest::new(3, 8, Some(11), 29).expect("sampling request should be valid");

    let samples = replay.sample_full_bitstrings(&circuit, &request).expect("sampling should succeed");
    assert_eq!(samples.shot(1), Some([1, 1].as_slice()));
    replay.close().expect("replay cleanup should succeed");

    let events = api.events();
    let finalized = positions(&events, Event::FinalizeMps)[0];
    let prepared_state = positions(&events, Event::PrepareState)[0];
    let computed_state = positions(&events, Event::ComputeState)[0];
    let synchronized_state = positions(&events, Event::Synchronize(0))[0];
    let created_sampler = positions(&events, Event::CreateSampler)[0];
    let destroyed_sampler = positions(&events, Event::DestroySampler)[0];
    let destroyed_state = positions(&events, Event::DestroyState)[0];
    let first_free = positions(&events, Event::Free(0))[0];

    assert!(finalized < prepared_state);
    assert!(prepared_state < computed_state);
    assert!(computed_state < synchronized_state);
    assert!(synchronized_state < created_sampler);
    assert!(created_sampler < destroyed_sampler);
    assert!(destroyed_sampler < destroyed_state);
    assert!(destroyed_state < first_free);
}

#[test]
fn close_is_idempotent() {
    let api = FakeReplayApi::new([]);
    let circuit = circuit();
    let mut replay = new_replay(&api, &circuit).expect("replay should be created");

    replay.close().expect("first close should succeed");
    let events_after_first_close = api.events();
    replay.close().expect("second close should succeed");

    assert_eq!(api.events(), events_after_first_close);
    assert_eq!(
        events_after_first_close,
        [Event::CreateState, Event::CreateWorkspace, Event::Synchronize(0), Event::DestroyWorkspace, Event::DestroyState]
    );
}

#[test]
fn repeated_replay_balances_every_device_allocation() {
    let api = FakeReplayApi::new([]);

    run(&api).expect("first replay should succeed");
    run(&api).expect("second replay should succeed without stale state");

    let mut expected_freed_handles = api.allocation_handles();
    expected_freed_handles[..5].reverse();
    expected_freed_handles[5..].reverse();
    assert_eq!(api.freed_handles(), expected_freed_handles);
    assert_eq!(api.allocation_handles().len(), 10);
    assert_eq!(api.freed_handles().len(), 10);
}

#[test]
fn metadata_only_execution_skips_output_transfer_and_reports_resources() {
    let api = FakeReplayApi::new([]);
    let circuit = circuit();
    let mut replay = new_replay(&api, &circuit).expect("replay should be created");

    let result = replay.execute(&circuit, StateReadout::MetadataOnly).expect("metadata-only execution should succeed");
    replay.close().expect("cleanup should succeed");

    assert!(result.amplitudes.is_none());
    assert_eq!(result.report.target_extents, [vec![2, 2], vec![2, 2]]);
    assert_eq!(result.report.realized_extents, [vec![2, 2], vec![2, 2]]);
    assert_eq!(result.report.maximum_bond, 2);
    assert_eq!(result.report.policy, ExecutionPolicy::bell_regression());
    assert_eq!(result.report.workspace.total_bytes, 80 * 1024 * 1024);
    assert_eq!(result.report.workspace.free_before_bytes, 64 * 1024 * 1024);
    assert_eq!(
        result.report.workspace.requested_maximum_bytes,
        ExecutionPolicy::bell_regression().maximum_workspace_bytes
    );
    assert_eq!(result.report.workspace.native_recommended_bytes, 256);
    assert_eq!(result.report.workspace.allocated_bytes, 256);
    assert_eq!(result.report.workspace.free_after_cleanup_bytes, 0);
    assert_eq!(
        api.state.borrow().prepare_maximum_workspace_bytes,
        [ExecutionPolicy::bell_regression().maximum_workspace_bytes]
    );
    assert_eq!(api.state.borrow().allocation_sizes.last(), Some(&256));
    assert!(api.events().iter().all(|event| !matches!(event, Event::CopyFromDevice(_))));
}

#[test]
fn full_readout_copies_every_site_back() {
    let api = FakeReplayApi::new([]);
    let circuit = circuit();
    let mut replay = new_replay(&api, &circuit).expect("replay should be created");

    let result = replay.execute(&circuit, StateReadout::FullAmplitudes).expect("full readout should succeed");
    replay.close().expect("cleanup should succeed");

    assert!(result.amplitudes.is_some());
    assert_eq!(api.events().iter().filter(|event| matches!(event, Event::CopyFromDevice(_))).count(), 2);
}

#[test]
fn query_uses_ordered_product_terms_and_separate_synchronized_lifecycle() {
    let api = FakeReplayApi::new([]);
    let circuit = circuit();
    let mut replay = new_replay(&api, &circuit).expect("replay should be created");
    replay.execute(&circuit, StateReadout::MetadataOnly).expect("state execution should succeed");

    let query = AdjacentZQuery::new(2).expect("Query should be valid");
    let result = replay.execute_query(&query).expect("Query should succeed");
    replay.close().expect("cleanup should succeed");

    assert_eq!(result.value, (6.0, 2.0, 3.0));
    assert_eq!(result.hyper_samples, EXPECTATION_HYPER_SAMPLES);
    assert_eq!(api.state.borrow().appended_modes, [vec![vec![0], vec![1]]]);
    assert_eq!(api.state.borrow().expectation_hyper_samples, [EXPECTATION_HYPER_SAMPLES]);
    let events = api.events();
    let compute = positions(&events, Event::ComputeExpectation)[0];
    assert!(matches!(events[compute + 1], Event::Synchronize(_)));
    let query_workspace_destroy = positions(&events, Event::DestroyQueryWorkspace)[0];
    let expectation_destroy = positions(&events, Event::DestroyExpectation)[0];
    let operator_destroy = positions(&events, Event::DestroyNetworkOperator)[0];
    let state_destroy = positions(&events, Event::DestroyState)[0];
    assert!(query_workspace_destroy < expectation_destroy);
    assert!(expectation_destroy < operator_destroy);
    assert!(operator_destroy < state_destroy);
}

#[test]
fn query_width_and_second_lifecycle_are_rejected_without_native_work() {
    let api = FakeReplayApi::new([]);
    let circuit = circuit();
    let mut replay = new_replay(&api, &circuit).expect("replay should be created");
    replay.execute(&circuit, StateReadout::MetadataOnly).expect("state execution should succeed");

    let wide = AdjacentZQuery::new(3).expect("Query should be valid");
    let before = api.events();
    let error = replay.execute_query(&wide).err().expect("width mismatch should fail");
    assert_eq!(error.message(), "invalid circuit: Query width does not match the native state");
    assert_eq!(api.events(), before);

    let query = AdjacentZQuery::new(2).expect("Query should be valid");
    replay.execute_query(&query).expect("first Query should succeed");
    let before = api.events();
    let error = replay.execute_query(&query).err().expect("second lifecycle should fail");
    assert_eq!(error.message(), "invalid circuit: this replay already owns a Query lifecycle");
    assert_eq!(api.events(), before);
    replay.close().expect("cleanup should succeed");
}

#[test]
fn branch_materializes_and_captures_each_live_state_before_dependent_work() {
    let api = branch_api([], 0.8, 0.2);
    let result = run_branch(&api, SelectedBranch::Zero).expect("branch replay should succeed");

    assert_eq!(result.masses, (0.8, 0.2));
    assert!((result.probability - 0.8).abs() <= 1e-12);
    assert!(result.initial_state.amplitudes.is_some());
    assert!(result.post_projection_state.amplitudes.is_some());
    assert!(result.continuation_state.amplitudes.is_some());
    assert_eq!(result.query.value.0, 0.25);

    let events = api.events();
    let state_computes = positions(&events, Event::ComputeState);
    let expectation_computes = positions(&events, Event::ComputeExpectation);
    let projection = positions(&events, Event::ApplyProjection)[0];
    let first_continuation = positions(&events, Event::ApplyUnitary(2))[0];
    let network_operator_creates = positions(&events, Event::CreateNetworkOperator);

    assert_eq!(state_computes.len(), 3);
    assert_eq!(expectation_computes.len(), 3);
    let first_capture = positions(&events, Event::CaptureMps(0))[0];
    assert!(positions(&events, Event::Synchronize(0))[0] < first_capture);
    assert!(first_capture < expectation_computes[0]);
    assert!(expectation_computes[1] < projection);
    assert!(projection < state_computes[1]);
    assert!(positions(&events, Event::Synchronize(3))[0] < positions(&events, Event::CaptureMps(1))[0]);
    assert!(positions(&events, Event::CaptureMps(1))[0] < first_continuation);
    assert!(first_continuation < state_computes[2]);
    assert!(positions(&events, Event::Synchronize(4))[0] < network_operator_creates[2]);

    let uploads = api.state.borrow().uploaded_tensors.clone();
    assert_eq!(uploads[2], vec![[1.0, 0.0], [0.0, 0.0], [0.0, 0.0], [0.0, 0.0]]);
    assert_eq!(uploads[3], vec![[0.0, 0.0], [0.0, 0.0], [0.0, 0.0], [1.0, 0.0]]);
    assert_eq!(uploads[4], vec![[1.0 / 0.8_f64.sqrt(), 0.0], [0.0, 0.0], [0.0, 0.0], [0.0, 0.0]]);
}

#[test]
fn zero_selected_mass_fails_before_projection_allocation_or_mutation() {
    let api = branch_api([], 0.0, 1.0);
    let error = run_branch(&api, SelectedBranch::Zero).err().expect("zero-mass selected branch should fail");

    assert!(matches!(error, SimulationError::InvalidCircuit { .. }));
    let events = api.events();
    assert_eq!(positions(&events, Event::ComputeExpectation).len(), 2);
    assert!(!events.contains(&Event::ApplyProjection));
    let second_operator_destroy = positions(&events, Event::DestroyNetworkOperator)[1];
    assert!(events[second_operator_destroy + 1..]
        .iter()
        .all(|event| !matches!(event, Event::Allocate(_) | Event::CopyToDevice(_))));
}

#[test]
fn branch_barrier_failures_stop_the_next_semantic_stage() {
    let cases = [
        (Event::Synchronize(0), Event::CaptureMps(0)),
        (Event::Synchronize(1), Event::CreateNetworkOperator),
        (Event::Synchronize(2), Event::ApplyProjection),
        (Event::Synchronize(3), Event::CaptureMps(1)),
        (Event::Synchronize(4), Event::CreateNetworkOperator),
    ];

    for (failure, forbidden) in cases {
        let api = branch_api([failure], 0.8, 0.2);
        let error = run_branch(&api, SelectedBranch::Zero).err().expect("injected barrier failure should stop branch replay");
        assert_native_operation(&error, "synchronize_stream");
        let events = api.events();
        let failure_position = positions(&events, failure)[0];
        assert!(!events[failure_position + 1..].contains(&forbidden));
    }
}

#[test]
fn capture_failures_surface_before_properties_or_continuation() {
    for (failure, forbidden) in [
        (Event::CaptureMps(0), Event::CreateNetworkOperator),
        (Event::CaptureMps(1), Event::ApplyUnitary(2)),
    ] {
        let api = branch_api([failure], 0.8, 0.2);
        let error = run_branch(&api, SelectedBranch::Zero).err().expect("injected capture failure should stop branch replay");
        assert_native_operation(&error, "capture_mps");
        let events = api.events();
        let failure_position = positions(&events, failure)[0];
        assert!(!events[failure_position + 1..].contains(&forbidden));
    }
}

#[test]
fn branch_execution_and_outer_cleanup_errors_are_both_preserved() {
    let api = branch_api([Event::CaptureMps(0), Event::DestroyWorkspace], 0.8, 0.2);
    let error = run_branch(&api, SelectedBranch::Zero).err().expect("capture and cleanup should both fail");

    let SimulationError::ExecutionAndCleanupFailed { execution, cleanup } = error else {
        panic!("expected combined failure, got {error:?}");
    };
    assert_native_operation(&execution, "capture_mps");
    assert_native_operation(&cleanup, "destroy_workspace");
    let events = api.events();
    assert!(events.contains(&Event::DestroyState));
    assert!(matches!(events.last(), Some(Event::Free(_))));
}

#[test]
fn property_transaction_preserves_execution_and_first_cleanup_error() {
    let api = branch_api([Event::ComputeExpectation, Event::DestroyQueryWorkspace, Event::DestroyExpectation], 0.8, 0.2);
    let error = run_branch(&api, SelectedBranch::Zero).err().expect("property execution and cleanup should fail");

    let SimulationError::ExecutionAndCleanupFailed { execution, cleanup } = error else {
        panic!("expected combined property failure, got {error:?}");
    };
    assert_native_operation(&execution, "compute_expectation");
    assert_native_operation(&cleanup, "destroy_query_workspace");
    let events = api.events();
    let workspace_destroy = positions(&events, Event::DestroyQueryWorkspace)[0];
    let expectation_destroy = positions(&events, Event::DestroyExpectation)[0];
    let operator_destroy = positions(&events, Event::DestroyNetworkOperator)[0];
    assert!(workspace_destroy < expectation_destroy);
    assert!(expectation_destroy < operator_destroy);
    assert!(events.contains(&Event::DestroyState));
}

#[test]
fn every_query_call_is_fallible_and_cleans_up_owned_resources() {
    let failure_points = [
        Event::CreateNetworkOperator,
        Event::Allocate(5),
        Event::CopyToDevice(2),
        Event::AppendProduct(0),
        Event::CreateExpectation,
        Event::ConfigureExpectation,
        Event::CreateQueryWorkspace,
        Event::QueryMemoryInfo,
        Event::PrepareExpectation,
        Event::QueryWorkspaceSize,
        Event::Allocate(6),
        Event::QuerySetWorkspace,
        Event::ComputeExpectation,
        Event::Synchronize(1),
    ];

    for failure in failure_points {
        let api = FakeReplayApi::new([failure]);
        let error = run_query(&api).err().expect("the selected Query stage should fail");
        assert_native_operation(&error, failure.operation());
        let events = api.events();
        assert!(events.contains(&failure));
        assert!(events.contains(&Event::DestroyState));
        if failure != Event::CreateNetworkOperator {
            assert!(events.contains(&Event::DestroyNetworkOperator));
        }
        if matches!(
            failure,
            Event::ConfigureExpectation
                | Event::CreateQueryWorkspace
                | Event::QueryMemoryInfo
                | Event::PrepareExpectation
                | Event::QueryWorkspaceSize
                | Event::Allocate(6)
                | Event::QuerySetWorkspace
                | Event::ComputeExpectation
                | Event::Synchronize(1)
        ) {
            assert!(events.contains(&Event::DestroyExpectation));
        }
        let allocated = positions(&events, Event::Allocate(0)).len()
            + (1..7).map(|k| positions(&events, Event::Allocate(k)).len()).sum::<usize>();
        let freed = (0..7).map(|k| positions(&events, Event::Free(k)).len()).sum::<usize>();
        let failed_allocation = usize::from(matches!(failure, Event::Allocate(_)));
        assert_eq!(freed + failed_allocation, allocated);
    }
}

#[test]
fn simultaneous_query_execution_and_cleanup_failures_are_both_retained() {
    let api = FakeReplayApi::new([Event::ComputeExpectation, Event::DestroyExpectation]);
    let error = run_query(&api).err().expect("Query execution and cleanup should both fail");

    let SimulationError::ExecutionAndCleanupFailed { execution, cleanup } = error else {
        panic!("expected combined failure, got {error:?}");
    };
    assert_native_operation(&execution, "compute_expectation");
    assert_native_operation(&cleanup, "destroy_expectation");
    let events = api.events();
    assert!(events.contains(&Event::DestroyNetworkOperator));
    assert!(events.contains(&Event::DestroyState));
}

#[test]
fn deferred_compute_or_sync_failure_prevents_output_transfer() {
    for failure in [Event::ComputeState, Event::Synchronize(0)] {
        let api = FakeReplayApi::new([failure]);
        let error = run(&api).err().expect("execution should fail before output transfer");

        assert_native_operation(&error, failure.operation());
        assert!(api.events().iter().all(|event| !matches!(event, Event::CopyFromDevice(_))));
    }
}

#[test]
fn workspace_recommendation_above_policy_fails_before_scratch_allocation() {
    let policy = ExecutionPolicy::bell_regression();
    let workspace_size = i64::try_from(policy.maximum_workspace_bytes + 1).expect("approved workspace ceiling should fit i64");
    let api = FakeReplayApi::new([]).with_workspace(usize::MAX, workspace_size);
    let circuit = circuit();
    let mut replay = new_replay(&api, &circuit).expect("replay should be created");

    let error = replay.execute(&circuit, StateReadout::MetadataOnly).err().expect("workspace recommendation should exceed policy");
    replay.close().expect("cleanup should succeed");

    assert!(matches!(
        error,
        SimulationError::WorkspaceLimitExceeded { required, maximum }
            if required == policy.maximum_workspace_bytes + 1 && maximum == policy.maximum_workspace_bytes
    ));
    assert!(!api.events().contains(&Event::Allocate(4)));
    assert!(!api.events().contains(&Event::SetWorkspace));
}

#[test]
fn workspace_recommendation_above_free_memory_fails_before_scratch_allocation() {
    let api = FakeReplayApi::new([]).with_workspace(255, 256);
    let circuit = circuit();
    let mut replay = new_replay(&api, &circuit).expect("replay should be created");

    let error = replay.execute(&circuit, StateReadout::MetadataOnly).err().expect("workspace recommendation should exceed free memory");
    replay.close().expect("cleanup should succeed");

    assert!(matches!(error, SimulationError::WorkspaceLimitExceeded { required: 256, maximum: 255 }));
    assert!(!api.events().contains(&Event::Allocate(4)));
    assert!(!api.events().contains(&Event::SetWorkspace));
}

#[test]
fn nonpositive_workspace_recommendation_fails_before_scratch_allocation() {
    for workspace_size in [0, -1] {
        let api = FakeReplayApi::new([]).with_workspace(usize::MAX, workspace_size);
        let circuit = circuit();
        let mut replay = new_replay(&api, &circuit).expect("replay should be created");

        let error = replay.execute(&circuit, StateReadout::MetadataOnly).err().expect("nonpositive workspace recommendation should fail");
        replay.close().expect("cleanup should succeed");

        assert_eq!(error.message(), format!("invalid native result: recommended workspace size is {workspace_size}"));
        assert!(!api.events().contains(&Event::Allocate(4)));
        assert!(!api.events().contains(&Event::SetWorkspace));
    }
}

#[test]
fn every_construction_and_execution_call_is_fallible_and_cleans_up() {
    let failure_points = [
        Event::CreateState,
        Event::CreateWorkspace,
        Event::Allocate(0),
        Event::CopyToDevice(0),
        Event::ApplyUnitary(0),
        Event::Allocate(1),
        Event::CopyToDevice(1),
        Event::ApplyUnitary(1),
        Event::FinalizeMps,
        Event::ConfigureF64(0),
        Event::ConfigureF64(1),
        Event::ConfigureU32(0),
        Event::ConfigureU32(1),
        Event::Allocate(2),
        Event::Allocate(3),
        Event::MemoryInfo,
        Event::PrepareState,
        Event::WorkspaceSize,
        Event::Allocate(4),
        Event::SetWorkspace,
        Event::ComputeState,
        Event::Synchronize(0),
        Event::CopyFromDevice(0),
        Event::CopyFromDevice(1),
    ];

    for failure in failure_points {
        let api = FakeReplayApi::new([failure]);
        let error = run(&api).err().expect("the selected replay call should fail");
        assert_native_operation(&error, failure.operation());
        let events = api.events();
        assert!(events.contains(&failure));
        if failure != Event::CreateState {
            assert!(events.contains(&Event::DestroyState));
        }
        if failure != Event::CreateState && failure != Event::CreateWorkspace {
            assert!(events.contains(&Event::DestroyWorkspace));
        }
    }
}

#[test]
fn every_cleanup_call_is_attempted_after_a_failure() {
    let failure_points = [
        Event::Synchronize(1),
        Event::DestroyWorkspace,
        Event::DestroyState,
        Event::Free(0),
        Event::Free(1),
        Event::Free(2),
        Event::Free(3),
        Event::Free(4),
    ];

    for failure in failure_points {
        let api = FakeReplayApi::new([failure]);
        let error = run(&api).err().expect("the selected cleanup call should fail");
        assert_native_operation(&error, failure.operation());
        let events = api.events();
        assert!(events.contains(&Event::DestroyWorkspace));
        assert!(events.contains(&Event::DestroyState));
        assert!(events.contains(&Event::Free(4)));
    }
}

#[test]
fn simultaneous_execution_and_cleanup_failures_are_both_retained() {
    let api = FakeReplayApi::new([Event::ComputeState, Event::Synchronize(0)]);
    let error = run(&api).err().expect("execution and cleanup should both fail");

    let SimulationError::ExecutionAndCleanupFailed { execution, cleanup } = error else {
        panic!("expected combined failure, got {error:?}");
    };
    assert_native_operation(&execution, "compute_state");
    assert_native_operation(&cleanup, "synchronize_stream");
    let events = api.events();
    assert!(events.contains(&Event::DestroyWorkspace));
    assert!(events.contains(&Event::DestroyState));
    assert!(events.contains(&Event::Free(4)));
}

#[test]
fn simultaneous_construction_and_cleanup_failures_are_both_retained() {
    let api = FakeReplayApi::new([Event::CreateWorkspace, Event::Synchronize(0)]);
    let error = run(&api).err().expect("construction and cleanup should both fail");

    let SimulationError::ExecutionAndCleanupFailed { execution, cleanup } = error else {
        panic!("expected combined failure, got {error:?}");
    };
    assert_native_operation(&execution, "create_workspace");
    assert_native_operation(&cleanup, "synchronize_stream");
    assert_eq!(api.events(), [Event::CreateState, Event::CreateWorkspace, Event::Synchronize(0), Event::DestroyState]);
}
