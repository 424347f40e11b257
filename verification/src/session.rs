//! The device, stream and library handle a simulation session owns, and the
//! sessions that run replays on them.

use vstd::prelude::*;
use vstd::multiset::*;
use crate::circuit::Circuit;
use crate::error::{combine_execution_and_cleanup, SimulationError};
use crate::policy::{policy_rejection, ExecutionPolicy};
use crate::query::{AdjacentZQuery, EXPECTATION_HYPER_SAMPLES};
use crate::replay::{accepted_workspace, sampled_mode,
    cleanup_outcome, failure_of, held, lemma_live_acquired, BranchOutcome, BranchRequest, lemma_live_released, lemma_live_synchronized,
    lemma_run_push, lemma_steps_push, live, released, QueryOutcome, Replay, ReplayApi, ReplayEvent,
    Resource, StateReadout, StateResult,
};
use crate::sampler::{SamplerApi, SamplingRequest};

verus! {

broadcast use vstd::multiset::group_multiset_axioms;

/// The native calls that set up and tear down a session.
pub trait SessionApi {
    fn device_count(&self) -> Result<i32, SimulationError>;

    fn set_device(&self, ordinal: i32) -> Result<(), SimulationError>;

    fn create_stream(&self) -> Result<u64, SimulationError>;

    fn synchronize_stream(&self, stream: u64) -> Result<(), SimulationError>;

    fn destroy_stream(&self, stream: u64) -> Result<(), SimulationError>;

    fn create_handle(&self) -> Result<u64, SimulationError>;

    fn destroy_handle(&self, handle: u64) -> Result<(), SimulationError>;
}

pub open spec fn stream_resource(h: Option<u64>) -> Option<Resource> {
    match h {
        Some(x) => Some(Resource::Stream(x)),
        None => None,
    }
}

pub open spec fn handle_resource(h: Option<u64>) -> Option<Resource> {
    match h {
        Some(x) => Some(Resource::LibraryHandle(x)),
        None => None,
    }
}

pub open spec fn optional_resource(r: Option<Resource>) -> Seq<Resource> {
    match r {
        Some(x) => seq![x],
        None => Seq::empty(),
    }
}

/// A selected device with its stream and library handle.
pub struct SessionResources<A: SessionApi> {
    api: A,
    selected: Ghost<i32>,
    device_ordinal: i32,
    stream: Option<u64>,
    handle: Option<u64>,
    history: Ghost<Seq<ReplayEvent>>,
}

/// Accepts a device ordinal among `device_count` devices: no device at all
/// is `NoDevice`, an ordinal outside them an invalid policy.
pub fn device_selection(device_count: i32, device_ordinal: i32) -> (r: Result<(), SimulationError>)
    ensures
        device_count <= 0 ==> r == Err::<(), SimulationError>(SimulationError::NoDevice),
        device_count > 0 && (device_ordinal < 0 || device_ordinal >= device_count) ==> r == Err::<
            (),
            SimulationError,
        >(
            SimulationError::InvalidExecutionPolicy {
                reason: "device ordinal is outside the available CUDA devices",
            },
        ),
        device_count > 0 && 0 <= device_ordinal < device_count ==> r is Ok,
{
    if device_count <= 0 {
        return Err(SimulationError::NoDevice);
    }
    if device_ordinal < 0 || device_ordinal >= device_count {
        return Err(SimulationError::InvalidExecutionPolicy {
            reason: "device ordinal is outside the available CUDA devices",
        });
    }
    Ok(())
}

/// Selects a device, and gives back the ordinal it handed on.
fn native_set_device<A: SessionApi>(api: &A, ordinal: i32) -> (r: (Result<(), SimulationError>, Ghost<i32>))
    ensures
        r.1@ == ordinal,
{
    (api.set_device(ordinal), Ghost(ordinal))
}

impl<A: SessionApi> SessionResources<A> {
    /// The resources held: stream and handle.
    pub closed spec fn owned(&self) -> Multiset<Resource> {
        held(stream_resource(self.stream)).add(held(handle_resource(self.handle)))
    }

    pub closed spec fn history(&self) -> Seq<ReplayEvent> {
        self.history@
    }

    pub closed spec fn ordinal(&self) -> i32 {
        self.device_ordinal
    }

    /// The ordinal handed to the library when the device was selected.
    pub closed spec fn selected_device(&self) -> i32 {
        self.selected@
    }

    /// Whether both the stream and the handle are held.
    pub closed spec fn is_open(&self) -> bool {
        self.stream is Some && self.handle is Some
    }

    /// The history leaves live exactly what is held.
    pub closed spec fn wf(&self) -> bool {
        live(self.history@) =~= self.owned()
    }

    /// The order closing releases what is held: handle, then stream.
    pub closed spec fn release_order(&self) -> Seq<Resource> {
        optional_resource(handle_resource(self.handle)) + optional_resource(stream_resource(self.stream))
    }

    /// Selects device `device_ordinal` (which must exist) and creates a
    /// stream on it, then a library handle. If the handle cannot be created
    /// the stream is released again and the creation failure is reported, with
    /// the cleanup failure if releasing failed too.
    pub fn new(api: A, device_ordinal: i32) -> (r: Result<Self, SimulationError>)
        ensures
            device_ordinal < 0 ==> r is Err,
            r matches Ok(resources) ==> resources.wf() && resources.is_open() && resources.ordinal()
                == device_ordinal && device_ordinal >= 0 && resources.selected_device() == device_ordinal,
    {
        let device_count = api.device_count()?;
        device_selection(device_count, device_ordinal)?;
        let (selected, selection) = native_set_device(&api, device_ordinal);
        selected?;
        let stream = api.create_stream()?;
        let history: Ghost<Seq<ReplayEvent>> = Ghost(
            Seq::empty().push(ReplayEvent::Acquired(Resource::Stream(stream))),
        );
        let mut resources = SessionResources {
            api,
            selected: selection,
            device_ordinal,
            stream: Some(stream),
            handle: None,
            history,
        };
        proof {
            lemma_live_acquired(Seq::<ReplayEvent>::empty(), Resource::Stream(stream));
        }
        match resources.api.create_handle() {
            Ok(handle) => {
                resources.handle = Some(handle);
                let ghost before = resources.history@;
                resources.history = Ghost(before.push(ReplayEvent::Acquired(Resource::LibraryHandle(handle))));
                proof {
                    lemma_live_acquired(before, Resource::LibraryHandle(handle));
                }
                Ok(resources)
            },
            Err(error) => {
                let cleanup = resources.close();
                combine_execution_and_cleanup(Err(error), cleanup)
            },
        }
    }

    /// The selected device.
    pub fn device_ordinal(&self) -> (ordinal: i32)
        ensures
            ordinal == self.ordinal(),
    {
        self.device_ordinal
    }

    /// Makes the session's device current for the calling thread.
    pub fn bind_device(&self) -> (r: Result<(), SimulationError>) {
        self.api.set_device(self.device_ordinal)
    }

    /// The native library the session was opened with.
    pub closed spec fn native_api(&self) -> A {
        self.api
    }

    /// The native library the session calls.
    pub fn api(&self) -> (api: &A)
        ensures
            *api == self.native_api(),
    {
        &self.api
    }

    /// The session's stream.
    pub fn stream(&self) -> (stream: u64)
        requires
            self.is_open(),
        ensures
            self.owned().count(Resource::Stream(stream)) > 0,
    {
        self.stream.unwrap()
    }

    /// The session's library handle.
    pub fn handle(&self) -> (handle: u64)
        requires
            self.is_open(),
        ensures
            self.owned().count(Resource::LibraryHandle(handle)) > 0,
    {
        self.handle.unwrap()
    }

    /// Waits for the stream if there is one, then destroys the handle and
    /// the stream, attempting each and reporting the first failure.
    pub fn close(&mut self) -> (r: Result<(), SimulationError>)
        requires
            old(self).wf(),
        ensures
            final(self).wf(),
            final(self).owned() =~= Multiset::empty(),
            final(self).ordinal() == old(self).ordinal(),
            old(self).history().len() <= final(self).history().len(),
            final(self).history().subrange(0, old(self).history().len() as int) == old(self).history(),
            ({
                let steps = final(self).history().subrange(
                    old(self).history().len() as int,
                    final(self).history().len() as int,
                );
                &&& released(steps) == old(self).release_order()
                &&& r == cleanup_outcome(steps)
            }),
    {
        let ghost start = self.history@;
        let mut first_error: Option<SimulationError> = None;
        assert(start.subrange(0, start.len() as int) =~= start);
        assert(start.subrange(start.len() as int, start.len() as int) =~= Seq::<ReplayEvent>::empty());
        if let Some(stream) = self.stream {
            let outcome = self.api.synchronize_stream(stream);
            let ghost before = self.history@;
            self.history = Ghost(before.push(ReplayEvent::Synchronized(failure_of(outcome))));
            proof {
                lemma_live_synchronized(before, failure_of(outcome));
                lemma_steps_push(before, start.len() as int, ReplayEvent::Synchronized(failure_of(outcome)));
                lemma_run_push(before.subrange(start.len() as int, before.len() as int), ReplayEvent::Synchronized(failure_of(outcome)));
            }
            if let Err(error) = outcome {
                first_error = Some(error);
            }
        }
        if let Some(handle) = self.handle.take() {
            let outcome = self.api.destroy_handle(handle);
            let ghost before = self.history@;
            self.history = Ghost(before.push(ReplayEvent::Released(Resource::LibraryHandle(handle), failure_of(outcome))));
            proof {
                lemma_live_released(before, Resource::LibraryHandle(handle), failure_of(outcome));
                lemma_steps_push(before, start.len() as int, ReplayEvent::Released(Resource::LibraryHandle(handle), failure_of(outcome)));
                lemma_run_push(before.subrange(start.len() as int, before.len() as int), ReplayEvent::Released(Resource::LibraryHandle(handle), failure_of(outcome)));
            }
            if let Err(error) = outcome {
                if first_error.is_none() {
                    first_error = Some(error);
                }
            }
        }
        assert(released(self.history@.subrange(start.len() as int, self.history@.len() as int))
            =~= optional_resource(handle_resource(old(self).handle)));
        if let Some(stream) = self.stream.take() {
            let outcome = self.api.destroy_stream(stream);
            let ghost before = self.history@;
            self.history = Ghost(before.push(ReplayEvent::Released(Resource::Stream(stream), failure_of(outcome))));
            proof {
                lemma_live_released(before, Resource::Stream(stream), failure_of(outcome));
                lemma_steps_push(before, start.len() as int, ReplayEvent::Released(Resource::Stream(stream), failure_of(outcome)));
                lemma_run_push(before.subrange(start.len() as int, before.len() as int), ReplayEvent::Released(Resource::Stream(stream), failure_of(outcome)));
            }
            if let Err(error) = outcome {
                if first_error.is_none() {
                    first_error = Some(error);
                }
            }
        }
        assert(released(self.history@.subrange(start.len() as int, self.history@.len() as int))
            =~= old(self).release_order());
        match first_error {
            Some(error) => Err(error),
            None => Ok(()),
        }
    }
}

/// A validated policy bound to an open device session; it runs replays.
pub struct Session<A: SessionApi> {
    resources: SessionResources<A>,
    policy: ExecutionPolicy,
}

/// A validated MPS policy bound to an open device session.
pub struct MpsSession<A: SessionApi> {
    resources: SessionResources<A>,
    policy: ExecutionPolicy,
}

impl<A: SessionApi> MpsSession<A> {
    pub closed spec fn wf(&self) -> bool {
        self.resources.wf() && self.resources.is_open() && policy_rejection(self.policy) is None
    }

    pub closed spec fn execution_policy(&self) -> ExecutionPolicy {
        self.policy
    }

    /// Validates the policy, then opens its device.
    pub fn new(api: A, policy: ExecutionPolicy) -> (r: Result<Self, SimulationError>)
        ensures
            policy_rejection(policy) matches Some(reason) ==> r == Err::<Self, SimulationError>(
                SimulationError::InvalidExecutionPolicy { reason },
            ),
            r matches Ok(session) ==> session.wf() && session.execution_policy() == policy
                && session.device_ordinal_spec() == policy.device_ordinal,
    {
        let policy = policy.validate()?;
        let resources = SessionResources::new(api, policy.device_ordinal)?;
        Ok(MpsSession { resources, policy })
    }

    pub closed spec fn device_ordinal_spec(&self) -> i32 {
        self.resources.ordinal()
    }

    /// The device the session runs on.
    pub fn device_ordinal(&self) -> (ordinal: i32)
        ensures
            ordinal == self.device_ordinal_spec(),
    {
        self.resources.device_ordinal()
    }

    /// The validated policy.
    pub fn policy(&self) -> (policy: ExecutionPolicy)
        ensures
            policy == self.execution_policy(),
    {
        self.policy
    }

    /// Closes the session, reporting native cleanup failures.
    pub fn close(self) -> (r: Result<(), SimulationError>)
        requires
            self.wf(),
    {
        let mut resources = self.resources;
        resources.close()
    }
}

impl<A: SessionApi> Session<A> {
    pub closed spec fn wf(&self) -> bool {
        self.resources.wf() && self.resources.is_open() && policy_rejection(self.policy) is None
    }

    pub closed spec fn execution_policy(&self) -> ExecutionPolicy {
        self.policy
    }

    pub closed spec fn device_ordinal_spec(&self) -> i32 {
        self.resources.ordinal()
    }

    /// Validates the policy, then opens its device.
    pub fn new(api: A, policy: ExecutionPolicy) -> (r: Result<Self, SimulationError>)
        ensures
            policy_rejection(policy) matches Some(reason) ==> r == Err::<Self, SimulationError>(
                SimulationError::InvalidExecutionPolicy { reason },
            ),
            r matches Ok(session) ==> session.wf() && session.execution_policy() == policy
                && session.device_ordinal_spec() == policy.device_ordinal,
    {
        let policy = policy.validate()?;
        let resources = SessionResources::new(api, policy.device_ordinal)?;
        Ok(Session { resources, policy })
    }

    /// The device the session runs on.
    pub fn device_ordinal(&self) -> (ordinal: i32)
        ensures
            ordinal == self.device_ordinal_spec(),
    {
        self.resources.device_ordinal()
    }

    /// The validated policy.
    pub fn policy(&self) -> (policy: ExecutionPolicy)
        ensures
            policy == self.execution_policy(),
    {
        self.policy
    }

    /// Closes the session, reporting native cleanup failures.
    pub fn close(self) -> (r: Result<(), SimulationError>)
        requires
            self.wf(),
    {
        let mut resources = self.resources;
        resources.close()
    }
}

impl<A: SessionApi + ReplayApi> Session<A> {
    /// Runs `circuit` in a replay of its own, closes the replay, and reports
    /// the free device memory after cleanup.
    pub fn simulate(&self, circuit: &Circuit, readout: StateReadout) -> (r: Result<
        StateResult<A>,
        SimulationError,
    >)
        requires
            self.wf(),
        ensures
            circuit.width() < 2 ==> (r matches Err(SimulationError::InvalidCircuit { reason }) && reason@
                == "MPS simulation requires at least two qubits; use type=\"cpu\" for single-qubit circuits"@),
            r matches Ok(result) ==> result.report.policy == self.execution_policy() && (
            result.amplitudes is Some <==> readout == StateReadout::FullAmplitudes),
    {
        let mut replay = Replay::new(
            self.resources.api(),
            self.resources.handle(),
            self.resources.stream(),
            circuit,
            self.policy,
        )?;
        let execution = replay.execute(circuit, readout);
        let cleanup = replay.close();
        let mut result = combine_execution_and_cleanup(execution, cleanup)?;
        let (free_after_cleanup_bytes, _) = ReplayApi::memory_info(self.resources.api())?;
        result.report.workspace.free_after_cleanup_bytes = free_after_cleanup_bytes;
        Ok(result)
    }

    /// Runs `circuit` (metadata only) and evaluates the Query in one replay,
    /// closes the replay, and reports the free device memory after cleanup.
    pub fn simulate_and_query(&self, circuit: &Circuit, query: &AdjacentZQuery) -> (r: Result<
        (StateResult<A>, QueryOutcome<A>),
        SimulationError,
    >)
        requires
            self.wf(),
        ensures
            circuit.width() < 2 ==> (r matches Err(SimulationError::InvalidCircuit { reason }) && reason@
                == "MPS simulation requires at least two qubits; use type=\"cpu\" for single-qubit circuits"@),
            r matches Ok((state, outcome)) ==> state.report.policy == self.execution_policy()
                && state.amplitudes is None && query.width == circuit.width()
                && outcome.hyper_samples == EXPECTATION_HYPER_SAMPLES,
    {
        let mut replay = Replay::new(
            self.resources.api(),
            self.resources.handle(),
            self.resources.stream(),
            circuit,
            self.policy,
        )?;
        let execution = Self::state_then_query(&mut replay, circuit, query);
        let cleanup = replay.close();
        let (mut state, mut query_result) = combine_execution_and_cleanup(execution, cleanup)?;
        let (free_after_cleanup_bytes, _) = ReplayApi::memory_info(self.resources.api())?;
        state.report.workspace.free_after_cleanup_bytes = free_after_cleanup_bytes;
        query_result.workspace.free_after_cleanup_bytes = free_after_cleanup_bytes;
        Ok((state, query_result))
    }

    /// Runs `initial` with full readout, selects and projects the requested
    /// branch, runs `continuation` and evaluates the Query, all in one replay
    /// that is closed again whatever happens; every reported state and the
    /// Query carry the free device memory after cleanup.
    pub fn simulate_with_branch(
        &self,
        initial: &Circuit,
        request: BranchRequest,
        continuation: &Circuit,
        query: &AdjacentZQuery,
    ) -> (r: Result<BranchOutcome<A>, SimulationError>)
        requires
            self.wf(),
        ensures
            initial.width() < 2 ==> (r matches Err(SimulationError::InvalidCircuit { reason }) && reason@
                == "MPS simulation requires at least two qubits; use type=\"cpu\" for single-qubit circuits"@),
            r matches Ok(outcome) ==> request.mode <= i32::MAX && query.width == initial.width()
                && outcome.query.hyper_samples == EXPECTATION_HYPER_SAMPLES
                && outcome.request == request && outcome.initial_state.amplitudes is Some
                && outcome.post_projection_state.amplitudes is Some && outcome.continuation_state.amplitudes is Some
                && outcome.initial_state.report.policy == self.execution_policy()
                && outcome.continuation_state.report.policy == self.execution_policy(),
    {
        let mut replay = Replay::new(
            self.resources.api(),
            self.resources.handle(),
            self.resources.stream(),
            initial,
            self.policy,
        )?;
        let execution = replay.execute_branch(initial, request, continuation, query);
        let cleanup = replay.close();
        let mut result = combine_execution_and_cleanup(execution, cleanup)?;
        let (free_after_cleanup_bytes, _) = ReplayApi::memory_info(self.resources.api())?;
        result.initial_state.report.workspace.free_after_cleanup_bytes = free_after_cleanup_bytes;
        result.post_projection_state.report.workspace.free_after_cleanup_bytes = free_after_cleanup_bytes;
        result.continuation_state.report.workspace.free_after_cleanup_bytes = free_after_cleanup_bytes;
        result.query.workspace.free_after_cleanup_bytes = free_after_cleanup_bytes;
        Ok(result)
    }

    fn state_then_query(replay: &mut Replay<A>, circuit: &Circuit, query: &AdjacentZQuery) -> (r: Result<
        (StateResult<A>, QueryOutcome<A>),
        SimulationError,
    >)
        requires
            old(replay).ready(),
        ensures
            final(replay).wf(),
            r matches Ok((state, outcome)) ==> state.report.policy == old(replay).execution_policy()
                && state.amplitudes is None && query.width == old(replay).width()
                && outcome.hyper_samples == EXPECTATION_HYPER_SAMPLES && accepted_workspace(
                outcome.workspace,
                old(replay).execution_policy(),
            ),
    {
        let ghost start = *replay;
        let state = replay.execute(circuit, StateReadout::MetadataOnly)?;
        proof { replay.lemma_same_session(&start); }
        let query_result = replay.execute_query(query)?;
        Ok((state, query_result))
    }
}

impl<A: SessionApi + ReplayApi + SamplerApi> Session<A> {
    /// Draws shots of the given qubits after running `circuit`, in a replay
    /// that is closed again whatever happens.
    pub fn sample(&self, circuit: &Circuit, sampled_qubits: &Vec<usize>, request: &SamplingRequest) -> (r:
        Result<Vec<i64>, SimulationError>)
        requires
            self.wf(),
        ensures
            circuit.width() < 2 ==> (r matches Err(SimulationError::InvalidCircuit { reason }) && reason@
                == "MPS simulation requires at least two qubits; use type=\"cpu\" for single-qubit circuits"@),
            r is Ok ==> forall|j: int| 0 <= j < sampled_qubits@.len() ==> #[trigger] sampled_mode(
                sampled_qubits@[j],
                circuit.width(),
            ) is Ok,
    {
        let mut replay = Replay::new(
            self.resources.api(),
            self.resources.handle(),
            self.resources.stream(),
            circuit,
            self.policy,
        )?;
        let execution = replay.sample_qubits(circuit, sampled_qubits, request);
        let cleanup = replay.close();
        combine_execution_and_cleanup(execution, cleanup)
    }
}

} // verus!
