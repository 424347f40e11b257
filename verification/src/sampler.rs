//! Sampling requests and the shot-major bitstring matrix a sampler returns.

use vstd::prelude::*;
use vstd::string::*;
use vstd::slice::slice_subrange;
use crate::error::SimulationError;
use crate::native::require_positive;
use crate::error::combine_execution_and_cleanup;

verus! {

/// A validated request for shots from the native state sampler.
#[derive(Debug, Clone, Copy, PartialEq, Eq)]
pub struct SamplingRequest {
    shots: usize,
    hyper_samples: i32,
    path_seed: Option<i32>,
    sample_seed: i32,
}

/// The first sampler setting that is not strictly positive, if any.
pub open spec fn sampling_request_rejection(
    shots: usize,
    hyper_samples: i32,
    path_seed: Option<i32>,
    sample_seed: i32,
) -> Option<&'static str> {
    if shots == 0 {
        Some("sampler shot count must be positive")
    } else if hyper_samples <= 0 {
        Some("sampler hyper-samples must be positive")
    } else if path_seed matches Some(seed) && seed <= 0 {
        Some("sampler pathfinding seed must be positive")
    } else if sample_seed <= 0 {
        Some("sampler sample seed must be positive")
    } else {
        None
    }
}

impl SamplingRequest {
    pub closed spec fn spec_shots(&self) -> usize {
        self.shots
    }

    pub closed spec fn spec_hyper_samples(&self) -> i32 {
        self.hyper_samples
    }

    pub closed spec fn spec_path_seed(&self) -> Option<i32> {
        self.path_seed
    }

    pub closed spec fn spec_sample_seed(&self) -> i32 {
        self.sample_seed
    }

    /// Accepts the request only when the shot count, hyper-sample count and
    /// seeds are all strictly positive; the first offending setting is named.
    pub fn new(shots: usize, hyper_samples: i32, path_seed: Option<i32>, sample_seed: i32) -> (r: Result<Self, SimulationError>)
        ensures
            match sampling_request_rejection(shots, hyper_samples, path_seed, sample_seed) {
                Some(reason) => r == Err::<Self, SimulationError>(SimulationError::InvalidSamplerConfiguration { reason }),
                None => r matches Ok(request) && request.spec_shots() == shots
                    && request.spec_hyper_samples() == hyper_samples
                    && request.spec_path_seed() == path_seed
                    && request.spec_sample_seed() == sample_seed,
            },
    {
        require_positive(shots, "sampler shot count must be positive")?;
        require_positive(hyper_samples, "sampler hyper-samples must be positive")?;
        if let Some(seed) = path_seed {
            require_positive(seed, "sampler pathfinding seed must be positive")?;
        }
        require_positive(sample_seed, "sampler sample seed must be positive")?;
        Ok(SamplingRequest { shots, hyper_samples, path_seed, sample_seed })
    }

    pub fn shots(&self) -> (n: usize)
        ensures
            n == self.spec_shots(),
    {
        self.shots
    }

    pub fn hyper_samples(&self) -> (n: i32)
        ensures
            n == self.spec_hyper_samples(),
    {
        self.hyper_samples
    }

    pub fn path_seed(&self) -> (s: Option<i32>)
        ensures
            s == self.spec_path_seed(),
    {
        self.path_seed
    }

    pub fn sample_seed(&self) -> (s: i32)
        ensures
            s == self.spec_sample_seed(),
    {
        self.sample_seed
    }
}

/// Every value is a qubit outcome, 0 or 1.
pub open spec fn all_bits(samples: Seq<i64>) -> bool {
    forall|i: int| 0 <= i < samples.len() ==> (#[trigger] samples[i] == 0 || samples[i] == 1)
}

/// Shot-major samples of `width` qubit modes: shot `k` occupies positions
/// `k * width .. (k + 1) * width`.
#[derive(Debug, PartialEq, Eq)]
pub struct FullBitstringSamples {
    width: usize,
    samples: Vec<i64>,
}

impl FullBitstringSamples {
    #[verifier::type_invariant]
    spec fn well_formed(&self) -> bool {
        &&& self.width > 0
        &&& self.samples@.len() % (self.width as nat) == 0
        &&& all_bits(self.samples@)
    }

    pub closed spec fn spec_width(&self) -> nat {
        self.width as nat
    }

    pub closed spec fn values(&self) -> Seq<i64> {
        self.samples@
    }

    /// Accepts the sampler output only when it is a whole number of shots of
    /// `width` modes and every value is a bit.
    pub fn new(width: usize, samples: Vec<i64>) -> (r: Result<Self, SimulationError>)
        ensures
            (width == 0 || samples@.len() % (width as nat) != 0) ==> (r matches Err(SimulationError::InvalidNativeResult { reason })
                && reason@ == "sampler output shape does not match the sampled modes"@),
            (width > 0 && samples@.len() % (width as nat) == 0 && !all_bits(samples@)) ==> (r matches Err(SimulationError::InvalidNativeResult { reason })
                && reason@ == "sampler returned a non-bit value for a qubit mode"@),
            (width > 0 && samples@.len() % (width as nat) == 0 && all_bits(samples@)) ==> (r matches Ok(s)
                && s.spec_width() == width && s.values() == samples@),
    {
        if width == 0 || samples.len() % width != 0 {
            return Err(SimulationError::InvalidNativeResult {
                reason: String::from_str("sampler output shape does not match the sampled modes"),
            });
        }
        let mut i: usize = 0;
        while i < samples.len()
            invariant
                width > 0,
                samples@.len() % (width as nat) == 0,
                i <= samples@.len(),
                forall|j: int| 0 <= j < i ==> (#[trigger] samples@[j] == 0 || samples@[j] == 1),
            decreases samples@.len() - i,
        {
            if samples[i] != 0 && samples[i] != 1 {
                return Err(SimulationError::InvalidNativeResult {
                    reason: String::from_str("sampler returned a non-bit value for a qubit mode"),
                });
            }
            i = i + 1;
        }
        Ok(FullBitstringSamples { width, samples })
    }

    pub fn width(&self) -> (w: usize)
        ensures
            w == self.spec_width(),
    {
        self.width
    }

    /// Number of shots held.
    pub fn shots(&self) -> (n: usize)
        ensures
            n == self.values().len() / self.spec_width(),
    {
        proof { use_type_invariant(self); }
        self.samples.len() / self.width
    }

    /// The bits of one shot, or `None` past the last shot.
    pub fn shot(&self, shot: usize) -> (r: Option<&[i64]>)
        ensures
            (shot + 1) * self.spec_width() <= self.values().len() ==> (r matches Some(bits)
                && bits@ == self.values().subrange(shot * self.spec_width(), (shot + 1) * self.spec_width())),
            (shot + 1) * self.spec_width() > self.values().len() ==> r is None,
    {
        proof { use_type_invariant(self); }
        let len = self.samples.len();
        let start = match shot.checked_mul(self.width) {
            Some(start) => start,
            None => {
                proof {
                    let w = self.width as int;
                    let k = shot as int;
                    assert(k * w > usize::MAX as int);
                    assert((k + 1) * w > len) by (nonlinear_arith)
                        requires k * w > usize::MAX as int, len <= usize::MAX as int, w > 0;
                }
                return None;
            },
        };
        if start > self.samples.len() || self.samples.len() - start < self.width {
            proof {
                assert((shot + 1) * self.width == start + self.width) by (nonlinear_arith)
                    requires start == shot * self.width;
            }
            return None;
        }
        proof {
            assert((shot + 1) * self.width == start + self.width) by (nonlinear_arith)
                requires start == shot * self.width;
        }
        Some(slice_subrange(self.samples.as_slice(), start, start + self.width))
    }
}

/// The native state sampler, with handles as addresses.
pub trait SamplerApi {
    fn create_sampler(&self, handle: u64, state: u64, modes_to_sample: &Vec<i32>) -> Result<
        u64,
        SimulationError,
    >;

    fn destroy_sampler(&self, sampler: u64) -> Result<(), SimulationError>;

    fn configure_sampler_hyper_samples(&self, handle: u64, sampler: u64, hyper_samples: i32) -> Result<
        (),
        SimulationError,
    >;

    fn configure_sampler_path_seed(&self, handle: u64, sampler: u64, seed: i32) -> Result<
        (),
        SimulationError,
    >;

    fn prepare_sampler(
        &self,
        handle: u64,
        sampler: u64,
        maximum_workspace_bytes: u64,
        workspace: u64,
        stream: u64,
    ) -> Result<(), SimulationError>;

    fn configure_sampler_sample_seed(&self, handle: u64, sampler: u64, seed: i32) -> Result<
        (),
        SimulationError,
    >;

    /// Draws `shots` samples into `output`, shot-major.
    fn sample(
        &self,
        handle: u64,
        sampler: u64,
        shots: i64,
        workspace: u64,
        output: &mut Vec<i64>,
        stream: u64,
    ) -> Result<(), SimulationError>;
}

/// Where a sampler runs: the session, the state it samples, its workspace
/// and stream, and the policy's workspace ceiling.
#[derive(Clone, Copy, Debug)]
pub struct SamplerContext {
    pub handle: u64,
    pub state: u64,
    pub workspace: u64,
    pub stream: u64,
    pub maximum_workspace_bytes: u64,
}

/// One configuration call made on a sampler, with what was handed on.
#[derive(Clone, Copy, Debug, PartialEq, Eq, Structural)]
pub enum SamplerCall {
    HyperSamples { samples: i32 },
    PathSeed { seed: i32 },
    Prepared { maximum_bytes: u64, workspace: u64, stream: u64 },
}

/// The configuration a sampler is prepared with: the request's
/// hyper-samples, its pathfinding seed when it has one, then preparation
/// against the context's workspace ceiling, workspace and stream.
pub open spec fn sampler_configuration(request: SamplingRequest, context: SamplerContext) -> Seq<SamplerCall> {
    seq![SamplerCall::HyperSamples { samples: request.spec_hyper_samples() }] + (match request.spec_path_seed() {
        Some(seed) => seq![SamplerCall::PathSeed { seed }],
        None => Seq::empty(),
    }) + seq![
        SamplerCall::Prepared {
            maximum_bytes: context.maximum_workspace_bytes,
            workspace: context.workspace,
            stream: context.stream,
        },
    ]
}

/// A configured and prepared native sampler over some modes of a state.
pub struct PreparedSampler<'a, A: SamplerApi> {
    api: &'a A,
    handle: u64,
    sampler: Option<u64>,
    mode_count: usize,
    configuration: Ghost<Seq<SamplerCall>>,
    draw: Ghost<(Seq<i64>, Seq<i64>)>,
}

impl<'a, A: SamplerApi> PreparedSampler<'a, A> {
    /// Whether the native sampler is still owned.
    pub closed spec fn is_live(&self) -> bool {
        self.sampler is Some
    }

    /// The number of modes each shot samples.
    pub closed spec fn modes(&self) -> nat {
        self.mode_count as nat
    }

    /// The configuration calls made on the sampler, in order.
    pub closed spec fn configuration_log(&self) -> Seq<SamplerCall> {
        self.configuration@
    }

    /// The buffer handed to the last native draw, as it went in.
    pub closed spec fn handed_buffer(&self) -> Seq<i64> {
        self.draw@.0
    }

    /// The buffer the last native draw wrote, as it came back.
    pub closed spec fn drawn_samples(&self) -> Seq<i64> {
        self.draw@.1
    }

    /// Draws shots into `output` and records the buffer before and after.
    fn native_sample(&mut self, shots: i64, workspace: u64, output: &mut Vec<i64>, stream: u64) -> (r: Result<
        (),
        SimulationError,
    >)
        requires
            old(self).sampler is Some,
        ensures
            final(self).draw@ == (old(output)@, final(output)@),
            final(self).configuration == old(self).configuration,
            final(self).api == old(self).api,
            final(self).handle == old(self).handle,
            final(self).sampler == old(self).sampler,
            final(self).mode_count == old(self).mode_count,
    {
        let ghost handed = output@;
        let r = self.api.sample(self.handle, self.sampler.unwrap(), shots, workspace, output, stream);
        self.draw = Ghost((handed, output@));
        r
    }

    /// Sets the hyper-samples and logs them.
    fn native_hyper_samples(&mut self, samples: i32) -> (r: Result<(), SimulationError>)
        requires
            old(self).sampler is Some,
        ensures
            final(self).configuration@ == old(self).configuration@.push(SamplerCall::HyperSamples { samples }),
            final(self).api == old(self).api,
            final(self).handle == old(self).handle,
            final(self).sampler == old(self).sampler,
            final(self).mode_count == old(self).mode_count,
    {
        self.configuration = Ghost(self.configuration@.push(SamplerCall::HyperSamples { samples }));
        self.api.configure_sampler_hyper_samples(self.handle, self.sampler.unwrap(), samples)
    }

    /// Sets the pathfinding seed and logs it.
    fn native_path_seed(&mut self, seed: i32) -> (r: Result<(), SimulationError>)
        requires
            old(self).sampler is Some,
        ensures
            final(self).configuration@ == old(self).configuration@.push(SamplerCall::PathSeed { seed }),
            final(self).api == old(self).api,
            final(self).handle == old(self).handle,
            final(self).sampler == old(self).sampler,
            final(self).mode_count == old(self).mode_count,
    {
        self.configuration = Ghost(self.configuration@.push(SamplerCall::PathSeed { seed }));
        self.api.configure_sampler_path_seed(self.handle, self.sampler.unwrap(), seed)
    }

    /// Prepares the sampler and logs what it was prepared against.
    fn native_prepare(&mut self, maximum_bytes: u64, workspace: u64, stream: u64) -> (r: Result<(), SimulationError>)
        requires
            old(self).sampler is Some,
        ensures
            final(self).configuration@ == old(self).configuration@.push(
                SamplerCall::Prepared { maximum_bytes, workspace, stream },
            ),
            final(self).api == old(self).api,
            final(self).handle == old(self).handle,
            final(self).sampler == old(self).sampler,
            final(self).mode_count == old(self).mode_count,
    {
        self.configuration = Ghost(self.configuration@.push(SamplerCall::Prepared { maximum_bytes, workspace, stream }));
        self.api.prepare_sampler(self.handle, self.sampler.unwrap(), maximum_bytes, workspace, stream)
    }

    /// Creates a sampler over `modes_to_sample` and configures it: the
    /// request's hyper-samples, its pathfinding seed when given, then
    /// preparation against the workspace ceiling. If configuration fails the
    /// sampler is destroyed again and both failures, if any, are kept.
    pub fn new(
        api: &'a A,
        context: SamplerContext,
        modes_to_sample: &Vec<i32>,
        request: &SamplingRequest,
    ) -> (r: Result<Self, SimulationError>)
        ensures
            r matches Ok(prepared) ==> prepared.is_live() && prepared.modes() == modes_to_sample@.len()
                && prepared.configuration_log() == sampler_configuration(*request, context),
    {
        let sampler = api.create_sampler(context.handle, context.state, modes_to_sample)?;
        let mut prepared = PreparedSampler {
            api,
            handle: context.handle,
            sampler: Some(sampler),
            mode_count: modes_to_sample.len(),
            configuration: Ghost(Seq::empty()),
            draw: Ghost((Seq::empty(), Seq::empty())),
        };
        let preparation = prepared.configure(context, request);
        if let Err(execution) = preparation {
            let cleanup = prepared.close();
            return combine_execution_and_cleanup(Err(execution), cleanup);
        }
        Ok(prepared)
    }

    fn configure(&mut self, context: SamplerContext, request: &SamplingRequest) -> (r: Result<(), SimulationError>)
        requires
            old(self).sampler is Some,
        ensures
            final(self).api == old(self).api,
            final(self).handle == old(self).handle,
            final(self).sampler == old(self).sampler,
            final(self).mode_count == old(self).mode_count,
            r is Ok ==> final(self).configuration@ == old(self).configuration@ + sampler_configuration(
                *request,
                context,
            ),
    {
        let ghost start = self.configuration@;
        self.native_hyper_samples(request.hyper_samples())?;
        if let Some(seed) = request.path_seed() {
            self.native_path_seed(seed)?;
        }
        self.native_prepare(context.maximum_workspace_bytes, context.workspace, context.stream)?;
        proof {
            assert(self.configuration@ =~= start + sampler_configuration(*request, context));
        }
        Ok(())
    }

    /// Draws the request's shots: the shot count must fit the native
    /// integer and the output buffer must fit memory; the sample seed is set
    /// before sampling. On success the shots are exactly the shot-major
    /// buffer the native draw wrote, handed back unchanged; the buffer it was
    /// given holds `shots * modes` zeros.
    pub fn sample(&mut self, request: &SamplingRequest, workspace: u64, stream: u64) -> (r: Result<
        Vec<i64>,
        SimulationError,
    >)
        requires
            old(self).is_live(),
        ensures
            final(self).is_live(),
            final(self).modes() == old(self).modes(),
            final(self).configuration_log() == old(self).configuration_log(),
            r matches Ok(shots) ==> shots@ == final(self).drawn_samples()
                && final(self).handed_buffer() == Seq::new(
                    (request.spec_shots() * old(self).modes()) as nat,
                    |i: int| 0i64,
                ),
            request.spec_shots() > i64::MAX ==> r == Err::<Vec<i64>, SimulationError>(
                SimulationError::ResourceSizeOverflow { resource: "sampler shot count" },
            ),
            request.spec_shots() <= i64::MAX && request.spec_shots() * old(self).modes() > usize::MAX
                ==> r == Err::<Vec<i64>, SimulationError>(
                SimulationError::ResourceSizeOverflow { resource: "sampler output buffer" },
            ),
    {
        let shots = request.shots();
        if shots as u64 > i64::MAX as u64 {
            return Err(SimulationError::ResourceSizeOverflow { resource: "sampler shot count" });
        }
        let native_shots = shots as i64;
        let sample_count = match shots.checked_mul(self.mode_count) {
            Some(count) => count,
            None => {
                return Err(SimulationError::ResourceSizeOverflow { resource: "sampler output buffer" });
            },
        };
        let mut output: Vec<i64> = Vec::new();
        let mut k: usize = 0;
        while k < sample_count
            invariant
                k <= sample_count,
                output@.len() == k,
                forall|i: int| 0 <= i < k ==> output@[i] == 0i64,
            decreases sample_count - k,
        {
            output.push(0);
            k = k + 1;
        }
        proof {
            assert(output@ =~= Seq::new((request.spec_shots() * self.modes()) as nat, |i: int| 0i64));
        }
        let sampler = self.sampler.unwrap();
        self.api.configure_sampler_sample_seed(self.handle, sampler, request.sample_seed())?;
        self.native_sample(native_shots, workspace, &mut output, stream)?;
        Ok(output)
    }

    /// Destroys the sampler if it is still owned; closing twice does nothing.
    pub fn close(&mut self) -> (r: Result<(), SimulationError>)
        ensures
            !final(self).is_live(),
            final(self).modes() == old(self).modes(),
            !old(self).is_live() ==> r is Ok,
    {
        match self.sampler.take() {
            Some(sampler) => self.api.destroy_sampler(sampler),
            None => Ok(()),
        }
    }
}

} // verus!
