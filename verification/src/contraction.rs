//! Native-width tensor network topology and optimizer metadata.
//!
//! A mode is a labeled tensor axis; its extent is its dimension. A binary
//! path selects two positions in the current operand list, removes them and
//! appends their intermediate result. Slicing is supported only as full
//! coverage of internal modes at unit extent.

use vstd::prelude::*;
use vstd::string::*;
use crate::error::SimulationError;

verus! {

fn invalid(reason: &'static str) -> (e: SimulationError)
    ensures
        e == (SimulationError::InvalidContractionConfiguration { reason }),
{
    SimulationError::InvalidContractionConfiguration { reason }
}

/// Narrows a count to the native `int32_t`.
pub fn native_count(count: usize, resource: &'static str) -> (r: Result<i32, SimulationError>)
    ensures
        count <= i32::MAX ==> r == Ok::<i32, SimulationError>(count as i32),
        count > i32::MAX ==> r == Err::<i32, SimulationError>(SimulationError::ResourceSizeOverflow { resource }),
{
    if count <= i32::MAX as usize {
        Ok(count as i32)
    } else {
        Err(SimulationError::ResourceSizeOverflow { resource })
    }
}

/// Tensor axes in original order as native-width labels and extents.
#[derive(Clone, Debug, PartialEq, Eq)]
pub struct NativeTensor {
    pub modes: Vec<i32>,
    pub extents: Vec<i64>,
}

/// Why an axis list cannot be expressed with native-width labels/extents.
pub open spec fn tensor_rejection(axes: Seq<(usize, usize)>) -> Option<SimulationError> {
    if axes.len() > i32::MAX {
        Some(SimulationError::ResourceSizeOverflow { resource: "tensor rank" })
    } else if exists|i: int| 0 <= i < axes.len() && #[trigger] axes[i].0 > i32::MAX {
        Some(SimulationError::InvalidContractionConfiguration { reason: "mode label does not fit i32" })
    } else if exists|i: int| 0 <= i < axes.len() && #[trigger] axes[i].1 > i64::MAX {
        Some(SimulationError::InvalidContractionConfiguration { reason: "mode extent does not fit i64" })
    } else {
        None
    }
}

impl NativeTensor {
    /// Converts `(label, extent)` axes, in order, to native widths.
    pub fn from_indices(axes: &[(usize, usize)]) -> (r: Result<Self, SimulationError>)
        ensures
            match tensor_rejection(axes@) {
                Some(error) => r == Err::<Self, SimulationError>(error),
                None => r matches Ok(t) && t.modes@.len() == axes@.len() && t.extents@.len() == axes@.len()
                    && forall|i: int| 0 <= i < axes@.len() ==>
                        (#[trigger] t.modes@[i]) as int == axes@[i].0 as int && t.extents@[i] as int == axes@[i].1 as int,
            },
    {
        native_count(axes.len(), "tensor rank")?;
        let mut modes: Vec<i32> = Vec::new();
        let mut i: usize = 0;
        while i < axes.len()
            invariant
                axes@.len() <= i32::MAX,
                i <= axes@.len(),
                modes@.len() == i,
                forall|j: int| 0 <= j < i ==> (#[trigger] axes@[j]).0 <= i32::MAX,
                forall|j: int| 0 <= j < i ==> (#[trigger] modes@[j]) as int == axes@[j].0 as int,
            decreases axes@.len() - i,
        {
            let id = axes[i].0;
            if id > i32::MAX as usize {
                assert(axes@[i as int].0 > i32::MAX);
                return Err(invalid("mode label does not fit i32"));
            }
            modes.push(id as i32);
            i = i + 1;
        }
        let mut extents: Vec<i64> = Vec::new();
        let mut i: usize = 0;
        while i < axes.len()
            invariant
                axes@.len() <= i32::MAX,
                i <= axes@.len(),
                extents@.len() == i,
                forall|j: int| 0 <= j < axes@.len() ==> (#[trigger] axes@[j]).0 <= i32::MAX,
                forall|j: int| 0 <= j < i ==> (#[trigger] axes@[j]).1 <= i64::MAX,
                forall|j: int| 0 <= j < i ==> (#[trigger] extents@[j]) as int == axes@[j].1 as int,
            decreases axes@.len() - i,
        {
            let dim = axes[i].1;
            if dim as u64 > i64::MAX as u64 {
                assert(axes@[i as int].1 > i64::MAX);
                return Err(invalid("mode extent does not fit i64"));
            }
            extents.push(dim as i64);
            i = i + 1;
        }
        Ok(NativeTensor { modes, extents })
    }
}

/// A mode label and its extent within each slice.
#[derive(Clone, Copy, Debug, PartialEq, Eq, Structural)]
pub struct SlicedMode {
    pub mode: i32,
    pub extent: i64,
}

/// Owned copies of native optimizer metadata, not a portable contraction plan.
#[derive(Clone, Debug, PartialEq, Eq)]
pub struct NativeMetadata {
    /// Positions in the shrinking operand list; remove both and append the result.
    pub path: Vec<[i32; 2]>,
    pub slicing: Vec<SlicedMode>,
    pub num_slices: i64,
}

/// A pair of distinct positions among `remaining` live operands.
pub open spec fn live_pair(pair: [i32; 2], remaining: int) -> bool {
    &&& pair[0] != pair[1]
    &&& 0 <= pair[0] < remaining
    &&& 0 <= pair[1] < remaining
}

/// A complete binary path over `inputs` operands: `inputs - 1` steps, each
/// naming two distinct positions of the operands still live at that step.
pub open spec fn valid_path(inputs: nat, path: Seq<[i32; 2]>) -> bool {
    &&& inputs >= 2
    &&& path.len() == inputs - 1
    &&& forall|step: int| 0 <= step < path.len() ==> live_pair(#[trigger] path[step], inputs - step)
}

/// Checks a binary contraction path against the number of input tensors.
pub fn validate_path(inputs: usize, path: &[[i32; 2]]) -> (r: Result<(), SimulationError>)
    ensures
        inputs > i32::MAX ==> r == Err::<(), SimulationError>(SimulationError::ResourceSizeOverflow { resource: "input tensor count" }),
        inputs <= i32::MAX && (inputs < 2 || path@.len() != inputs - 1) ==> r == Err::<(), SimulationError>(
            SimulationError::InvalidContractionConfiguration { reason: "a binary path must contain input count minus one pairs" }),
        inputs <= i32::MAX && inputs >= 2 && path@.len() == inputs - 1 && !valid_path(inputs as nat, path@) ==> r == Err::<(), SimulationError>(
            SimulationError::InvalidContractionConfiguration { reason: "path operands must be distinct live positions" }),
        r is Ok <==> inputs <= i32::MAX && valid_path(inputs as nat, path@),
{
    native_count(inputs, "input tensor count")?;
    if inputs < 2 || path.len() != inputs - 1 {
        return Err(invalid("a binary path must contain input count minus one pairs"));
    }
    let mut step: usize = 0;
    while step < path.len()
        invariant
            inputs <= i32::MAX,
            inputs >= 2,
            path@.len() == inputs - 1,
            step <= path@.len(),
            forall|k: int| 0 <= k < step ==> live_pair(#[trigger] path@[k], inputs - k),
        decreases path@.len() - step,
    {
        let remaining = inputs - step;
        let pair = path[step];
        let first = pair[0];
        let second = pair[1];
        if first == second || first < 0 || first as usize >= remaining || second < 0 || second as usize >= remaining {
            assert(!live_pair(path@[step as int], inputs - step));
            return Err(invalid("path operands must be distinct live positions"));
        }
        step = step + 1;
    }
    Ok(())
}

/// Replaces the operands at two distinct positions with their result, which
/// is appended: the larger position is removed first, then the smaller.
pub fn replace_pair<T>(available: &mut Vec<T>, first: usize, second: usize, result: T)
    requires
        first != second,
        first < old(available)@.len(),
        second < old(available)@.len(),
    ensures
        final(available)@ == old(available)@
            .remove(if first >= second { first as int } else { second as int })
            .remove(if first >= second { second as int } else { first as int })
            .push(result),
{
    let high = if first >= second { first } else { second };
    let low = if first >= second { second } else { first };
    available.remove(high);
    available.remove(low);
    available.push(result);
}

/// The chronological path over `inputs` tensors: `[0, 1]`, then each step
/// contracts the next unconsumed input (position 0) with the accumulated
/// result, which the previous step appended at the last position.
pub open spec fn chronological_path(inputs: nat) -> Seq<[i32; 2]> {
    Seq::new((inputs - 1) as nat, |step: int| if step == 0 { [0i32, 1i32] } else { [0i32, (inputs - step - 1) as i32] })
}

/// The chronological control path: zero boundaries first, then gates in
/// circuit order; no slicing.
pub fn chronological(inputs: usize) -> (r: Result<NativeMetadata, SimulationError>)
    ensures
        inputs > i32::MAX ==> r == Err::<NativeMetadata, SimulationError>(
            SimulationError::InvalidContractionConfiguration { reason: "too many circuit tensors" }),
        inputs <= i32::MAX && inputs < 2 ==> r == Err::<NativeMetadata, SimulationError>(
            SimulationError::InvalidContractionConfiguration { reason: "chronological path requires two or more tensors" }),
        2 <= inputs <= i32::MAX ==> (r matches Ok(m) && m.path@ == chronological_path(inputs as nat)
            && m.slicing@.len() == 0 && m.num_slices == 1),
{
    if inputs > i32::MAX as usize {
        return Err(invalid("too many circuit tensors"));
    }
    let count = inputs as i32;
    if count < 2 {
        return Err(invalid("chronological path requires two or more tensors"));
    }
    let mut path: Vec<[i32; 2]> = Vec::new();
    path.push([0, 1]);
    let mut remaining: i32 = count - 1;
    while remaining >= 2
        invariant
            count == inputs,
            2 <= count <= i32::MAX,
            1 <= remaining <= count - 1,
            path@.len() == count - remaining,
            forall|k: int| 0 <= k < path@.len() ==> #[trigger] path@[k] == chronological_path(inputs as nat)[k],
        decreases remaining,
    {
        path.push([0, remaining - 1]);
        remaining = remaining - 1;
    }
    assert(path@ =~= chronological_path(inputs as nat));
    Ok(NativeMetadata { path, slicing: Vec::new(), num_slices: 1 })
}

/// The chronological path is always accepted as a complete binary path.
pub proof fn law_chronological_path_is_valid(inputs: usize)
    requires
        2 <= inputs <= i32::MAX,
    ensures
        valid_path(inputs as nat, chronological_path(inputs as nat)),
{
}

/// The operands live after the first `steps` steps of `path`, by identity:
/// inputs are `0..inputs`, and step `s` appends its result as `inputs + s`
/// after removing its two operands, the larger position first.
pub open spec fn operands_after(inputs: nat, path: Seq<[i32; 2]>, steps: nat) -> Seq<int>
    decreases steps,
{
    if steps == 0 {
        Seq::new(inputs, |i: int| i)
    } else {
        let before = operands_after(inputs, path, (steps - 1) as nat);
        let pair = path[steps - 1];
        let high = if pair[0] >= pair[1] { pair[0] as int } else { pair[1] as int };
        let low = if pair[0] >= pair[1] { pair[1] as int } else { pair[0] as int };
        before.remove(high).remove(low).push(inputs + steps - 1)
    }
}

/// After `steps >= 1` chronological steps the live operands are the inputs
/// not yet consumed, in order, followed by the running result.
proof fn lemma_chronological_operands(inputs: nat, steps: nat)
    requires
        2 <= inputs <= i32::MAX,
        1 <= steps <= inputs - 1,
    ensures
        operands_after(inputs, chronological_path(inputs), steps) =~= Seq::new(
            (inputs - steps) as nat,
            |i: int| if i < inputs - steps - 1 { i + steps + 1 } else { inputs + steps - 1 },
        ),
    decreases steps,
{
    let path = chronological_path(inputs);
    if steps == 1 {
        let start = operands_after(inputs, path, 0);
        assert(start =~= Seq::new(inputs, |i: int| i));
    } else {
        lemma_chronological_operands(inputs, (steps - 1) as nat);
    }
}

/// The chronological path consumes the inputs one at a time into a running
/// result: its first step contracts inputs 0 and 1, every later step `k`
/// contracts input `k + 1` with the result of step `k - 1`, and after the
/// last step only the final result is live.
pub proof fn law_chronological_consumes_inputs_in_order(inputs: usize)
    requires
        2 <= inputs <= i32::MAX,
    ensures
        ({
            let n = inputs as nat;
            let path = chronological_path(n);
            &&& operands_after(n, path, 0)[path[0][0] as int] == 0
            &&& operands_after(n, path, 0)[path[0][1] as int] == 1
            &&& forall|k: int| 1 <= k < n - 1 ==> {
                &&& #[trigger] operands_after(n, path, k as nat)[path[k][0] as int] == k + 1
                &&& operands_after(n, path, k as nat)[path[k][1] as int] == n + k - 1
            }
            &&& operands_after(n, path, (n - 1) as nat) == seq![2 * n - 2]
        }),
{
    let n = inputs as nat;
    let path = chronological_path(n);
    assert(operands_after(n, path, 0) =~= Seq::new(n, |i: int| i));
    assert forall|k: int| 1 <= k < n - 1 implies {
        &&& #[trigger] operands_after(n, path, k as nat)[path[k][0] as int] == k + 1
        &&& operands_after(n, path, k as nat)[path[k][1] as int] == n + k - 1
    } by {
        lemma_chronological_operands(n, k as nat);
    }
    lemma_chronological_operands(n, (n - 1) as nat);
    assert(operands_after(n, path, (n - 1) as nat) =~= seq![2 * n - 2]);
}

/// Rejects a requirement above an optional limit.
pub fn check_limit(required: usize, maximum: Option<usize>) -> (r: Result<(), SimulationError>)
    ensures
        match maximum {
            Some(m) => if required > m {
                r == Err::<(), SimulationError>(SimulationError::WorkspaceLimitExceeded { required: required as u64, maximum: m as u64 })
            } else {
                r is Ok
            },
            None => r is Ok,
        },
{
    if let Some(maximum) = maximum {
        if required > maximum {
            return Err(SimulationError::WorkspaceLimitExceeded { required: required as u64, maximum: maximum as u64 });
        }
    }
    Ok(())
}

/// Byte size of `elements` complex values in a contraction buffer.
pub fn buffer_bytes(elements: usize) -> (r: Result<usize, SimulationError>)
    ensures
        elements * 16 <= usize::MAX ==> r == Ok::<usize, SimulationError>((elements * 16) as usize),
        elements * 16 > usize::MAX ==> r == Err::<usize, SimulationError>(
            SimulationError::ResourceSizeOverflow { resource: "contraction buffer" }),
{
    match elements.checked_mul(16) {
        Some(bytes) => Ok(bytes),
        None => Err(SimulationError::ResourceSizeOverflow { resource: "contraction buffer" }),
    }
}

/// A byte count as the native `int64_t`.
pub fn native_bytes(bytes: usize) -> (r: Result<i64, SimulationError>)
    ensures
        bytes <= i64::MAX ==> r == Ok::<i64, SimulationError>(bytes as i64),
        bytes > i64::MAX ==> r == Err::<i64, SimulationError>(
            SimulationError::ResourceSizeOverflow { resource: "contraction buffer" }),
{
    if bytes as u64 <= i64::MAX as u64 {
        Ok(bytes as i64)
    } else {
        Err(SimulationError::ResourceSizeOverflow { resource: "contraction buffer" })
    }
}

/// The first input whose axes cannot be expressed at native width.
pub open spec fn first_tensor_rejection(inputs: Seq<Seq<(usize, usize)>>) -> Option<SimulationError>
    decreases inputs.len(),
{
    if inputs.len() == 0 {
        None
    } else {
        match first_tensor_rejection(inputs.drop_last()) {
            Some(error) => Some(error),
            None => tensor_rejection(inputs.last()),
        }
    }
}

/// Why a network cannot be given to the native library as a topology, if it
/// cannot: too many inputs, fewer than two, or an input or the output with
/// axes beyond native width.
pub open spec fn topology_rejection(inputs: Seq<Seq<(usize, usize)>>, keep: Seq<(usize, usize)>) -> Option<
    SimulationError,
> {
    if inputs.len() > i32::MAX {
        Some(SimulationError::ResourceSizeOverflow { resource: "input tensor count" })
    } else if inputs.len() < 2 {
        Some(
            SimulationError::InvalidContractionConfiguration {
                reason: "binary path metadata requires at least two input tensors",
            },
        )
    } else if first_tensor_rejection(inputs) is Some {
        first_tensor_rejection(inputs)
    } else {
        tensor_rejection(keep)
    }
}

/// The `(label, extent)` pairs of an axis list as native values.
pub open spec fn native_axes(axes: Seq<(usize, usize)>) -> Seq<(i32, i64)> {
    axes.map_values(|a: (usize, usize)| (a.0 as i32, a.1 as i64))
}

/// Every `(label, extent)` pair of the inputs, input by input.
pub open spec fn all_axes(inputs: Seq<Seq<(usize, usize)>>) -> Seq<(i32, i64)>
    decreases inputs.len(),
{
    if inputs.len() == 0 {
        Seq::empty()
    } else {
        all_axes(inputs.drop_last()) + native_axes(inputs.last())
    }
}

/// The extent of a mode: the one given at its last occurrence.
pub open spec fn mode_dimension(pairs: Seq<(i32, i64)>, mode: i32) -> Option<i64>
    decreases pairs.len(),
{
    if pairs.len() == 0 {
        None
    } else if pairs.last().0 == mode {
        Some(pairs.last().1)
    } else {
        mode_dimension(pairs.drop_last(), mode)
    }
}

/// The network's inputs and output at native width, with every mode's extent.
#[derive(Debug)]
pub struct Topology {
    inputs: Vec<NativeTensor>,
    output: Vec<i32>,
    dimensions: Vec<(i32, i64)>,
}

impl Topology {
    /// The native input tensors.
    pub closed spec fn tensors(&self) -> Seq<NativeTensor> {
        self.inputs@
    }

    /// The output modes, in order.
    pub closed spec fn output_modes(&self) -> Seq<i32> {
        self.output@
    }

    /// Every `(label, extent)` pair of the inputs.
    pub closed spec fn axes(&self) -> Seq<(i32, i64)> {
        self.dimensions@
    }

    /// Two or more inputs, countable at native width.
    pub closed spec fn well_formed(&self) -> bool {
        2 <= self.inputs@.len() <= i32::MAX
    }

    /// Copies the network's inputs and output at native width; it needs two
    /// or more inputs.
    pub fn new(inputs: &Vec<Vec<(usize, usize)>>, keep: &Vec<(usize, usize)>) -> (r: Result<
        Self,
        SimulationError,
    >)
        ensures
            match topology_rejection(inputs@.map_values(|v: Vec<(usize, usize)>| v@), keep@) {
                Some(error) => r == Err::<Self, SimulationError>(error),
                None => r matches Ok(t) && t.well_formed() && t.tensors().len() == inputs@.len() && t.axes() == all_axes(
                    inputs@.map_values(|v: Vec<(usize, usize)>| v@),
                ) && t.output_modes() == native_axes(keep@).map_values(|a: (i32, i64)| a.0),
            },
    {
        let ghost views = inputs@.map_values(|v: Vec<(usize, usize)>| v@);
        let count = native_count(inputs.len(), "input tensor count")?;
        if count < 2 {
            return Err(invalid("binary path metadata requires at least two input tensors"));
        }
        let mut tensors: Vec<NativeTensor> = Vec::new();
        let mut dimensions: Vec<(i32, i64)> = Vec::new();
        let mut k: usize = 0;
        assert(views.subrange(0, 0) =~= Seq::<Seq<(usize, usize)>>::empty());
        while k < inputs.len()
            invariant
                views == inputs@.map_values(|v: Vec<(usize, usize)>| v@),
                2 <= inputs@.len() <= i32::MAX,
                k <= inputs@.len(),
                tensors@.len() == k,
                first_tensor_rejection(views.subrange(0, k as int)) is None,
                dimensions@ == all_axes(views.subrange(0, k as int)),
            decreases inputs@.len() - k,
        {
            let ghost prefix = views.subrange(0, k as int + 1);
            assert(prefix.drop_last() =~= views.subrange(0, k as int));
            assert(prefix.last() == inputs@[k as int]@);
            let tensor = match NativeTensor::from_indices(inputs[k].as_slice()) {
                Ok(tensor) => tensor,
                Err(error) => {
                    proof {
                        lemma_first_rejection_prefix(views, k as int + 1);
                    }
                    return Err(error);
                },
            };
            let mut j: usize = 0;
            let ghost before = dimensions@;
            while j < tensor.modes.len()
                invariant
                    tensor.modes@.len() == inputs@[k as int]@.len(),
                    tensor.extents@.len() == inputs@[k as int]@.len(),
                    forall|i: int| 0 <= i < inputs@[k as int]@.len() ==> (#[trigger] tensor.modes@[i]) as int
                        == inputs@[k as int]@[i].0 as int && tensor.extents@[i] as int
                        == inputs@[k as int]@[i].1 as int,
                    j <= tensor.modes@.len(),
                    dimensions@ == before + native_axes(inputs@[k as int]@).subrange(0, j as int),
                    k < inputs@.len(),
                decreases tensor.modes@.len() - j,
            {
                dimensions.push((tensor.modes[j], tensor.extents[j]));
                assert(native_axes(inputs@[k as int]@).subrange(0, j as int + 1) =~= native_axes(
                    inputs@[k as int]@,
                ).subrange(0, j as int).push((tensor.modes@[j as int], tensor.extents@[j as int])));
                j = j + 1;
            }
            assert(native_axes(inputs@[k as int]@).subrange(0, j as int) =~= native_axes(
                inputs@[k as int]@,
            ));
            tensors.push(tensor);
            k = k + 1;
        }
        assert(views.subrange(0, k as int) =~= views);
        let output = match NativeTensor::from_indices(keep.as_slice()) {
            Ok(tensor) => tensor.modes,
            Err(error) => {
                return Err(error);
            },
        };
        assert(output@ =~= native_axes(keep@).map_values(|a: (i32, i64)| a.0));
        Ok(Topology { inputs: tensors, output, dimensions })
    }

    /// The extent of `mode`, if the network has it.
    pub fn dimension(&self, mode: i32) -> (d: Option<i64>)
        ensures
            d == mode_dimension(self.axes(), mode),
    {
        let mut k: usize = self.dimensions.len();
        assert(self.dimensions@.subrange(0, k as int) =~= self.dimensions@);
        while k > 0
            invariant
                k <= self.dimensions@.len(),
                mode_dimension(self.dimensions@, mode) == mode_dimension(
                    self.dimensions@.subrange(0, k as int),
                    mode,
                ),
            decreases k,
        {
            let pair = self.dimensions[k - 1];
            let ghost prefix = self.dimensions@.subrange(0, k as int);
            assert(prefix.drop_last() =~= self.dimensions@.subrange(0, k as int - 1));
            if pair.0 == mode {
                return Some(pair.1);
            }
            k = k - 1;
        }
        None
    }

    /// Whether `mode` is an output mode.
    fn outputs_mode(&self, mode: i32) -> (b: bool)
        ensures
            b == self.output@.contains(mode),
    {
        let mut i: usize = 0;
        while i < self.output.len()
            invariant
                i <= self.output@.len(),
                forall|j: int| 0 <= j < i ==> self.output@[j] != mode,
            decreases self.output@.len() - i,
        {
            if self.output[i] == mode {
                assert(self.output@[i as int] == mode);
                return true;
            }
            i = i + 1;
        }
        false
    }
}

proof fn lemma_first_rejection_prefix(views: Seq<Seq<(usize, usize)>>, k: int)
    requires
        0 < k <= views.len(),
        first_tensor_rejection(views.subrange(0, k)) is Some,
    ensures
        first_tensor_rejection(views) == first_tensor_rejection(views.subrange(0, k)),
    decreases views.len() - k,
{
    if k < views.len() {
        assert(views.drop_last().subrange(0, k) =~= views.subrange(0, k));
        lemma_first_rejection_prefix(views.drop_last(), k);
    } else {
        assert(views.subrange(0, k) =~= views);
    }
}

/// Why a binary path over `inputs` operands is rejected, if it is.
pub open spec fn path_rejection(inputs: nat, path: Seq<[i32; 2]>) -> Option<SimulationError> {
    if inputs > i32::MAX {
        Some(SimulationError::ResourceSizeOverflow { resource: "input tensor count" })
    } else if inputs < 2 || path.len() != inputs - 1 {
        Some(
            SimulationError::InvalidContractionConfiguration {
                reason: "a binary path must contain input count minus one pairs",
            },
        )
    } else if !valid_path(inputs, path) {
        Some(
            SimulationError::InvalidContractionConfiguration {
                reason: "path operands must be distinct live positions",
            },
        )
    } else {
        None
    }
}

pub open spec fn sliced_modes(slicing: Seq<SlicedMode>) -> Seq<i32> {
    slicing.map_values(|s: SlicedMode| s.mode)
}

/// Reads the sliced modes in order and multiplies their full extents into
/// the slice count: each must be a network mode, appear once, not be an
/// output mode, and be sliced to unit extent.
pub open spec fn slicing_scan(slicing: Seq<SlicedMode>, axes: Seq<(i32, i64)>, output: Seq<i32>) -> Result<
    int,
    SimulationError,
>
    decreases slicing.len(),
{
    if slicing.len() == 0 {
        Ok(1)
    } else {
        match slicing_scan(slicing.drop_last(), axes, output) {
            Err(error) => Err(error),
            Ok(count) => {
                let slice = slicing.last();
                match mode_dimension(axes, slice.mode) {
                    None => Err(
                        SimulationError::InvalidContractionConfiguration {
                            reason: "sliced mode is not in the network",
                        },
                    ),
                    Some(dimension) => if sliced_modes(slicing.drop_last()).contains(slice.mode) {
                        Err(
                            SimulationError::InvalidContractionConfiguration {
                                reason: "sliced modes must be unique",
                            },
                        )
                    } else if output.contains(slice.mode) {
                        Err(
                            SimulationError::InvalidContractionConfiguration {
                                reason: "output slicing is not qualified",
                            },
                        )
                    } else if slice.extent != 1 {
                        Err(
                            SimulationError::InvalidContractionConfiguration {
                                reason: "only internal unit-extent slicing is qualified",
                            },
                        )
                    } else if !(i64::MIN <= count * dimension <= i64::MAX) {
                        Err(SimulationError::ResourceSizeOverflow { resource: "slice count" })
                    } else {
                        Ok(count * dimension)
                    },
                }
            },
        }
    }
}

/// Why optimizer metadata does not fit a topology, if it does not: the path
/// must be complete and binary, and the slicing must cover internal modes at
/// unit extent with the matching slice count.
pub open spec fn metadata_rejection(
    input_count: nat,
    axes: Seq<(i32, i64)>,
    output: Seq<i32>,
    path: Seq<[i32; 2]>,
    slicing: Seq<SlicedMode>,
    num_slices: i64,
) -> Option<SimulationError> {
    match path_rejection(input_count, path) {
        Some(error) => Some(error),
        None => if slicing.len() > i32::MAX {
            Some(SimulationError::ResourceSizeOverflow { resource: "sliced mode count" })
        } else {
            match slicing_scan(slicing, axes, output) {
                Err(error) => Some(error),
                Ok(count) => if num_slices != count {
                    Some(
                        SimulationError::InvalidContractionConfiguration {
                            reason: "slice count does not match full internal slice coverage",
                        },
                    )
                } else {
                    None
                },
            }
        },
    }
}

impl Topology {
    /// Checks metadata against this topology.
    pub fn validate(&self, metadata: &NativeMetadata) -> (r: Result<(), SimulationError>)
        ensures
            match metadata_rejection(
                self.tensors().len(),
                self.axes(),
                self.output_modes(),
                metadata.path@,
                metadata.slicing@,
                metadata.num_slices,
            ) {
                Some(error) => r == Err::<(), SimulationError>(error),
                None => r is Ok,
            },
    {
        validate_path(self.inputs.len(), metadata.path.as_slice())?;
        native_count(metadata.slicing.len(), "sliced mode count")?;
        let mut slices: i64 = 1;
        let mut k: usize = 0;
        assert(metadata.slicing@.subrange(0, 0) =~= Seq::<SlicedMode>::empty());
        while k < metadata.slicing.len()
            invariant
                k <= metadata.slicing@.len(),
                path_rejection(self.tensors().len(), metadata.path@) is None,
                metadata.slicing@.len() <= i32::MAX,
                slicing_scan(metadata.slicing@.subrange(0, k as int), self.axes(), self.output_modes())
                    == Ok::<int, SimulationError>(slices as int),
            decreases metadata.slicing@.len() - k,
        {
            let slice = metadata.slicing[k];
            let ghost prefix = metadata.slicing@.subrange(0, k as int + 1);
            assert(prefix.drop_last() =~= metadata.slicing@.subrange(0, k as int));
            assert(prefix.last() == slice);
            let failure: Option<SimulationError> = match self.dimension(slice.mode) {
                None => Some(invalid("sliced mode is not in the network")),
                Some(dimension) => {
                    let mut repeated = false;
                    let mut j: usize = 0;
                    while j < k
                        invariant
                            j <= k,
                            k < metadata.slicing@.len(),
                            repeated <==> sliced_modes(metadata.slicing@.subrange(0, j as int)).contains(
                                slice.mode,
                            ),
                        decreases k - j,
                    {
                        let ghost before = metadata.slicing@.subrange(0, j as int);
                        let ghost after = metadata.slicing@.subrange(0, j as int + 1);
                        assert(sliced_modes(after) =~= sliced_modes(before).push(metadata.slicing@[j as int].mode));
                        proof {
                            lemma_contains_push(sliced_modes(before), metadata.slicing@[j as int].mode, slice.mode);
                        }
                        if metadata.slicing[j].mode == slice.mode {
                            repeated = true;
                        }
                        j = j + 1;
                    }
                    if repeated {
                        Some(invalid("sliced modes must be unique"))
                    } else if self.outputs_mode(slice.mode) {
                        Some(invalid("output slicing is not qualified"))
                    } else if slice.extent != 1 {
                        Some(invalid("only internal unit-extent slicing is qualified"))
                    } else {
                        match slices.checked_mul(dimension) {
                            Some(product) => {
                                slices = product;
                                None
                            },
                            None => Some(SimulationError::ResourceSizeOverflow { resource: "slice count" }),
                        }
                    }
                },
            };
            if let Some(error) = failure {
                proof {
                    lemma_slicing_scan_stops(metadata.slicing@, k as int + 1, self.axes(), self.output_modes());
                }
                return Err(error);
            }
            k = k + 1;
        }
        assert(metadata.slicing@.subrange(0, k as int) =~= metadata.slicing@);
        if metadata.num_slices != slices {
            return Err(invalid("slice count does not match full internal slice coverage"));
        }
        Ok(())
    }
}

proof fn lemma_contains_push<T>(s: Seq<T>, x: T, m: T)
    ensures
        s.push(x).contains(m) <==> (s.contains(m) || x == m),
{
    if s.push(x).contains(m) {
        let i = choose|i: int| 0 <= i < s.push(x).len() && s.push(x)[i] == m;
        if i < s.len() {
            assert(s[i] == m);
        }
    }
    if s.contains(m) {
        let i = choose|i: int| 0 <= i < s.len() && s[i] == m;
        assert(s.push(x)[i] == m);
    }
    if x == m {
        assert(s.push(x)[s.len() as int] == m);
    }
}

proof fn lemma_slicing_scan_stops(slicing: Seq<SlicedMode>, k: int, axes: Seq<(i32, i64)>, output: Seq<i32>)
    requires
        0 < k <= slicing.len(),
        slicing_scan(slicing.subrange(0, k), axes, output) is Err,
    ensures
        slicing_scan(slicing, axes, output) == slicing_scan(slicing.subrange(0, k), axes, output),
    decreases slicing.len() - k,
{
    if k < slicing.len() {
        assert(slicing.drop_last().subrange(0, k) =~= slicing.subrange(0, k));
        lemma_slicing_scan_stops(slicing.drop_last(), k, axes, output);
    } else {
        assert(slicing.subrange(0, k) =~= slicing);
    }
}

/// One search control of the native optimizer.
#[derive(Clone, Copy, Debug, PartialEq, Eq, Structural)]
pub enum OptimizerSetting {
    HyperSamples,
    Threads,
    Seed,
    ReconfigurationIterations,
    DisableRankSimplification,
    DisableSlicing,
}

/// Explicit search controls; unlisted options keep the library defaults.
#[derive(Clone, Copy, Debug, PartialEq, Eq, Structural)]
pub struct OptimizerSettings {
    /// Optimizer workspace budget in bytes; neither an allocation nor total
    /// device memory.
    pub workspace_constraint: u64,
    pub hyper_samples: i32,
    pub threads: i32,
    pub seed: i32,
    pub reconfiguration_iterations: i32,
    pub disable_rank_simplification: bool,
    pub disable_slicing: bool,
}

/// Usable search controls: a positive budget and thread count, and
/// nonnegative hyper-samples, seed and reconfiguration iterations.
pub open spec fn settings_valid(s: OptimizerSettings) -> bool {
    &&& s.workspace_constraint != 0
    &&& s.hyper_samples >= 0
    &&& s.threads > 0
    &&& s.seed >= 0
    &&& s.reconfiguration_iterations >= 0
}

impl OptimizerSettings {
    /// The six native attributes in the order they are set, with the flags
    /// as 0 or 1.
    pub fn attributes(self) -> (r: Result<[(OptimizerSetting, i32); 6], SimulationError>)
        ensures
            !settings_valid(self) ==> r == Err::<[(OptimizerSetting, i32); 6], SimulationError>(
                SimulationError::InvalidContractionConfiguration { reason: "invalid optimizer settings" },
            ),
            settings_valid(self) ==> r == Ok::<[(OptimizerSetting, i32); 6], SimulationError>(
                [
                    (OptimizerSetting::HyperSamples, self.hyper_samples),
                    (OptimizerSetting::Threads, self.threads),
                    (OptimizerSetting::Seed, self.seed),
                    (OptimizerSetting::ReconfigurationIterations, self.reconfiguration_iterations),
                    (
                        OptimizerSetting::DisableRankSimplification,
                        if self.disable_rank_simplification { 1i32 } else { 0i32 },
                    ),
                    (OptimizerSetting::DisableSlicing, if self.disable_slicing { 1i32 } else { 0i32 }),
                ],
            ),
    {
        if self.workspace_constraint == 0 || self.hyper_samples < 0 || self.threads <= 0 || self.seed < 0
            || self.reconfiguration_iterations < 0 {
            return Err(invalid("invalid optimizer settings"));
        }
        let rank: i32 = if self.disable_rank_simplification { 1 } else { 0 };
        let slicing: i32 = if self.disable_slicing { 1 } else { 0 };
        Ok([
            (OptimizerSetting::HyperSamples, self.hyper_samples),
            (OptimizerSetting::Threads, self.threads),
            (OptimizerSetting::Seed, self.seed),
            (OptimizerSetting::ReconfigurationIterations, self.reconfiguration_iterations),
            (OptimizerSetting::DisableRankSimplification, rank),
            (OptimizerSetting::DisableSlicing, slicing),
        ])
    }
}

/// Where the optimizer's workspace budget came from.
#[derive(Clone, Copy, Debug, PartialEq, Eq, Structural)]
pub enum WorkspaceBudgetSource {
    Explicit,
    Automatic,
}

/// The failure for an explicit zero budget.
pub open spec fn zero_budget_text() -> Seq<char> {
    "workspace_bytes must be positive, or None for automatic budgeting; it is a path-search device-workspace budget in bytes, not an allocation or a total-memory limit"@
}

/// The failure for an automatic budget of zero.
pub open spec fn empty_automatic_budget_text() -> Seq<char> {
    "automatic workspace budget (half of free device memory) is zero; free device memory or set a positive workspace_bytes explicitly; this path-search budget does not reserve execution memory"@
}

/// The optimizer budget an explicit request gives, or `None` when the budget
/// is automatic and depends on the device's memory.
pub fn explicit_budget(requested: Option<u64>) -> (r: Option<Result<(u64, WorkspaceBudgetSource), SimulationError>>)
    ensures
        requested is None ==> r is None,
        requested == Some(0u64) ==> (r matches Some(Err(SimulationError::InvalidContractionConfiguration { reason }))
            && reason@ == zero_budget_text()),
        requested is Some && requested->0 > 0 ==> r == Some(Ok::<(u64, WorkspaceBudgetSource), SimulationError>(
            (requested->0, WorkspaceBudgetSource::Explicit),
        )),
{
    match requested {
        Some(0) => Some(Err(invalid(
            "workspace_bytes must be positive, or None for automatic budgeting; it is a path-search device-workspace budget in bytes, not an allocation or a total-memory limit",
        ))),
        Some(bytes) => Some(Ok((bytes, WorkspaceBudgetSource::Explicit))),
        None => None,
    }
}

/// The automatic optimizer budget from the device's memory: half the free
/// memory, which must not exceed the total and must not halve to zero.
pub fn automatic_budget(free: usize, total: usize) -> (r: Result<(u64, WorkspaceBudgetSource), SimulationError>)
    ensures
        free > total ==> (r matches Err(SimulationError::InvalidNativeResult { reason })
            && reason@ == "free device memory exceeds total device memory"@),
        free <= total && free / 2 == 0 ==> (r matches Err(SimulationError::InvalidContractionConfiguration { reason })
            && reason@ == empty_automatic_budget_text()),
        free <= total && free / 2 > 0 ==> r == Ok::<(u64, WorkspaceBudgetSource), SimulationError>(
            ((free / 2) as u64, WorkspaceBudgetSource::Automatic),
        ),
{
    if free > total {
        return Err(SimulationError::InvalidNativeResult {
            reason: String::from_str("free device memory exceeds total device memory"),
        });
    }
    let bytes = (free / 2) as u64;
    if bytes == 0 {
        return Err(invalid(
            "automatic workspace budget (half of free device memory) is zero; free device memory or set a positive workspace_bytes explicitly; this path-search budget does not reserve execution memory",
        ));
    }
    Ok((bytes, WorkspaceBudgetSource::Automatic))
}

/// The number of distinct values of a sequence.
pub open spec fn distinct_count(values: Seq<i32>) -> nat
    decreases values.len(),
{
    if values.len() == 0 {
        0
    } else {
        distinct_count(values.drop_last()) + if values.drop_last().contains(values.last()) {
            0nat
        } else {
            1nat
        }
    }
}

pub open spec fn labels(axes: Seq<(i32, i64)>) -> Seq<i32> {
    axes.map_values(|a: (i32, i64)| a.0)
}

impl Topology {
    /// The number of distinct modes of the network.
    pub fn mode_count(&self) -> (n: usize)
        ensures
            n == distinct_count(labels(self.axes())),
    {
        let ghost all = labels(self.dimensions@);
        let mut n: usize = 0;
        let mut i: usize = 0;
        assert(all.subrange(0, 0) =~= Seq::<i32>::empty());
        while i < self.dimensions.len()
            invariant
                all == labels(self.dimensions@),
                i <= self.dimensions@.len(),
                n == distinct_count(all.subrange(0, i as int)),
                n <= i,
            decreases self.dimensions@.len() - i,
        {
            let label = self.dimensions[i].0;
            let mut seen = false;
            let mut j: usize = 0;
            while j < i
                invariant
                    all == labels(self.dimensions@),
                    j <= i,
                    i < self.dimensions@.len(),
                    label == all[i as int],
                    seen <==> all.subrange(0, j as int).contains(label),
                decreases i - j,
            {
                proof {
                    assert(all.subrange(0, j as int + 1) =~= all.subrange(0, j as int).push(all[j as int]));
                    lemma_contains_push(all.subrange(0, j as int), all[j as int], label);
                }
                if self.dimensions[j].0 == label {
                    seen = true;
                }
                j = j + 1;
            }
            let ghost prefix = all.subrange(0, i as int + 1);
            assert(prefix.drop_last() =~= all.subrange(0, i as int));
            if !seen {
                n = n + 1;
            }
            i = i + 1;
        }
        assert(all.subrange(0, i as int) =~= all);
        n
    }

    /// Whether the network has `mode`.
    pub fn knows_mode(&self, mode: i32) -> (b: bool)
        ensures
            b == (mode_dimension(self.axes(), mode) is Some),
    {
        self.dimension(mode).is_some()
    }

    /// The number of input tensors.
    pub fn input_count(&self) -> (n: usize)
        ensures
            n == self.tensors().len(),
            self.well_formed() ==> 2 <= n <= i32::MAX,
    {
        self.inputs.len()
    }

    /// The input tensor at `index`.
    pub fn input(&self, index: usize) -> (t: &NativeTensor)
        requires
            index < self.tensors().len(),
        ensures
            *t == self.tensors()[index as int],
    {
        &self.inputs[index]
    }

    /// The output modes.
    pub fn output(&self) -> (modes: &Vec<i32>)
        ensures
            modes@ == self.output_modes(),
    {
        &self.output
    }
}

} // verus!
