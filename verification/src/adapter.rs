//! Conversion between native binary paths and portable pairwise plans, the
//! workspace budget of a path search, and planning and preparation over the
//! native resource owners.

use vstd::prelude::*;
use vstd::string::*;
use crate::contraction::{
    all_axes, live_pair, metadata_rejection, native_axes, topology_rejection, valid_path, NativeMetadata, Topology,
};
use crate::error::{combine_execution_and_cleanup, SimulationError};
use crate::contraction::{
    automatic_budget, explicit_budget, settings_valid, OptimizerSettings, WorkspaceBudgetSource,
};
use crate::execution::{
    initial_report, ContractionExecutionApi, CuTensorNetExecutableContraction, ExecutionLimits,
    MemoryWorkspaceApi, PreparationFailure, ResourceReport, scratch_within,
};
use crate::network::{ContractionApi, ContractionResources, OptimizerEstimate};
use crate::session::{SessionApi, SessionResources};

verus! {

/// An operand of a plan step: an input tensor, or the result of an earlier
/// step.
#[derive(Clone, Copy, Debug, PartialEq, Eq, Structural)]
pub enum Operand {
    Input(usize),
    Result(usize),
}

/// One step of a portable plan: the operands it contracts and the
/// `(label, extent)` axes of its result, in order.
#[derive(Clone, Debug)]
pub struct PlanStep {
    pub operands: Vec<Operand>,
    pub result: Vec<(usize, usize)>,
}

/// The axis lists of the inputs as values.
pub open spec fn axis_views(inputs: Seq<Vec<(usize, usize)>>) -> Seq<Seq<(usize, usize)>> {
    inputs.map_values(|v: Vec<(usize, usize)>| v@)
}

/// The operand lists of plan steps as values.
pub open spec fn operand_views(steps: Seq<PlanStep>) -> Seq<Seq<Operand>> {
    steps.map_values(|s: PlanStep| s.operands@)
}

/// A topology failure reported as a missing capability.
pub open spec fn unsupported(error: SimulationError) -> SimulationError {
    match error {
        SimulationError::InvalidContractionConfiguration { reason } => SimulationError::UnsupportedContraction {
            reason,
        },
        other => other,
    }
}

/// Builds the native topology of a network; a network the native library
/// cannot take is an unsupported capability rather than a configuration
/// error, except where it overflows.
pub fn supported_topology(inputs: &Vec<Vec<(usize, usize)>>, keep: &Vec<(usize, usize)>) -> (r: Result<
    Topology,
    SimulationError,
>)
    ensures
        match topology_rejection(axis_views(inputs@), keep@) {
            Some(error) => r == Err::<Topology, SimulationError>(unsupported(error)),
            None => r matches Ok(t) && t.well_formed() && t.tensors().len() == inputs@.len() && t.axes()
                == all_axes(axis_views(inputs@)) && t.output_modes() == native_axes(keep@).map_values(
                |a: (i32, i64)| a.0,
            ),
        },
{
    match Topology::new(inputs, keep) {
        Ok(topology) => Ok(topology),
        Err(SimulationError::InvalidContractionConfiguration { reason }) => Err(
            SimulationError::UnsupportedContraction { reason },
        ),
        Err(other) => Err(other),
    }
}

/// The operand list after contracting the operands at two distinct
/// positions: the larger position is removed first, then the smaller, and
/// the result is appended.
pub open spec fn replaced<T>(available: Seq<T>, first: int, second: int, result: T) -> Seq<T> {
    available.remove(if first >= second { first } else { second }).remove(
        if first >= second { second } else { first },
    ).push(result)
}

/// The first position of `x` in `s`.
pub open spec fn first_position(s: Seq<Operand>, x: Operand) -> Option<nat>
    decreases s.len(),
{
    if s.len() == 0 {
        None
    } else if s[0] == x {
        Some(0)
    } else {
        match first_position(s.drop_first(), x) {
            Some(p) => Some(p + 1),
            None => None,
        }
    }
}

/// The input operands `0..count`, in order.
pub open spec fn input_operands(count: nat) -> Seq<Operand> {
    Seq::new(count, |i: int| Operand::Input(i as usize))
}

/// Every step contracts exactly two operands.
pub open spec fn pairwise(steps: Seq<Seq<Operand>>) -> bool {
    forall|k: int| 0 <= k < steps.len() ==> (#[trigger] steps[k]).len() == 2
}

/// The native positions of pairwise steps over the live operand list
/// `available`, the result of step `next` being appended after each step;
/// `None` when an operand is not live or a step names one operand twice.
pub open spec fn native_positions(available: Seq<Operand>, steps: Seq<Seq<Operand>>, next: nat) -> Option<
    Seq<(nat, nat)>,
>
    decreases steps.len(),
{
    if steps.len() == 0 {
        Some(Seq::empty())
    } else {
        match (first_position(available, steps[0][0]), first_position(available, steps[0][1])) {
            (Some(a), Some(b)) => if a == b {
                None
            } else {
                match native_positions(
                    replaced(available, a as int, b as int, Operand::Result(next as usize)),
                    steps.drop_first(),
                    next + 1,
                ) {
                    Some(rest) => Some(seq![(a, b)] + rest),
                    None => None,
                }
            },
            _ => None,
        }
    }
}

/// Positions as a native path.
pub open spec fn native_pairs(positions: Seq<(nat, nat)>) -> Seq<[i32; 2]> {
    positions.map_values(|p: (nat, nat)| [p.0 as i32, p.1 as i32])
}

proof fn lemma_first_position_found(s: Seq<Operand>, x: Operand, j: int)
    requires
        0 <= j < s.len(),
        s[j] == x,
        forall|m: int| 0 <= m < j ==> s[m] != x,
    ensures
        first_position(s, x) == Some(j as nat),
    decreases j,
{
    if j > 0 {
        lemma_first_position_found(s.drop_first(), x, j - 1);
    }
}

proof fn lemma_first_position_absent(s: Seq<Operand>, x: Operand)
    requires
        forall|m: int| 0 <= m < s.len() ==> s[m] != x,
    ensures
        first_position(s, x) is None,
    decreases s.len(),
{
    if s.len() > 0 {
        lemma_first_position_absent(s.drop_first(), x);
    }
}

proof fn lemma_first_position_bound(s: Seq<Operand>, x: Operand)
    ensures
        first_position(s, x) matches Some(p) ==> p < s.len() && s[p as int] == x,
    decreases s.len(),
{
    if s.len() > 0 {
        lemma_first_position_bound(s.drop_first(), x);
    }
}

/// The first position of `x` among the live operands.
fn find_operand(available: &Vec<Operand>, x: Operand) -> (p: Option<usize>)
    ensures
        match first_position(available@, x) {
            Some(q) => p == Some(q as usize),
            None => p is None,
        },
{
    let mut j: usize = 0;
    while j < available.len()
        invariant
            j <= available@.len(),
            forall|m: int| 0 <= m < j ==> available@[m] != x,
        decreases available@.len() - j,
    {
        if available[j] == x {
            proof { lemma_first_position_found(available@, x, j as int); }
            return Some(j);
        }
        j = j + 1;
    }
    proof { lemma_first_position_absent(available@, x); }
    None
}

/// Converts a pairwise plan over a supported topology into a native path:
/// each step names the positions of its operands in the shrinking operand
/// list. Plans are checked in full before they reach this point; an operand
/// that is not live is still refused as an invalid plan.
#[verifier::loop_isolation(false)]
pub fn to_native_metadata(
    inputs: &Vec<Vec<(usize, usize)>>,
    keep: &Vec<(usize, usize)>,
    steps: &Vec<PlanStep>,
) -> (r: Result<NativeMetadata, SimulationError>)
    ensures
        match topology_rejection(axis_views(inputs@), keep@) {
            Some(error) => r == Err::<NativeMetadata, SimulationError>(unsupported(error)),
            None => if !pairwise(operand_views(steps@)) {
                r == Err::<NativeMetadata, SimulationError>(
                    SimulationError::UnsupportedContraction {
                        reason: "native paths require pairwise contraction steps",
                    },
                )
            } else {
                match native_positions(input_operands(inputs@.len()), operand_views(steps@), 0) {
                    None => r matches Err(SimulationError::InvalidContractionPlan { .. }),
                    Some(positions) => r matches Ok(metadata) && metadata.path@ == native_pairs(positions)
                        && metadata.slicing@.len() == 0 && metadata.num_slices == 1,
                }
            },
        },
{
    supported_topology(inputs, keep)?;
    let ghost ops = operand_views(steps@);
    let mut k: usize = 0;
    while k < steps.len()
        invariant
            k <= steps@.len(),
            ops == operand_views(steps@),
            forall|m: int| 0 <= m < k ==> (#[trigger] ops[m]).len() == 2,
        decreases steps@.len() - k,
    {
        if steps[k].operands.len() != 2 {
            assert(ops[k as int].len() != 2);
            return Err(
                SimulationError::UnsupportedContraction {
                    reason: "native paths require pairwise contraction steps",
                },
            );
        }
        k = k + 1;
    }
    let count = inputs.len();
    let mut available: Vec<Operand> = Vec::new();
    let mut i: usize = 0;
    while i < count
        invariant
            i <= count,
            count == inputs@.len(),
            available@ =~= input_operands(i as nat),
        decreases count - i,
    {
        available.push(Operand::Input(i));
        i = i + 1;
    }
    let ghost total = ops.len();
    let mut path: Vec<[i32; 2]> = Vec::new();
    let ghost mut done: Seq<(nat, nat)> = Seq::empty();
    let mut k: usize = 0;
    assert(ops.subrange(0, total as int) =~= ops);
    while k < steps.len()
        invariant
            k <= steps@.len(),
            total == steps@.len(),
            ops == operand_views(steps@),
            pairwise(ops),
            2 <= count <= i32::MAX,
            available@.len() <= count,
            path@ == native_pairs(done),
            native_positions(input_operands(count as nat), ops, 0) == match native_positions(
                available@,
                ops.subrange(k as int, total as int),
                k as nat,
            ) {
                Some(rest) => Some(done + rest),
                None => None::<Seq<(nat, nat)>>,
            },
        decreases steps@.len() - k,
    {
        let ghost suffix = ops.subrange(k as int, total as int);
        assert(suffix[0] == ops[k as int]);
        assert(suffix.drop_first() =~= ops.subrange(k as int + 1, total as int));
        let step = &steps[k];
        assert(step.operands@ == ops[k as int]);
        let first = find_operand(&available, step.operands[0]);
        let second = find_operand(&available, step.operands[1]);
        proof {
            lemma_first_position_bound(available@, ops[k as int][0]);
            lemma_first_position_bound(available@, ops[k as int][1]);
        }
        let (a, b) = match (first, second) {
            (Some(a), Some(b)) => (a, b),
            _ => {
                return Err(
                    SimulationError::InvalidContractionPlan {
                        reason: String::from_str("plan operands must be live and contracted once"),
                    },
                );
            },
        };
        if a == b {
            return Err(
                SimulationError::InvalidContractionPlan {
                    reason: String::from_str("plan operands must be live and contracted once"),
                },
            );
        }
        path.push([a as i32, b as i32]);
        proof {
            assert(native_pairs(done.push((a as nat, b as nat))) =~= native_pairs(done).push(
                [a as i32, b as i32],
            ));
        }
        let ghost before = available@;
        crate::contraction::replace_pair(&mut available, a, b, Operand::Result(k));
        assert(available@ == replaced(before, a as int, b as int, Operand::Result(k)));
        proof {
            match native_positions(available@, ops.subrange(k as int + 1, total as int), k as nat + 1) {
                Some(rest) => {
                    assert(done + (seq![(a as nat, b as nat)] + rest) =~= done.push((a as nat, b as nat)) + rest);
                },
                None => {},
            }
            done = done.push((a as nat, b as nat));
        }
        k = k + 1;
    }
    assert(ops.subrange(k as int, total as int) =~= Seq::<Seq<Operand>>::empty());
    assert(done + Seq::<(nat, nat)>::empty() =~= done);
    Ok(NativeMetadata { path, slicing: Vec::new(), num_slices: 1 })
}

/// Every input axis, input by input.
pub open spec fn flat_axes(inputs: Seq<Seq<(usize, usize)>>) -> Seq<(usize, usize)>
    decreases inputs.len(),
{
    if inputs.len() == 0 {
        Seq::empty()
    } else {
        flat_axes(inputs.drop_last()) + inputs.last()
    }
}

/// The input axis a native mode label names: the last axis with that label.
pub open spec fn axis_of(flat: Seq<(usize, usize)>, mode: i32) -> Option<(usize, usize)>
    decreases flat.len(),
{
    if flat.len() == 0 {
        None
    } else if flat.last().0 as int == mode as int {
        Some(flat.last())
    } else {
        axis_of(flat.drop_last(), mode)
    }
}

pub open spec fn unknown_mode_text() -> Seq<char> {
    "native intermediate contains an unknown mode"@
}

pub open spec fn duplicate_mode_text() -> Seq<char> {
    "native intermediate contains a duplicate mode"@
}

pub open spec fn absent_mode_text() -> Seq<char> {
    "native intermediate contains modes absent from its operands"@
}

pub open spec fn final_modes_text() -> Seq<char> {
    "native final modes do not match the query output"@
}

pub open spec fn intermediate_count_text() -> Seq<char> {
    "native intermediate count does not match the path"@
}

/// The axes named by a native intermediate's modes, in mode order, after
/// those already `found`; a mode that names no input axis, or an axis named
/// twice, is refused with its reason.
pub open spec fn intermediate_axes(flat: Seq<(usize, usize)>, modes: Seq<i32>, found: Seq<(usize, usize)>) -> Result<
    Seq<(usize, usize)>,
    Seq<char>,
>
    decreases modes.len(),
{
    if modes.len() == 0 {
        Ok(found)
    } else {
        match axis_of(flat, modes[0]) {
            None => Err(unknown_mode_text()),
            Some(axis) => if found.contains(axis) {
                Err(duplicate_mode_text())
            } else {
                intermediate_axes(flat, modes.drop_first(), found.push(axis))
            },
        }
    }
}

/// `s` without any occurrence of `x`.
pub open spec fn without(s: Seq<(usize, usize)>, x: (usize, usize)) -> Seq<(usize, usize)>
    decreases s.len(),
{
    if s.len() == 0 {
        s
    } else if s.last() == x {
        without(s.drop_last(), x)
    } else {
        without(s.drop_last(), x).push(s.last())
    }
}

/// Walks the operands' axes in order, keeping each axis still wanted and
/// crossing it off: the kept axes, and the wanted axes never met.
pub open spec fn pick(candidates: Seq<(usize, usize)>, wanted: Seq<(usize, usize)>) -> (
    Seq<(usize, usize)>,
    Seq<(usize, usize)>,
)
    decreases candidates.len(),
{
    if candidates.len() == 0 {
        (Seq::empty(), wanted)
    } else if wanted.contains(candidates[0]) {
        let rest = pick(candidates.drop_first(), without(wanted, candidates[0]));
        (seq![candidates[0]] + rest.0, rest.1)
    } else {
        pick(candidates.drop_first(), wanted)
    }
}

/// Every axis of `a` is in `b`.
pub open spec fn covers(a: Seq<(usize, usize)>, b: Seq<(usize, usize)>) -> bool {
    forall|i: int| 0 <= i < a.len() ==> b.contains(#[trigger] a[i])
}

/// `a` and `b` hold the same axes.
pub open spec fn same_axes(a: Seq<(usize, usize)>, b: Seq<(usize, usize)>) -> bool {
    covers(a, b) && covers(b, a)
}

/// The result axes of one step over the live operands `available`, or why
/// the native intermediate is refused: its modes must name distinct input
/// axes, all found among the two operands' axes; the kept axes follow
/// operand order, except that the last step (`last`) must keep exactly the
/// output axes and takes them in the output's order.
pub open spec fn step_outcome(
    available: Seq<(Operand, Seq<(usize, usize)>)>,
    pair: [i32; 2],
    modes: Seq<i32>,
    last: bool,
    flat: Seq<(usize, usize)>,
    keep: Seq<(usize, usize)>,
) -> Result<Seq<(usize, usize)>, Seq<char>> {
    match intermediate_axes(flat, modes, Seq::empty()) {
        Err(reason) => Err(reason),
        Ok(wanted) => {
            let picked = pick(available[pair[0] as int].1 + available[pair[1] as int].1, wanted);
            if picked.1.len() != 0 {
                Err(absent_mode_text())
            } else if last && !same_axes(picked.0, keep) {
                Err(final_modes_text())
            } else if last {
                Ok(keep)
            } else {
                Ok(picked.0)
            }
        },
    }
}

/// The portable steps of a validated native path over the live operands
/// `available` (each with its axes): each step contracts the operands at its
/// two positions into the axes `step_outcome` gives, and the result of step
/// `next` is appended in their place.
pub open spec fn plan_steps(
    available: Seq<(Operand, Seq<(usize, usize)>)>,
    path: Seq<[i32; 2]>,
    modes: Seq<Seq<i32>>,
    next: nat,
    flat: Seq<(usize, usize)>,
    keep: Seq<(usize, usize)>,
) -> Result<Seq<(Seq<Operand>, Seq<(usize, usize)>)>, Seq<char>>
    decreases path.len(),
{
    if path.len() == 0 {
        Ok(Seq::empty())
    } else {
        let first = path[0][0] as int;
        let second = path[0][1] as int;
        match step_outcome(available, path[0], modes[0], path.len() == 1, flat, keep) {
            Err(reason) => Err(reason),
            Ok(result) => {
                let step = (seq![available[first].0, available[second].0], result);
                match plan_steps(
                    replaced(available, first, second, (Operand::Result(next as usize), result)),
                    path.drop_first(),
                    modes.drop_first(),
                    next + 1,
                    flat,
                    keep,
                ) {
                    Ok(rest) => Ok(seq![step] + rest),
                    Err(reason) => Err(reason),
                }
            },
        }
    }
}

/// The inputs as live operands with their axes.
pub open spec fn initial_available(inputs: Seq<Seq<(usize, usize)>>) -> Seq<(Operand, Seq<(usize, usize)>)> {
    Seq::new(inputs.len(), |i: int| (Operand::Input(i as usize), inputs[i]))
}

/// Plan steps as values.
pub open spec fn step_views(steps: Seq<PlanStep>) -> Seq<(Seq<Operand>, Seq<(usize, usize)>)> {
    steps.map_values(|s: PlanStep| (s.operands@, s.result@))
}

/// Intermediate mode lists as values.
pub open spec fn mode_views(modes: Seq<Vec<i32>>) -> Seq<Seq<i32>> {
    modes.map_values(|m: Vec<i32>| m@)
}

/// Live operands with their axes as values.
pub open spec fn available_view(available: Seq<(Operand, Vec<(usize, usize)>)>) -> Seq<
    (Operand, Seq<(usize, usize)>),
> {
    available.map_values(|e: (Operand, Vec<(usize, usize)>)| (e.0, e.1@))
}

fn native_result(reason: &str) -> (e: SimulationError)
    ensures
        e matches SimulationError::InvalidNativeResult { reason: text } && text@ == reason@,
{
    SimulationError::InvalidNativeResult { reason: String::from_str(reason) }
}

/// A copy of an axis list.
fn copy_axes(axes: &Vec<(usize, usize)>) -> (copy: Vec<(usize, usize)>)
    ensures
        copy@ == axes@,
{
    let mut copy: Vec<(usize, usize)> = Vec::new();
    let mut i: usize = 0;
    while i < axes.len()
        invariant
            i <= axes@.len(),
            copy@ =~= axes@.subrange(0, i as int),
        decreases axes@.len() - i,
    {
        copy.push(axes[i]);
        i = i + 1;
    }
    assert(axes@.subrange(0, i as int) =~= axes@);
    copy
}

/// Whether `axis` is in `axes`.
fn contains_axis(axes: &Vec<(usize, usize)>, axis: (usize, usize)) -> (found: bool)
    ensures
        found == axes@.contains(axis),
{
    let mut j: usize = 0;
    while j < axes.len()
        invariant
            j <= axes@.len(),
            forall|m: int| 0 <= m < j ==> axes@[m] != axis,
        decreases axes@.len() - j,
    {
        let candidate = axes[j];
        if candidate.0 == axis.0 && candidate.1 == axis.1 {
            assert(axes@[j as int] == axis);
            return true;
        }
        j = j + 1;
    }
    false
}

/// Every input axis, input by input.
fn flatten_inputs(inputs: &Vec<Vec<(usize, usize)>>) -> (flat: Vec<(usize, usize)>)
    ensures
        flat@ == flat_axes(axis_views(inputs@)),
{
    let ghost views = axis_views(inputs@);
    let mut flat: Vec<(usize, usize)> = Vec::new();
    let mut i: usize = 0;
    assert(views.subrange(0, 0) =~= Seq::<Seq<(usize, usize)>>::empty());
    while i < inputs.len()
        invariant
            i <= inputs@.len(),
            views == axis_views(inputs@),
            flat@ == flat_axes(views.subrange(0, i as int)),
        decreases inputs@.len() - i,
    {
        let axes = &inputs[i];
        assert(axes@ == views[i as int]);
        let ghost start = flat@;
        let mut j: usize = 0;
        while j < axes.len()
            invariant
                j <= axes@.len(),
                flat@ =~= start + axes@.subrange(0, j as int),
            decreases axes@.len() - j,
        {
            flat.push(axes[j]);
            j = j + 1;
        }
        assert(axes@.subrange(0, j as int) =~= axes@);
        assert(views.subrange(0, i as int + 1).drop_last() =~= views.subrange(0, i as int));
        i = i + 1;
    }
    assert(views.subrange(0, i as int) =~= views);
    flat
}

/// The input axis a native mode label names.
fn lookup_axis(flat: &Vec<(usize, usize)>, mode: i32) -> (axis: Option<(usize, usize)>)
    ensures
        axis == axis_of(flat@, mode),
{
    let mut j: usize = flat.len();
    assert(flat@.subrange(0, j as int) =~= flat@);
    while j > 0
        invariant
            j <= flat@.len(),
            axis_of(flat@, mode) == axis_of(flat@.subrange(0, j as int), mode),
        decreases j,
    {
        let candidate = flat[j - 1];
        assert(flat@.subrange(0, j as int).last() == candidate);
        assert(flat@.subrange(0, j as int).drop_last() =~= flat@.subrange(0, j as int - 1));
        if mode >= 0 && candidate.0 == mode as usize {
            return Some(candidate);
        }
        j = j - 1;
    }
    None
}

/// The axes named by a native intermediate's modes, in mode order.
fn collect_axes(flat: &Vec<(usize, usize)>, modes: &Vec<i32>) -> (r: Result<Vec<(usize, usize)>, SimulationError>)
    ensures
        match intermediate_axes(flat@, modes@, Seq::empty()) {
            Ok(axes) => r matches Ok(found) && found@ == axes,
            Err(reason) => r matches Err(SimulationError::InvalidNativeResult { reason: text }) && text@
                == reason,
        },
{
    let mut found: Vec<(usize, usize)> = Vec::new();
    let mut k: usize = 0;
    assert(modes@.subrange(0, modes@.len() as int) =~= modes@);
    while k < modes.len()
        invariant
            k <= modes@.len(),
            intermediate_axes(flat@, modes@, Seq::empty()) == intermediate_axes(
                flat@,
                modes@.subrange(k as int, modes@.len() as int),
                found@,
            ),
        decreases modes@.len() - k,
    {
        let ghost rest = modes@.subrange(k as int, modes@.len() as int);
        assert(rest[0] == modes@[k as int]);
        assert(rest.drop_first() =~= modes@.subrange(k as int + 1, modes@.len() as int));
        let axis = match lookup_axis(flat, modes[k]) {
            Some(axis) => axis,
            None => {
                proof { reveal_strlit("native intermediate contains an unknown mode"); }
                return Err(native_result("native intermediate contains an unknown mode"));
            },
        };
        if contains_axis(&found, axis) {
            return Err(native_result("native intermediate contains a duplicate mode"));
        }
        found.push(axis);
        k = k + 1;
    }
    assert(modes@.subrange(k as int, modes@.len() as int) =~= Seq::<i32>::empty());
    Ok(found)
}

/// `axes` without any occurrence of `axis`.
fn remove_axis(axes: &Vec<(usize, usize)>, axis: (usize, usize)) -> (rest: Vec<(usize, usize)>)
    ensures
        rest@ == without(axes@, axis),
{
    let mut rest: Vec<(usize, usize)> = Vec::new();
    let mut i: usize = 0;
    assert(axes@.subrange(0, 0) =~= Seq::<(usize, usize)>::empty());
    while i < axes.len()
        invariant
            i <= axes@.len(),
            rest@ == without(axes@.subrange(0, i as int), axis),
        decreases axes@.len() - i,
    {
        let candidate = axes[i];
        assert(axes@.subrange(0, i as int + 1).drop_last() =~= axes@.subrange(0, i as int));
        assert(axes@.subrange(0, i as int + 1).last() == candidate);
        if !(candidate.0 == axis.0 && candidate.1 == axis.1) {
            rest.push(candidate);
        }
        i = i + 1;
    }
    assert(axes@.subrange(0, i as int) =~= axes@);
    rest
}

/// The kept axes and the wanted axes never met, walking `candidates`.
fn pick_axes(candidates: &Vec<(usize, usize)>, wanted: Vec<(usize, usize)>) -> (r: (
    Vec<(usize, usize)>,
    Vec<(usize, usize)>,
))
    ensures
        (r.0@, r.1@) == pick(candidates@, wanted@),
{
    let mut ordered: Vec<(usize, usize)> = Vec::new();
    let mut wanted = wanted;
    let ghost target = pick(candidates@, wanted@);
    let mut k: usize = 0;
    assert(candidates@.subrange(0, candidates@.len() as int) =~= candidates@);
    assert(Seq::<(usize, usize)>::empty() + target.0 =~= target.0);
    while k < candidates.len()
        invariant
            k <= candidates@.len(),
            ({
                let rest = pick(candidates@.subrange(k as int, candidates@.len() as int), wanted@);
                target == (ordered@ + rest.0, rest.1)
            }),
        decreases candidates@.len() - k,
    {
        let ghost suffix = candidates@.subrange(k as int, candidates@.len() as int);
        assert(suffix[0] == candidates@[k as int]);
        assert(suffix.drop_first() =~= candidates@.subrange(k as int + 1, candidates@.len() as int));
        let candidate = candidates[k];
        if contains_axis(&wanted, candidate) {
            let ghost rest = pick(suffix.drop_first(), without(wanted@, candidate));
            wanted = remove_axis(&wanted, candidate);
            ordered.push(candidate);
            assert(ordered@.drop_last() + (seq![candidate] + rest.0) =~= ordered@ + rest.0);
        }
        k = k + 1;
    }
    assert(candidates@.subrange(k as int, candidates@.len() as int) =~= Seq::<(usize, usize)>::empty());
    assert(ordered@ + Seq::<(usize, usize)>::empty() =~= ordered@);
    (ordered, wanted)
}

/// Whether every axis of `a` is in `b`.
fn covers_axes(a: &Vec<(usize, usize)>, b: &Vec<(usize, usize)>) -> (r: bool)
    ensures
        r == covers(a@, b@),
{
    let mut i: usize = 0;
    while i < a.len()
        invariant
            i <= a@.len(),
            forall|m: int| 0 <= m < i ==> b@.contains(#[trigger] a@[m]),
        decreases a@.len() - i,
    {
        if !contains_axis(b, a[i]) {
            return false;
        }
        i = i + 1;
    }
    true
}

/// The concatenation of two axis lists.
fn concat_axes(a: &Vec<(usize, usize)>, b: &Vec<(usize, usize)>) -> (c: Vec<(usize, usize)>)
    ensures
        c@ == a@ + b@,
{
    let mut c = copy_axes(a);
    let mut j: usize = 0;
    while j < b.len()
        invariant
            j <= b@.len(),
            c@ =~= a@ + b@.subrange(0, j as int),
        decreases b@.len() - j,
    {
        c.push(b[j]);
        j = j + 1;
    }
    assert(b@.subrange(0, j as int) =~= b@);
    c
}

proof fn lemma_view_replaced(
    v: Seq<(Operand, Vec<(usize, usize)>)>,
    a: int,
    b: int,
    x: (Operand, Vec<(usize, usize)>),
)
    requires
        a != b,
        0 <= a < v.len(),
        0 <= b < v.len(),
    ensures
        available_view(replaced(v, a, b, x)) =~= replaced(available_view(v), a, b, (x.0, x.1@)),
{
    let high = if a >= b { a } else { b };
    let low = if a >= b { b } else { a };
    assert(available_view(v.remove(high)) =~= available_view(v).remove(high));
    assert(available_view(v.remove(high).remove(low)) =~= available_view(v).remove(high).remove(low));
}

/// The result axes of one step whose operands are at `first` and `second`.
fn step_result(
    available: &Vec<(Operand, Vec<(usize, usize)>)>,
    pair: [i32; 2],
    modes: &Vec<i32>,
    last: bool,
    flat: &Vec<(usize, usize)>,
    keep: &Vec<(usize, usize)>,
) -> (r: Result<Vec<(usize, usize)>, SimulationError>)
    requires
        0 <= pair[0] < available@.len(),
        0 <= pair[1] < available@.len(),
    ensures
        match step_outcome(
            available_view(available@),
            pair,
            modes@,
            last,
            flat@,
            keep@,
        ) {
            Ok(axes) => r matches Ok(result) && result@ == axes,
            Err(reason) => r matches Err(SimulationError::InvalidNativeResult { reason: text }) && text@
                == reason,
        },
{
    let first = pair[0] as usize;
    let second = pair[1] as usize;
    let wanted = collect_axes(flat, modes)?;
    let candidates = concat_axes(&available[first].1, &available[second].1);
    assert(available_view(available@)[first as int].1 == available@[first as int].1@);
    assert(available_view(available@)[second as int].1 == available@[second as int].1@);
    let (ordered, left) = pick_axes(&candidates, wanted);
    if left.len() != 0 {
        proof { reveal_strlit("native intermediate contains modes absent from its operands"); }
        return Err(native_result("native intermediate contains modes absent from its operands"));
    }
    if last {
        if !(covers_axes(&ordered, keep) && covers_axes(keep, &ordered)) {
            proof { reveal_strlit("native final modes do not match the query output"); }
            return Err(native_result("native final modes do not match the query output"));
        }
        Ok(copy_axes(keep))
    } else {
        Ok(ordered)
    }
}

/// The portable steps of a complete binary path over the inputs.
fn build_steps(
    inputs: &Vec<Vec<(usize, usize)>>,
    keep: &Vec<(usize, usize)>,
    path: &Vec<[i32; 2]>,
    intermediate_modes: &Vec<Vec<i32>>,
) -> (r: Result<Vec<PlanStep>, SimulationError>)
    requires
        valid_path(inputs@.len(), path@),
        intermediate_modes@.len() == path@.len(),
    ensures
        match plan_steps(
            initial_available(axis_views(inputs@)),
            path@,
            mode_views(intermediate_modes@),
            0,
            flat_axes(axis_views(inputs@)),
            keep@,
        ) {
            Ok(steps) => r matches Ok(plan) && step_views(plan@) == steps,
            Err(reason) => r matches Err(SimulationError::InvalidNativeResult { reason: text }) && text@
                == reason,
        },
{
    let ghost views = axis_views(inputs@);
    let ghost modes = mode_views(intermediate_modes@);
    let ghost flat_view = flat_axes(views);
    let ghost total = path@.len();
    let count = inputs.len();
    let flat = flatten_inputs(inputs);
    let mut available: Vec<(Operand, Vec<(usize, usize)>)> = Vec::new();
    let mut i: usize = 0;
    while i < count
        invariant
            i <= count,
            count == inputs@.len(),
            views == axis_views(inputs@),
            available_view(available@) =~= initial_available(views).subrange(0, i as int),
        decreases count - i,
    {
        let axes = copy_axes(&inputs[i]);
        assert(views[i as int] == inputs@[i as int]@);
        let ghost prev = available@;
        available.push((Operand::Input(i), axes));
        assert(available_view(available@) =~= available_view(prev).push((Operand::Input(i), views[i as int])));
        assert(initial_available(views).subrange(0, i as int + 1) =~= initial_available(views).subrange(0, i as int).push(
            (Operand::Input(i), views[i as int]),
        ));
        i = i + 1;
    }
    assert(initial_available(views).subrange(0, count as int) =~= initial_available(views));
    let mut steps: Vec<PlanStep> = Vec::new();
    let ghost mut done: Seq<(Seq<Operand>, Seq<(usize, usize)>)> = Seq::empty();
    assert(path@.subrange(0, total as int) =~= path@);
    assert(modes.subrange(0, total as int) =~= modes);
    assert(step_views(steps@) =~= done);
    let mut k: usize = 0;
    while k < path.len()
        invariant
            k <= total,
            total == path@.len(),
            count == inputs@.len(),
            modes == mode_views(intermediate_modes@),
            modes.len() == total,
            views == axis_views(inputs@),
            flat_view == flat_axes(views),
            flat@ == flat_view,
            valid_path(count as nat, path@),
            available@.len() == count - k,
            step_views(steps@) == done,
            plan_steps(initial_available(views), path@, modes, 0, flat_view, keep@) == match plan_steps(
                available_view(available@),
                path@.subrange(k as int, total as int),
                modes.subrange(k as int, total as int),
                k as nat,
                flat_view,
                keep@,
            ) {
                Ok(rest) => Ok(done + rest),
                Err(reason) => Err::<Seq<(Seq<Operand>, Seq<(usize, usize)>)>, Seq<char>>(reason),
            },
        decreases total - k,
    {
        let ghost suffix = path@.subrange(k as int, total as int);
        let ghost mode_suffix = modes.subrange(k as int, total as int);
        assert(suffix[0] == path@[k as int]);
        assert(mode_suffix[0] == modes[k as int]);
        assert(suffix.drop_first() =~= path@.subrange(k as int + 1, total as int));
        assert(mode_suffix.drop_first() =~= modes.subrange(k as int + 1, total as int));
        assert(live_pair(path@[k as int], count - k));
        let pair = path[k];
        let first = pair[0] as usize;
        let second = pair[1] as usize;
        assert(intermediate_modes@[k as int]@ == modes[k as int]);
        let last = k + 1 == path.len();
        assert(suffix.len() == total - k);
        assert(step_outcome(available_view(available@), suffix[0], mode_suffix[0], suffix.len() == 1, flat_view, keep@)
            == step_outcome(available_view(available@), pair, intermediate_modes@[k as int]@, last, flat@, keep@));
        let result = match step_result(&available, pair, &intermediate_modes[k], last, &flat, keep) {
            Ok(result) => result,
            Err(error) => {
                return Err(error);
            },
        };
        let first_operand = available[first].0;
        let second_operand = available[second].0;
        let mut operands: Vec<Operand> = Vec::new();
        operands.push(first_operand);
        operands.push(second_operand);
        let step = PlanStep { operands, result: copy_axes(&result) };
        let ghost entry = (step.operands@, step.result@);
        assert(entry.0 =~= seq![available_view(available@)[first as int].0, available_view(available@)[second as int].0]);
        steps.push(step);
        assert(step_views(steps@) =~= done.push(entry));
        let ghost before = available@;
        proof {
            lemma_view_replaced(before, first as int, second as int, (Operand::Result(k), result));
        }
        crate::contraction::replace_pair(&mut available, first, second, (Operand::Result(k), result));
        proof {
            match plan_steps(
                available_view(available@),
                path@.subrange(k as int + 1, total as int),
                modes.subrange(k as int + 1, total as int),
                k as nat + 1,
                flat_view,
                keep@,
            ) {
                Ok(rest) => {
                    assert(done + (seq![entry] + rest) =~= done.push(entry) + rest);
                },
                Err(_) => {},
            }
            done = done.push(entry);
        }
        k = k + 1;
    }
    assert(path@.subrange(k as int, total as int) =~= Seq::<[i32; 2]>::empty());
    assert(done + Seq::<(Seq<Operand>, Seq<(usize, usize)>)>::empty() =~= done);
    Ok(steps)
}

/// Converts a native path, read back with the modes of each intermediate,
/// into portable steps over the network's inputs: the topology must be
/// supported and the metadata valid for it, unsliced, with one mode list per
/// step. Each step contracts the operands at its two positions; its result
/// keeps, in operand order, the operand axes its native intermediate names,
/// and the last step yields the output axes in the output's order.
pub fn from_native_metadata(
    inputs: &Vec<Vec<(usize, usize)>>,
    keep: &Vec<(usize, usize)>,
    metadata: &NativeMetadata,
    intermediate_modes: &Vec<Vec<i32>>,
) -> (r: Result<Vec<PlanStep>, SimulationError>)
    ensures
        match topology_rejection(axis_views(inputs@), keep@) {
            Some(error) => r == Err::<Vec<PlanStep>, SimulationError>(unsupported(error)),
            None => match metadata_rejection(
                inputs@.len(),
                all_axes(axis_views(inputs@)),
                native_axes(keep@).map_values(|a: (i32, i64)| a.0),
                metadata.path@,
                metadata.slicing@,
                metadata.num_slices,
            ) {
                Some(error) => r matches Err(SimulationError::InvalidNativeResult { reason }) && reason@
                    == error.describe(),
                None => if metadata.slicing@.len() != 0 || metadata.num_slices != 1 {
                    r == Err::<Vec<PlanStep>, SimulationError>(
                        SimulationError::UnsupportedContraction {
                            reason: "portable contraction plans do not represent slicing",
                        },
                    )
                } else if intermediate_modes@.len() != metadata.path@.len() {
                    r matches Err(SimulationError::InvalidNativeResult { reason }) && reason@
                        == intermediate_count_text()
                } else {
                    match plan_steps(
                        initial_available(axis_views(inputs@)),
                        metadata.path@,
                        mode_views(intermediate_modes@),
                        0,
                        flat_axes(axis_views(inputs@)),
                        keep@,
                    ) {
                        Ok(steps) => r matches Ok(plan) && step_views(plan@) == steps,
                        Err(reason) => r matches Err(SimulationError::InvalidNativeResult { reason: text })
                            && text@ == reason,
                    }
                },
            },
        },
{
    let topology = supported_topology(inputs, keep)?;
    if let Err(error) = topology.validate(metadata) {
        return Err(SimulationError::InvalidNativeResult { reason: error.message() });
    }
    if metadata.slicing.len() != 0 || metadata.num_slices != 1 {
        return Err(
            SimulationError::UnsupportedContraction {
                reason: "portable contraction plans do not represent slicing",
            },
        );
    }
    if intermediate_modes.len() != metadata.path.len() {
        proof { reveal_strlit("native intermediate count does not match the path"); }
        return Err(native_result("native intermediate count does not match the path"));
    }
    build_steps(inputs, keep, &metadata.path, intermediate_modes)
}

/// The operands of the live list.
pub open spec fn operands_of(available: Seq<(Operand, Seq<(usize, usize)>)>) -> Seq<Operand> {
    available.map_values(|e: (Operand, Seq<(usize, usize)>)| e.0)
}

/// The operand lists of spec-level steps.
pub open spec fn step_operands(steps: Seq<(Seq<Operand>, Seq<(usize, usize)>)>) -> Seq<Seq<Operand>> {
    steps.map_values(|s: (Seq<Operand>, Seq<(usize, usize)>)| s.0)
}

/// No operand is live twice, and every live result is of a step before `next`.
pub open spec fn fresh_operands(ops: Seq<Operand>, next: nat) -> bool {
    &&& forall|i: int, j: int| 0 <= i < j < ops.len() ==> ops[i] != ops[j]
    &&& forall|i: int| 0 <= i < ops.len() ==> (#[trigger] ops[i] matches Operand::Result(r) ==> r < next)
}

proof fn lemma_position_of_distinct(ops: Seq<Operand>, i: int)
    requires
        0 <= i < ops.len(),
        forall|a: int, b: int| 0 <= a < b < ops.len() ==> ops[a] != ops[b],
    ensures
        first_position(ops, ops[i]) == Some(i as nat),
{
    lemma_first_position_found(ops, ops[i], i);
}

/// The position in `s` of the element at `m` after removing `high`, then
/// `low` (`low < high`).
spec fn kept_index(m: int, low: int, high: int) -> int {
    if m < low {
        m
    } else if m + 1 < high {
        m + 1
    } else {
        m + 2
    }
}

proof fn lemma_remove_two<T>(s: Seq<T>, low: int, high: int)
    requires
        0 <= low < high < s.len(),
    ensures
        s.remove(high).remove(low).len() == s.len() - 2,
        forall|m: int| 0 <= m < s.len() - 2 ==> #[trigger] s.remove(high).remove(low)[m] == s[kept_index(m, low, high)],
{
}

proof fn lemma_fresh_replaced(ops: Seq<Operand>, first: int, second: int, next: nat)
    requires
        next < usize::MAX,
        fresh_operands(ops, next),
        0 <= first < ops.len(),
        0 <= second < ops.len(),
        first != second,
    ensures
        fresh_operands(replaced(ops, first, second, Operand::Result(next as usize)), next + 1),
{
    let high = if first >= second { first } else { second };
    let low = if first >= second { second } else { first };
    let shrunk = ops.remove(high).remove(low);
    let after = replaced(ops, first, second, Operand::Result(next as usize));
    lemma_remove_two(ops, low, high);
    assert forall|i: int, j: int| 0 <= i < j < after.len() implies after[i] != after[j] by {
        let ki = kept_index(i, low, high);
        assert(after[i] == shrunk[i]);
        assert(shrunk[i] == ops[ki]);
        if j < shrunk.len() {
            assert(after[j] == shrunk[j]);
            assert(shrunk[j] == ops[kept_index(j, low, high)]);
        } else {
            assert(ops[ki] matches Operand::Result(r) ==> r < next);
        }
    }
    assert forall|i: int| 0 <= i < after.len() implies (#[trigger] after[i] matches Operand::Result(r) ==> r
        < next + 1) by {
        if i < shrunk.len() {
            assert(after[i] == shrunk[i]);
            assert(shrunk[i] == ops[kept_index(i, low, high)]);
        }
    }
}

proof fn lemma_operands_replaced(
    available: Seq<(Operand, Seq<(usize, usize)>)>,
    first: int,
    second: int,
    x: (Operand, Seq<(usize, usize)>),
)
    requires
        0 <= first < available.len(),
        0 <= second < available.len(),
        first != second,
    ensures
        operands_of(replaced(available, first, second, x)) =~= replaced(operands_of(available), first, second, x.0),
{
    let high = if first >= second { first } else { second };
    let low = if first >= second { second } else { first };
    assert(operands_of(available.remove(high)) =~= operands_of(available).remove(high));
    assert(operands_of(available.remove(high).remove(low)) =~= operands_of(available).remove(high).remove(low));
}

proof fn lemma_round_trip_from(
    available: Seq<(Operand, Seq<(usize, usize)>)>,
    path: Seq<[i32; 2]>,
    modes: Seq<Seq<i32>>,
    next: nat,
    flat: Seq<(usize, usize)>,
    keep: Seq<(usize, usize)>,
)
    requires
        next + path.len() <= usize::MAX,
        fresh_operands(operands_of(available), next),
        forall|step: int| 0 <= step < path.len() ==> live_pair(#[trigger] path[step], available.len() - step),
        plan_steps(available, path, modes, next, flat, keep) is Ok,
    ensures
        ({
            let steps = plan_steps(available, path, modes, next, flat, keep)->Ok_0;
            &&& pairwise(step_operands(steps))
            &&& native_positions(operands_of(available), step_operands(steps), next) matches Some(p)
                && native_pairs(p) == path
        }),
    decreases path.len(),
{
    let steps = plan_steps(available, path, modes, next, flat, keep)->Ok_0;
    if path.len() == 0 {
        assert(step_operands(steps) =~= Seq::<Seq<Operand>>::empty());
        assert(native_pairs(Seq::<(nat, nat)>::empty()) =~= path);
    } else {
        let first = path[0][0] as int;
        let second = path[0][1] as int;
        assert(live_pair(path[0], available.len() - 0));
        let result = step_outcome(available, path[0], modes[0], path.len() == 1, flat, keep)->Ok_0;
        let x = (Operand::Result(next as usize), result);
        let after = replaced(available, first, second, x);
        let rest = plan_steps(after, path.drop_first(), modes.drop_first(), next + 1, flat, keep)->Ok_0;
        let ops = operands_of(available);
        lemma_operands_replaced(available, first, second, x);
        lemma_fresh_replaced(ops, first, second, next);
        assert forall|step: int| 0 <= step < path.drop_first().len() implies live_pair(
            #[trigger] path.drop_first()[step],
            after.len() - step,
        ) by {
            assert(live_pair(path[step + 1], available.len() - (step + 1)));
        }
        lemma_round_trip_from(after, path.drop_first(), modes.drop_first(), next + 1, flat, keep);
        let entry = (seq![available[first].0, available[second].0], result);
        assert(steps == seq![entry] + rest);
        assert(step_operands(steps) =~= seq![seq![ops[first], ops[second]]] + step_operands(rest));
        lemma_position_of_distinct(ops, first);
        lemma_position_of_distinct(ops, second);
        let tail = native_positions(operands_of(after), step_operands(rest), next + 1)->Some_0;
        assert(step_operands(steps)[0] == seq![ops[first], ops[second]]);
        assert(step_operands(steps).drop_first() =~= step_operands(rest));
        assert(native_positions(ops, step_operands(steps), next) == Some(seq![(first as nat, second as nat)] + tail));
        assert([first as i32, second as i32] =~= path[0]);
        assert(native_pairs(tail) == path.drop_first());
        let joined = seq![(first as nat, second as nat)] + tail;
        assert forall|i: int| 0 <= i < path.len() implies #[trigger] native_pairs(joined)[i] == path[i] by {
            if i > 0 {
                assert(joined[i] == tail[i - 1]);
                assert(native_pairs(tail)[i - 1] == path.drop_first()[i - 1]);
            }
        }
        assert(native_pairs(joined) =~= path);
    }
}

/// Reading a native path back as portable steps and converting those steps
/// to a native path again gives back the same path: each step is pairwise,
/// and its operands sit at exactly the positions the path named.
pub proof fn law_native_path_round_trip(
    inputs: Seq<Seq<(usize, usize)>>,
    keep: Seq<(usize, usize)>,
    path: Seq<[i32; 2]>,
    modes: Seq<Seq<i32>>,
)
    requires
        inputs.len() <= usize::MAX,
        valid_path(inputs.len(), path),
        plan_steps(initial_available(inputs), path, modes, 0, flat_axes(inputs), keep) is Ok,
    ensures
        ({
            let steps = plan_steps(initial_available(inputs), path, modes, 0, flat_axes(inputs), keep)->Ok_0;
            &&& pairwise(step_operands(steps))
            &&& native_positions(input_operands(inputs.len()), step_operands(steps), 0) matches Some(p)
                && native_pairs(p) == path
        }),
{
    let available = initial_available(inputs);
    assert(operands_of(available) =~= input_operands(inputs.len()));
    assert forall|step: int| 0 <= step < path.len() implies live_pair(#[trigger] path[step], available.len() - step) by {
        assert(live_pair(path[step], inputs.len() - step));
    }
    lemma_round_trip_from(available, path, modes, 0, flat_axes(inputs), keep);
}

/// What a path search may use: a device-workspace budget in bytes, or
/// `None` for a budget from the device's free memory.
#[derive(Clone, Copy, Debug, PartialEq, Eq, Structural)]
pub struct PlanningConstraints {
    pub workspace_bytes: Option<u64>,
}

/// What an optimizer estimate measures.
#[derive(Clone, Copy, Debug, PartialEq, Eq, Structural)]
pub enum EstimateKind {
    FlopCount,
    LargestIntermediateElements,
}

/// One vendor estimate of a selected path.
#[derive(Clone, Copy, Debug)]
pub struct CostEstimate<E> {
    pub provider: &'static str,
    pub quantity: EstimateKind,
    pub value: E,
}

/// What a search reports: the optimizer, the constraints it accepted and its
/// estimates.
#[derive(Debug)]
pub struct PlanningReport<E> {
    pub optimizer: &'static str,
    pub accepted_constraints: PlanningConstraints,
    pub estimates: Vec<CostEstimate<E>>,
}

/// A search report with the workspace budget the search used and where it
/// came from.
#[derive(Debug)]
pub struct CuTensorNetPlanningReport<E> {
    pub planning: PlanningReport<E>,
    pub effective_workspace_bytes: u64,
    pub workspace_source: WorkspaceBudgetSource,
}

/// Search controls other than the workspace budget; slicing stays disabled.
#[derive(Clone, Copy, Debug, PartialEq, Eq, Structural)]
pub struct CuTensorNetContractionOptimizerSettings {
    pub hyper_samples: i32,
    pub threads: i32,
    pub seed: i32,
    pub reconfiguration_iterations: i32,
    pub disable_rank_simplification: bool,
}

/// The native search controls for a budget: the given controls with slicing
/// disabled.
pub open spec fn native_settings(
    workspace_constraint: u64,
    settings: CuTensorNetContractionOptimizerSettings,
) -> OptimizerSettings {
    OptimizerSettings {
        workspace_constraint,
        hyper_samples: settings.hyper_samples,
        threads: settings.threads,
        seed: settings.seed,
        reconfiguration_iterations: settings.reconfiguration_iterations,
        disable_rank_simplification: settings.disable_rank_simplification,
        disable_slicing: true,
    }
}

/// The path-search budget: an explicit positive budget as given, or half the
/// free device memory, read with the device current.
pub fn resolve_workspace<A: SessionApi + MemoryWorkspaceApi>(
    session: &SessionResources<A>,
    constraints: PlanningConstraints,
) -> (r: Result<(u64, WorkspaceBudgetSource), SimulationError>)
    ensures
        constraints.workspace_bytes matches Some(bytes) ==> (if bytes == 0 {
            r matches Err(SimulationError::InvalidContractionConfiguration { reason }) && reason@
                == crate::contraction::zero_budget_text()
        } else {
            r == Ok::<(u64, WorkspaceBudgetSource), SimulationError>((bytes, WorkspaceBudgetSource::Explicit))
        }),
        r matches Ok((bytes, source)) ==> bytes > 0 && (source == WorkspaceBudgetSource::Automatic
            <==> constraints.workspace_bytes is None),
{
    match explicit_budget(constraints.workspace_bytes) {
        Some(budget) => budget,
        None => {
            session.bind_device()?;
            let (free, total) = session.api().memory_info()?;
            automatic_budget(free, total)
        },
    }
}

/// The two estimates a search reports, flop count first.
fn read_estimates<'s, A: SessionApi + ContractionApi>(resources: &ContractionResources<'s, A>) -> (r: Result<
    Vec<CostEstimate<A::Estimate>>,
    SimulationError,
>)
    requires
        resources.live_network(),
    ensures
        r matches Ok(estimates) ==> estimates@.len() == 2 && estimates@[0].quantity == EstimateKind::FlopCount
            && estimates@[1].quantity == EstimateKind::LargestIntermediateElements && estimates@[0].provider@
            == "cuTensorNet"@ && estimates@[1].provider@ == "cuTensorNet"@,
{
    let flops = resources.estimate(OptimizerEstimate::FlopCount)?;
    let largest = resources.estimate(OptimizerEstimate::LargestTensor)?;
    let mut estimates: Vec<CostEstimate<A::Estimate>> = Vec::new();
    estimates.push(CostEstimate { provider: "cuTensorNet", quantity: EstimateKind::FlopCount, value: flops });
    estimates.push(
        CostEstimate { provider: "cuTensorNet", quantity: EstimateKind::LargestIntermediateElements, value: largest },
    );
    Ok(estimates)
}

/// Searches, reads the selection back and converts it.
fn search<'s, A: SessionApi + ContractionApi>(
    resources: &mut ContractionResources<'s, A>,
    inputs: &Vec<Vec<(usize, usize)>>,
    keep: &Vec<(usize, usize)>,
    settings: OptimizerSettings,
) -> (r: Result<(Vec<PlanStep>, Vec<CostEstimate<A::Estimate>>), SimulationError>)
    requires
        old(resources).live_network(),
        topology_rejection(axis_views(inputs@), keep@) is None,
    ensures
        final(resources).live_network(),
        final(resources).same_network(old(resources)),
        !settings_valid(settings) ==> r == Err::<(Vec<PlanStep>, Vec<CostEstimate<A::Estimate>>), SimulationError>(
            SimulationError::InvalidContractionConfiguration { reason: "invalid optimizer settings" },
        ) && *final(resources) == *old(resources),
        r is Ok ==> final(resources).metadata_populated(),
        r matches Ok((plan, estimates)) ==> estimates@.len() == 2 && exists|path: Seq<[i32; 2]>, modes: Seq<Seq<i32>>|
            valid_path(inputs@.len(), path) && plan_steps(
                initial_available(axis_views(inputs@)),
                path,
                modes,
                0,
                flat_axes(axis_views(inputs@)),
                keep@,
            ) == Ok::<Seq<(Seq<Operand>, Seq<(usize, usize)>)>, Seq<char>>(step_views(plan@)),
{
    resources.optimize(settings)?;
    let metadata = resources.export()?;
    let modes = resources.intermediate_modes()?;
    let plan = from_native_metadata(inputs, keep, &metadata, &modes)?;
    let estimates = read_estimates(resources)?;
    Ok((plan, estimates))
}

/// Searches for a path with the native optimizer; borrows the session and
/// owns no native objects between calls.
pub struct CuTensorNetContractionOptimizer<'s, A: SessionApi> {
    session: &'s SessionResources<A>,
}

impl<'s, A: SessionApi + ContractionApi + MemoryWorkspaceApi> CuTensorNetContractionOptimizer<'s, A> {
    pub closed spec fn session_of(&self) -> &'s SessionResources<A> {
        self.session
    }

    pub fn new(session: &'s SessionResources<A>) -> (optimizer: Self)
        ensures
            optimizer.session_of() == session,
    {
        CuTensorNetContractionOptimizer { session }
    }

    /// Searches for a path of the network `inputs` with output `keep`: the
    /// topology must be supported and the budget resolved, the controls
    /// valid; the network is built, searched, read back and converted, the
    /// two estimates read, and the network released whatever happened, with
    /// both failures kept. The selected steps are those of a complete binary
    /// path over the inputs.
    pub fn optimize(
        &self,
        inputs: &Vec<Vec<(usize, usize)>>,
        keep: &Vec<(usize, usize)>,
        constraints: PlanningConstraints,
        settings: CuTensorNetContractionOptimizerSettings,
    ) -> (r: Result<(Vec<PlanStep>, CuTensorNetPlanningReport<A::Estimate>), SimulationError>)
        requires
            self.session_of().is_open(),
        ensures
            topology_rejection(axis_views(inputs@), keep@) matches Some(error) ==> r
                == Err::<(Vec<PlanStep>, CuTensorNetPlanningReport<A::Estimate>), SimulationError>(
                unsupported(error),
            ),
            topology_rejection(axis_views(inputs@), keep@) is None && constraints.workspace_bytes == Some(0u64)
                ==> (r matches Err(SimulationError::InvalidContractionConfiguration { reason }) && reason@
                == crate::contraction::zero_budget_text()),
            topology_rejection(axis_views(inputs@), keep@) is None && constraints.workspace_bytes is Some
                && constraints.workspace_bytes->0 > 0 && !settings_valid(
                native_settings(constraints.workspace_bytes->0, settings),
            ) ==> r == Err::<
                (Vec<PlanStep>, CuTensorNetPlanningReport<A::Estimate>),
                SimulationError,
            >(SimulationError::InvalidContractionConfiguration { reason: "invalid optimizer settings" }),
            r matches Ok((plan, report)) ==> {
                &&& topology_rejection(axis_views(inputs@), keep@) is None
                &&& report.planning.optimizer@ == "cuTensorNet"@
                &&& report.planning.accepted_constraints == constraints
                &&& report.planning.estimates@.len() == 2
                &&& report.effective_workspace_bytes > 0
                &&& (constraints.workspace_bytes matches Some(bytes) ==> report.effective_workspace_bytes == bytes
                    && report.workspace_source == WorkspaceBudgetSource::Explicit)
                &&& (constraints.workspace_bytes is None ==> report.workspace_source
                    == WorkspaceBudgetSource::Automatic)
                &&& settings_valid(native_settings(report.effective_workspace_bytes, settings))
                &&& exists|path: Seq<[i32; 2]>, modes: Seq<Seq<i32>>|
                    valid_path(inputs@.len(), path) && plan_steps(
                        initial_available(axis_views(inputs@)),
                        path,
                        modes,
                        0,
                        flat_axes(axis_views(inputs@)),
                        keep@,
                    ) == Ok::<Seq<(Seq<Operand>, Seq<(usize, usize)>)>, Seq<char>>(step_views(plan@))
            },
    {
        let topology = supported_topology(inputs, keep)?;
        let (workspace_constraint, workspace_source) = resolve_workspace(self.session, constraints)?;
        let native = OptimizerSettings {
            workspace_constraint,
            hyper_samples: settings.hyper_samples,
            threads: settings.threads,
            seed: settings.seed,
            reconfiguration_iterations: settings.reconfiguration_iterations,
            disable_rank_simplification: settings.disable_rank_simplification,
            disable_slicing: true,
        };
        native.attributes()?;
        let mut resources = ContractionResources::new(self.session, topology)?;
        let searched = search(&mut resources, inputs, keep, native);
        let result = match searched {
            Ok((plan, estimates)) => Ok((
                plan,
                CuTensorNetPlanningReport {
                    planning: PlanningReport {
                        optimizer: "cuTensorNet",
                        accepted_constraints: constraints,
                        estimates,
                    },
                    effective_workspace_bytes: workspace_constraint,
                    workspace_source,
                },
            )),
            Err(error) => Err(error),
        };
        proof { resources.lemma_live_network(); }
        let cleanup = resources.close();
        combine_execution_and_cleanup(result, cleanup)
    }
}

/// The failure of a combined result without its cleanup failure.
pub open spec fn primary_failure(error: SimulationError) -> SimulationError {
    match error {
        SimulationError::ExecutionAndCleanupFailed { execution, .. } => *execution,
        other => other,
    }
}

/// The cleanup failure a combined result holds, if any.
pub open spec fn cleanup_failure(error: SimulationError) -> Option<SimulationError> {
    match error {
        SimulationError::ExecutionAndCleanupFailed { cleanup, .. } => Some(*cleanup),
        _ => None,
    }
}

/// A preparation failure before anything was allocated or observed.
fn early_failure(error: SimulationError, cleanup: Option<SimulationError>) -> (f: PreparationFailure)
    ensures
        f.error == error,
        f.cleanup == cleanup,
        f.partial == initial_report(),
{
    PreparationFailure { partial: ResourceReport::empty(), error, cleanup }
}

/// Keeps a construction failure and its cleanup failure apart.
fn split_failure(error: SimulationError) -> (f: PreparationFailure)
    ensures
        f.error == primary_failure(error),
        f.cleanup == cleanup_failure(error),
        f.partial == initial_report(),
{
    match error {
        SimulationError::ExecutionAndCleanupFailed { execution, cleanup } => early_failure(*execution, Some(*cleanup)),
        other => early_failure(other, None),
    }
}

/// Whether two metadata values hold the same path, slicing and slice count.
fn same_metadata(a: &NativeMetadata, b: &NativeMetadata) -> (same: bool)
    ensures
        same == (a.path@ == b.path@ && a.slicing@ == b.slicing@ && a.num_slices == b.num_slices),
{
    if a.path.len() != b.path.len() || a.slicing.len() != b.slicing.len() || a.num_slices != b.num_slices {
        return false;
    }
    let mut k: usize = 0;
    while k < a.path.len()
        invariant
            k <= a.path@.len(),
            a.path@.len() == b.path@.len(),
            forall|m: int| 0 <= m < k ==> a.path@[m] == b.path@[m],
        decreases a.path@.len() - k,
    {
        let x = a.path[k];
        let y = b.path[k];
        if x[0] != y[0] || x[1] != y[1] {
            return false;
        }
        assert(x =~= y);
        k = k + 1;
    }
    assert(a.path@ =~= b.path@);
    let mut k: usize = 0;
    while k < a.slicing.len()
        invariant
            k <= a.slicing@.len(),
            a.slicing@.len() == b.slicing@.len(),
            forall|m: int| 0 <= m < k ==> a.slicing@[m] == b.slicing@[m],
        decreases a.slicing@.len() - k,
    {
        let x = a.slicing[k];
        let y = b.slicing[k];
        if x.mode != y.mode || x.extent != y.extent {
            return false;
        }
        k = k + 1;
    }
    assert(a.slicing@ =~= b.slicing@);
    true
}

/// Imports a native path, reads it back, and checks that it is unchanged
/// and converts back to portable steps.
fn check_import<'s, A: SessionApi + ContractionApi>(
    resources: &mut ContractionResources<'s, A>,
    inputs: &Vec<Vec<(usize, usize)>>,
    keep: &Vec<(usize, usize)>,
    metadata: &NativeMetadata,
) -> (r: Result<(), SimulationError>)
    requires
        old(resources).live_network(),
    ensures
        final(resources).live_network(),
        final(resources).network_topology() == old(resources).network_topology(),
        final(resources).owner_session() == old(resources).owner_session(),
        r is Ok ==> final(resources).metadata_populated(),
        metadata_rejection(
            old(resources).network_topology().tensors().len(),
            old(resources).network_topology().axes(),
            old(resources).network_topology().output_modes(),
            metadata.path@,
            metadata.slicing@,
            metadata.num_slices,
        ) matches Some(error) ==> r == Err::<(), SimulationError>(error) && *final(resources) == *old(resources),
{
    let ghost start = *resources;
    let imported = resources.import(metadata);
    proof { resources.lemma_same_network(&start); }
    imported?;
    let observed = resources.export()?;
    if !same_metadata(&observed, metadata) {
        return Err(native_result("native import changed the supplied path or slicing"));
    }
    let modes = resources.intermediate_modes()?;
    from_native_metadata(inputs, keep, &observed, &modes)?;
    Ok(())
}

/// Creates and checks a fresh native owner for a supplied plan without
/// searching or preparing kernels: the plan is converted to a native path,
/// the network built, the path imported, read back unchanged and converted
/// back. On failure whatever was created is released and the primary and
/// cleanup failures are kept apart; nothing has been allocated.
pub fn import_plan<'s, A: SessionApi + ContractionApi>(
    session: &'s SessionResources<A>,
    inputs: &Vec<Vec<(usize, usize)>>,
    keep: &Vec<(usize, usize)>,
    plan: &Vec<PlanStep>,
) -> (r: Result<ContractionResources<'s, A>, PreparationFailure>)
    requires
        session.is_open(),
    ensures
        topology_rejection(axis_views(inputs@), keep@) matches Some(error) ==> (r matches Err(f) && f.error
            == unsupported(error) && f.cleanup is None),
        topology_rejection(axis_views(inputs@), keep@) is None && !pairwise(operand_views(plan@)) ==> (r matches Err(
            f,
        ) && f.error == SimulationError::UnsupportedContraction {
            reason: "native paths require pairwise contraction steps",
        } && f.cleanup is None),
        topology_rejection(axis_views(inputs@), keep@) is None && pairwise(operand_views(plan@)) && native_positions(
            input_operands(inputs@.len()),
            operand_views(plan@),
            0,
        ) is None ==> (r matches Err(f) && f.error is InvalidContractionPlan && f.cleanup is None),
        r matches Err(f) ==> f.partial == initial_report(),
        r matches Ok(resources) ==> resources.live_network() && resources.metadata_populated()
            && resources.owner_session() == session
            && resources.network_topology().tensors().len() == inputs@.len()
            && resources.network_topology().axes() == all_axes(axis_views(inputs@))
            && resources.network_topology().output_modes() == native_axes(keep@).map_values(
            |a: (i32, i64)| a.0,
        ),
{
    let metadata = match to_native_metadata(inputs, keep, plan) {
        Ok(metadata) => metadata,
        Err(error) => {
            return Err(early_failure(error, None));
        },
    };
    let topology = match supported_topology(inputs, keep) {
        Ok(topology) => topology,
        Err(error) => {
            return Err(early_failure(error, None));
        },
    };
    let mut resources = match ContractionResources::new(session, topology) {
        Ok(resources) => resources,
        Err(error) => {
            return Err(split_failure(error));
        },
    };
    match check_import(&mut resources, inputs, keep, &metadata) {
        Ok(()) => Ok(resources),
        Err(error) => {
            proof { resources.lemma_live_network(); }
            let cleanup = match resources.close() {
                Ok(()) => None,
                Err(failure) => Some(failure),
            };
            Err(early_failure(error, cleanup))
        },
    }
}

/// A copy of a plan.
fn copy_plan(plan: &Vec<PlanStep>) -> (copy: Vec<PlanStep>)
    ensures
        step_views(copy@) == step_views(plan@),
{
    let mut copy: Vec<PlanStep> = Vec::new();
    let mut k: usize = 0;
    while k < plan.len()
        invariant
            k <= plan@.len(),
            step_views(copy@) =~= step_views(plan@).subrange(0, k as int),
        decreases plan@.len() - k,
    {
        let step = &plan[k];
        let mut operands: Vec<Operand> = Vec::new();
        let mut j: usize = 0;
        while j < step.operands.len()
            invariant
                j <= step.operands@.len(),
                operands@ =~= step.operands@.subrange(0, j as int),
            decreases step.operands@.len() - j,
        {
            operands.push(step.operands[j]);
            j = j + 1;
        }
        assert(step.operands@.subrange(0, j as int) =~= step.operands@);
        let ghost before = copy@;
        let entry = PlanStep { operands, result: copy_axes(&step.result) };
        assert((entry.operands@, entry.result@) == step_views(plan@)[k as int]);
        copy.push(entry);
        assert(step_views(copy@) =~= step_views(before).push((entry.operands@, entry.result@)));
        assert(step_views(plan@).subrange(0, k as int + 1) =~= step_views(plan@).subrange(0, k as int).push(
            step_views(plan@)[k as int],
        ));
        k = k + 1;
    }
    assert(step_views(plan@).subrange(0, k as int) =~= step_views(plan@));
    copy
}

impl<A: SessionApi + ContractionApi + MemoryWorkspaceApi + ContractionExecutionApi> SessionResources<A> {
    /// Prepares a supplied plan for numerical execution on this session:
    /// imports it into a fresh network (see `import_plan`), then sizes,
    /// allocates and binds within `limits` (see the executable's
    /// `prepare`). `owner` must identify the executable among all live ones.
    pub fn prepare<'s>(
        &'s self,
        inputs: &Vec<Vec<(usize, usize)>>,
        keep: &Vec<(usize, usize)>,
        plan: &Vec<PlanStep>,
        limits: ExecutionLimits,
        owner: usize,
    ) -> (r: Result<CuTensorNetExecutableContraction<'s, A, Vec<PlanStep>>, PreparationFailure>)
        requires
            self.is_open(),
        ensures
            topology_rejection(axis_views(inputs@), keep@) matches Some(error) ==> (r matches Err(f) && f.error
                == unsupported(error) && f.cleanup is None),
            topology_rejection(axis_views(inputs@), keep@) is None && !pairwise(operand_views(plan@)) ==> (r matches Err(
                f,
            ) && f.error == SimulationError::UnsupportedContraction {
                reason: "native paths require pairwise contraction steps",
            } && f.cleanup is None),
            r matches Ok(execution) ==> execution.wf() && execution.is_usable() && execution.is_live()
                && step_views(execution.executed_plan()@) == step_views(plan@) && scratch_within(
                execution.resource_report(),
                limits,
            ),
    {
        let resources = import_plan(self, inputs, keep, plan)?;
        CuTensorNetExecutableContraction::prepare(resources, copy_plan(plan), limits, owner)
    }
}

} // verus!
