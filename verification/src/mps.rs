//! Shapes of the matrix product states the backend asks the native library
//! for, and checks of the shapes and sizes it reports back.

use vstd::prelude::*;
use vstd::string::*;
use vstd::arithmetic::power2::*;
use vstd::bits::*;
use crate::error::SimulationError;
use crate::text::{append_decimal, append_rows, debug_rows, decimal};

verus! {

/// 2^e, saturated at `i64::MAX` once it no longer fits a signed 64-bit value.
pub open spec fn saturated_pow2(e: nat) -> int {
    if e >= 63 { i64::MAX as int } else { pow2(e) as int }
}

/// 2^exponent as an `i64`, or `i64::MAX` when 2^exponent would overflow it.
pub fn saturating_power_of_two(exponent: usize) -> (p: i64)
    ensures
        p == saturated_pow2(exponent as nat),
{
    if exponent >= 63 {
        i64::MAX
    } else {
        let e = exponent as u64;
        proof {
            lemma_u64_pow2_no_overflow(e as nat);
            lemma_pow2_strictly_increases(e as nat, 63);
            lemma2_to64();
            lemma2_to64_rest();
            assert(1 * pow2(e as nat) == pow2(e as nat));
            lemma_u64_shl_is_mul(1, e);
        }
        let v = 1u64 << e;
        assert(v == pow2(e as nat));
        assert(v < 0x8000_0000_0000_0000u64);
        v as i64
    }
}

pub open spec fn min3(a: int, b: int, c: int) -> int {
    let ab = if a <= b { a } else { b };
    if ab <= c { ab } else { c }
}

/// The bond extent requested across the cut after site `cut` of a
/// `qubit_count`-site chain: the cap, limited by the dimension of the smaller
/// side of the cut (`None` for an invalid request).
pub open spec fn target_bond(qubit_count: nat, cut: nat, cap: int) -> Option<int> {
    if cap <= 0 || cut + 1 > usize::MAX || qubit_count <= cut + 1 {
        None
    } else {
        Some(min3(cap, saturated_pow2(cut + 1), saturated_pow2((qubit_count - cut - 1) as nat)))
    }
}

/// The bond extents of every cut of a `qubit_count`-qubit chain.
pub open spec fn target_bonds(qubit_count: nat, cap: int) -> Seq<i64> {
    Seq::new((qubit_count - 1) as nat, |c: int| target_bond(qubit_count, c as nat, cap)->0 as i64)
}

/// The bond extent across the cut after site `cut`.
pub fn target_bond_extent(qubit_count: usize, cut: usize, requested_cap: i64) -> (r: Result<i64, SimulationError>)
    ensures
        match target_bond(qubit_count as nat, cut as nat, requested_cap as int) {
            Some(bond) => r == Ok::<i64, SimulationError>(bond as i64),
            None => r matches Err(SimulationError::InvalidCircuit { reason })
                && reason@ == "invalid MPS bond request"@,
        },
{
    if requested_cap <= 0 {
        return Err(SimulationError::InvalidCircuit { reason: String::from_str("invalid MPS bond request") });
    }
    let left_mode_count = match cut.checked_add(1) {
        Some(count) => count,
        None => {
            return Err(SimulationError::InvalidCircuit { reason: String::from_str("invalid MPS bond request") });
        },
    };
    if qubit_count <= left_mode_count {
        return Err(SimulationError::InvalidCircuit { reason: String::from_str("invalid MPS bond request") });
    }
    let right_mode_count = qubit_count - left_mode_count;
    let left = saturating_power_of_two(left_mode_count);
    let right = saturating_power_of_two(right_mode_count);
    let capped = if requested_cap <= left { requested_cap } else { left };
    Ok(if capped <= right { capped } else { right })
}

/// Bond requests are mirror-symmetric: the cut after site `cut` and the cut
/// the same distance from the other end ask for the same extent.
pub proof fn law_target_bonds_mirror(qubit_count: usize, cut: usize, cap: i64)
    requires
        cut + 1 < qubit_count,
    ensures
        target_bond(qubit_count as nat, cut as nat, cap as int)
            == target_bond(qubit_count as nat, (qubit_count - 2 - cut) as nat, cap as int),
{
}

/// A valid bond request never exceeds the cap and is at least one.
pub proof fn law_target_bond_within_cap(qubit_count: usize, cut: usize, cap: i64)
    requires
        target_bond(qubit_count as nat, cut as nat, cap as int) is Some,
    ensures
        1 <= target_bond(qubit_count as nat, cut as nat, cap as int)->0 <= cap,
{
    lemma_pow2_pos((cut + 1) as nat);
    lemma_pow2_pos((qubit_count - cut - 1) as nat);
}

/// The bonds next to either boundary site are the cap limited to one qubit's
/// dimension, two.
pub proof fn law_edge_bonds_are_qubit_sized(qubit_count: usize, cap: i64)
    requires
        qubit_count >= 2,
        cap > 0,
    ensures
        target_bond(qubit_count as nat, 0, cap as int) == Some(if cap <= 2 { cap as int } else { 2int }),
        target_bond(qubit_count as nat, (qubit_count - 2) as nat, cap as int) == Some(if cap <= 2 { cap as int } else { 2int }),
{
    lemma2_to64();
    let rest = (qubit_count - 1) as nat;
    if rest < 63 {
        lemma_pow2_strictly_increases(0, rest);
        if rest > 1 {
            lemma_pow2_strictly_increases(1, rest);
        }
    }
}

/// Rejects a native workspace requirement above the policy's ceiling or above
/// the currently free device memory.
pub fn validate_workspace_size(required: u64, policy_maximum: u64, free_bytes: u64) -> (r: Result<(), SimulationError>)
    ensures
        required > policy_maximum ==> r == Err::<(), SimulationError>(
            SimulationError::WorkspaceLimitExceeded { required, maximum: policy_maximum }),
        required <= policy_maximum && required > free_bytes ==> r == Err::<(), SimulationError>(
            SimulationError::WorkspaceLimitExceeded { required, maximum: free_bytes }),
        required <= policy_maximum && required <= free_bytes ==> r is Ok,
{
    if required > policy_maximum {
        return Err(SimulationError::WorkspaceLimitExceeded { required, maximum: policy_maximum });
    }
    if required > free_bytes {
        return Err(SimulationError::WorkspaceLimitExceeded { required, maximum: free_bytes });
    }
    Ok(())
}

/// The native mode label of a qubit.
pub fn mode_id(qubit: u32) -> (r: Result<i32, SimulationError>)
    ensures
        qubit <= i32::MAX ==> r == Ok::<i32, SimulationError>(qubit as i32),
        qubit > i32::MAX ==> (r matches Err(SimulationError::InvalidCircuit { reason })
            && reason@ == "qubit "@ + decimal(qubit as nat) + " does not fit the native mode identifier"@),
{
    if qubit <= i32::MAX as u32 {
        Ok(qubit as i32)
    } else {
        let mut reason = String::from_str("qubit ");
        append_decimal(&mut reason, qubit as u64);
        reason.append(" does not fit the native mode identifier");
        Err(SimulationError::InvalidCircuit { reason })
    }
}

/// Every value is strictly positive.
pub open spec fn all_positive(rows: Seq<Seq<i64>>) -> bool {
    forall|i: int, j: int| 0 <= i < rows.len() && 0 <= j < rows[i].len() ==> #[trigger] rows[i][j] > 0
}

/// The same rows as unsigned extents or strides.
pub open spec fn as_usize_rows(rows: Seq<Seq<i64>>, converted: Seq<Seq<usize>>) -> bool {
    &&& converted.len() == rows.len()
    &&& forall|i: int| 0 <= i < rows.len() ==> (#[trigger] converted[i]).len() == rows[i].len()
    &&& forall|i: int, j: int| 0 <= i < rows.len() && 0 <= j < rows[i].len() ==>
            #[trigger] converted[i][j] as int == rows[i][j] as int
}

pub open spec fn row_views(rows: Seq<Vec<i64>>) -> Seq<Seq<i64>> {
    rows.map_values(|r: Vec<i64>| r@)
}

/// Every value fits `usize`.
pub open spec fn all_fit_usize(rows: Seq<Seq<i64>>) -> bool {
    forall|i: int, j: int| 0 <= i < rows.len() && 0 <= j < rows[i].len() ==> #[trigger] rows[i][j] <= usize::MAX
}

/// Converts native extents or strides to host sizes; every value must be
/// positive and fit `usize`.
pub fn convert_layout(label: &str, values: &Vec<Vec<i64>>) -> (r: Result<Vec<Vec<usize>>, SimulationError>)
    ensures
        r is Ok <==> all_positive(row_views(values@)) && all_fit_usize(row_views(values@)),
        r matches Ok(converted) ==> as_usize_rows(row_views(values@), converted@.map_values(|c: Vec<usize>| c@)),
        r matches Err(e) ==> e is InvalidNativeResult,
        all_fit_usize(row_views(values@)) && !all_positive(row_views(values@)) ==> (r matches Err(SimulationError::InvalidNativeResult { reason })
            && reason@ == "MPS "@ + label@ + " is not positive: "@ + "["@ + debug_rows(row_views(values@)) + "]"@),
{
    let ghost views = row_views(values@);
    let mut converted: Vec<Vec<usize>> = Vec::new();
    let mut i: usize = 0;
    while i < values.len()
        invariant
            i <= values@.len(),
            views == row_views(values@),
            converted@.len() == i,
            forall|k: int| 0 <= k < i ==> (#[trigger] converted@[k])@.len() == values@[k]@.len(),
            forall|k: int, j: int| 0 <= k < i && 0 <= j < values@[k]@.len() ==>
                #[trigger] converted@[k]@[j] as int == values@[k]@[j] as int,
            forall|k: int, j: int| 0 <= k < i && 0 <= j < values@[k]@.len() ==> #[trigger] values@[k]@[j] > 0,
            forall|k: int, j: int| 0 <= k < i && 0 <= j < values@[k]@.len() ==> #[trigger] values@[k]@[j] <= usize::MAX,
        decreases values@.len() - i,
    {
        let shape = &values[i];
        let mut row: Vec<usize> = Vec::new();
        let mut j: usize = 0;
        while j < shape.len()
            invariant
                i < values@.len(),
                shape == values@[i as int],
                views == row_views(values@),
                j <= shape@.len(),
                row@.len() == j,
                forall|m: int| 0 <= m < j ==> #[trigger] row@[m] as int == shape@[m] as int,
                forall|m: int| 0 <= m < j ==> #[trigger] shape@[m] > 0,
                forall|m: int| 0 <= m < j ==> #[trigger] shape@[m] <= usize::MAX,
            decreases shape@.len() - j,
        {
            let value = shape[j];
            if value <= 0 {
                let mut reason = String::from_str("MPS ");
                reason.append(label);
                reason.append(" is not positive: ");
                append_rows(&mut reason, values);
                proof {
                    assert(views[i as int][j as int] == value);
                    assert(!all_positive(views));
                }
                return Err(SimulationError::InvalidNativeResult { reason });
            }
            if value as u64 > usize::MAX as u64 {
                let mut reason = String::from_str("MPS ");
                reason.append(label);
                reason.append(" does not fit usize: ");
                append_rows(&mut reason, values);
                proof {
                    assert(views[i as int][j as int] == value);
                    assert(!all_fit_usize(views));
                }
                return Err(SimulationError::InvalidNativeResult { reason });
            }
            row.push(value as usize);
            j = j + 1;
        }
        converted.push(row);
        i = i + 1;
    }
    let ghost cv = converted@.map_values(|c: Vec<usize>| c@);
    proof {
        assert forall|k: int, j: int| 0 <= k < views.len() && 0 <= j < views[k].len() implies #[trigger] views[k][j] > 0 by {
            assert(views[k] == values@[k]@);
        }
        assert forall|k: int, j: int| 0 <= k < views.len() && 0 <= j < views[k].len() implies #[trigger] views[k][j] <= usize::MAX by {
            assert(views[k] == values@[k]@);
        }
        assert forall|k: int| 0 <= k < views.len() implies (#[trigger] cv[k]).len() == views[k].len() by {
            assert(views[k] == values@[k]@);
        }
        assert forall|k: int, j: int| 0 <= k < views.len() && 0 <= j < views[k].len() implies
            #[trigger] cv[k][j] as int == views[k][j] as int by {
            assert(views[k] == values@[k]@);
            assert(cv[k] == converted@[k]@);
        }
    }
    Ok(converted)
}

/// A single- or two-site operator on distinct native modes with a row-major
/// matrix of matching shape (4 or 16 entries).
#[derive(Debug)]
pub struct OwnedOperator<T> {
    pub modes: Vec<i32>,
    pub matrix: Vec<T>,
}

/// Why an operator description is rejected, checked in this order.
pub open spec fn operator_rejection(modes: Seq<i32>, matrix_len: nat) -> Option<Seq<char>> {
    if !(1 <= modes.len() <= 2) {
        Some("operator must act on one or two modes"@)
    } else if exists|i: int| 0 <= i < modes.len() && #[trigger] modes[i] < 0 {
        Some("operator modes must be nonnegative"@)
    } else if modes.len() == 2 && modes[0] == modes[1] {
        Some("two-site operator modes must differ"@)
    } else if matrix_len != (if modes.len() == 1 { 4nat } else { 16nat }) {
        Some("operator matrix shape does not match its arity"@)
    } else {
        None
    }
}

impl<T> OwnedOperator<T> {
    /// Accepts one or two distinct nonnegative modes and a square matrix over
    /// them.
    pub fn new(modes: Vec<i32>, matrix: Vec<T>) -> (r: Result<Self, SimulationError>)
        ensures
            match operator_rejection(modes@, matrix@.len()) {
                Some(reason) => r matches Err(SimulationError::InvalidCircuit { reason: text }) && text@ == reason,
                None => r matches Ok(op) && op.modes@ == modes@ && op.matrix@ == matrix@,
            },
    {
        if modes.len() < 1 || modes.len() > 2 {
            return Err(SimulationError::InvalidCircuit { reason: String::from_str("operator must act on one or two modes") });
        }
        let mut i: usize = 0;
        while i < modes.len()
            invariant
                1 <= modes@.len() <= 2,
                i <= modes@.len(),
                forall|j: int| 0 <= j < i ==> #[trigger] modes@[j] >= 0,
            decreases modes@.len() - i,
        {
            if modes[i] < 0 {
                assert(modes@[i as int] < 0);
                return Err(SimulationError::InvalidCircuit { reason: String::from_str("operator modes must be nonnegative") });
            }
            i = i + 1;
        }
        if modes.len() == 2 && modes[0] == modes[1] {
            return Err(SimulationError::InvalidCircuit { reason: String::from_str("two-site operator modes must differ") });
        }
        let expected_elements: usize = if modes.len() == 1 { 4 } else { 16 };
        if matrix.len() != expected_elements {
            return Err(SimulationError::InvalidCircuit { reason: String::from_str("operator matrix shape does not match its arity") });
        }
        Ok(OwnedOperator { modes, matrix })
    }
}

/// Outcome of multiplying tensor extents left to right, stopping at the first
/// nonpositive extent or the first product that exceeds `usize`.
pub enum ElementCount {
    Count(nat),
    NotPositive,
    Overflow,
}

pub open spec fn element_count(extents: Seq<i64>) -> ElementCount
    decreases extents.len(),
{
    if extents.len() == 0 {
        ElementCount::Count(1)
    } else {
        match element_count(extents.drop_last()) {
            ElementCount::Count(n) => {
                let e = extents.last();
                if e <= 0 {
                    ElementCount::NotPositive
                } else if n * (e as nat) > usize::MAX {
                    ElementCount::Overflow
                } else {
                    ElementCount::Count(n * (e as nat))
                }
            },
            other => other,
        }
    }
}

/// Number of elements of a tensor with the given extents.
pub fn checked_element_count(extents: &[i64], resource: &'static str) -> (r: Result<usize, SimulationError>)
    ensures
        match element_count(extents@) {
            ElementCount::Count(n) => r == Ok::<usize, SimulationError>(n as usize),
            ElementCount::NotPositive => r matches Err(SimulationError::InvalidNativeResult { reason })
                && reason@ == resource@ + " extent is not positive"@,
            ElementCount::Overflow => r == Err::<usize, SimulationError>(SimulationError::ResourceSizeOverflow { resource }),
        },
{
    let mut count: usize = 1;
    let mut i: usize = 0;
    while i < extents.len()
        invariant
            i <= extents@.len(),
            element_count(extents@.subrange(0, i as int)) == ElementCount::Count(count as nat),
            count >= 1,
        decreases extents@.len() - i,
    {
        proof {
            assert(extents@.subrange(0, i as int + 1).drop_last() =~= extents@.subrange(0, i as int));
        }
        let e = extents[i];
        if e <= 0 {
            proof { lemma_element_count_sticky(extents@, i as int + 1); }
            let mut reason = String::from_str(resource);
            reason.append(" extent is not positive");
            return Err(SimulationError::InvalidNativeResult { reason });
        }
        if e as u64 > usize::MAX as u64 {
            proof {
                assert(count as nat * (e as nat) > usize::MAX) by (nonlinear_arith)
                    requires count >= 1, e as nat > usize::MAX;
                lemma_element_count_sticky(extents@, i as int + 1);
            }
            return Err(SimulationError::ResourceSizeOverflow { resource });
        }
        match count.checked_mul(e as usize) {
            Some(next) => {
                proof {
                    let u = e as usize;
                    assert(next >= 1) by (nonlinear_arith)
                        requires count >= 1, u >= 1, next == count * u;
                }
                count = next;
            },
            None => {
                proof { lemma_element_count_sticky(extents@, i as int + 1); }
                return Err(SimulationError::ResourceSizeOverflow { resource });
            },
        }
        i = i + 1;
    }
    proof { assert(extents@.subrange(0, extents@.len() as int) =~= extents@); }
    Ok(count)
}

/// A fold over positive extents never stops at a nonpositive one.
proof fn lemma_positive_extents_counted(extents: Seq<i64>)
    requires
        forall|i: int| 0 <= i < extents.len() ==> #[trigger] extents[i] > 0,
    ensures
        !(element_count(extents) is NotPositive),
    decreases extents.len(),
{
    if extents.len() > 0 {
        lemma_positive_extents_counted(extents.drop_last());
    }
}

/// Once the left fold stops, extending the extents does not change the outcome.
proof fn lemma_element_count_sticky(extents: Seq<i64>, k: int)
    requires
        0 <= k <= extents.len(),
        !(element_count(extents.subrange(0, k)) is Count),
    ensures
        element_count(extents) == element_count(extents.subrange(0, k)),
    decreases extents.len() - k,
{
    if k < extents.len() {
        assert(extents.subrange(0, k + 1).drop_last() =~= extents.subrange(0, k));
        lemma_element_count_sticky(extents, k + 1);
    } else {
        assert(extents.subrange(0, k) =~= extents);
    }
}

/// Extents of site `site` of the requested chain: `[2, b0]`, `[b(s-1), 2, b(s)]`,
/// `[b(n-2), 2]`.
pub open spec fn target_site(bonds: Seq<i64>, qubit_count: nat, site: int) -> Seq<i64> {
    if site == 0 {
        seq![2i64, bonds[0]]
    } else if site + 1 == qubit_count {
        seq![bonds[site - 1], 2i64]
    } else {
        seq![bonds[site - 1], 2i64, bonds[site]]
    }
}

/// The requested MPS chain: per-site extents and output element counts.
pub struct MpsTarget {
    extents: Vec<Vec<i64>>,
    output_elements: Vec<usize>,
}

impl MpsTarget {
    pub closed spec fn sites(&self) -> Seq<Seq<i64>> {
        self.extents@.map_values(|v: Vec<i64>| v@)
    }

    pub closed spec fn elements(&self) -> Seq<usize> {
        self.output_elements@
    }

    /// The open-boundary chain over `qubit_count` qubits whose bonds are
    /// `target_bond_extent` of each cut; it needs at least two sites.
    pub fn new(qubit_count: usize, bond_cap: i64) -> (r: Result<Self, SimulationError>)
        ensures
            qubit_count < 2 ==> (r matches Err(SimulationError::InvalidCircuit { reason })
                && reason@ == "MPS simulation requires at least two qubits; use type=\"cpu\" for single-qubit circuits"@),
            qubit_count >= 2 && bond_cap <= 0 ==> (r matches Err(SimulationError::InvalidCircuit { reason })
                && reason@ == "invalid MPS bond request"@),
            r matches Ok(target) ==> qubit_count >= 2 && bond_cap > 0
                && target.sites().len() == qubit_count
                && target.elements().len() == qubit_count
                && forall|s: int| 0 <= s < qubit_count ==> {
                    let bonds = Seq::new((qubit_count - 1) as nat, |c: int| target_bond(qubit_count as nat, c as nat, bond_cap as int)->0 as i64);
                    &&& #[trigger] target.sites()[s] == target_site(bonds, qubit_count as nat, s)
                    &&& element_count(target.sites()[s]) == ElementCount::Count(target.elements()[s] as nat)
                },
            qubit_count >= 2 && bond_cap > 0 && r is Err ==> r == Err::<Self, SimulationError>(
                SimulationError::ResourceSizeOverflow { resource: "MPS output" }),
            qubit_count >= 2 && bond_cap > 0 && (forall|s: int| 0 <= s < qubit_count ==> #[trigger] element_count(
                target_site(target_bonds(qubit_count as nat, bond_cap as int), qubit_count as nat, s),
            ) is Count) ==> r is Ok,
    {
        if qubit_count < 2 {
            return Err(SimulationError::InvalidCircuit {
                reason: String::from_str("MPS simulation requires at least two qubits; use type=\"cpu\" for single-qubit circuits"),
            });
        }
        let ghost all_bonds = Seq::new((qubit_count - 1) as nat, |c: int| target_bond(qubit_count as nat, c as nat, bond_cap as int)->0 as i64);
        let mut bonds: Vec<i64> = Vec::new();
        let mut cut: usize = 0;
        while cut < qubit_count - 1
            invariant
                qubit_count >= 2,
                cut <= qubit_count - 1,
                bonds@.len() == cut,
                bond_cap > 0 || cut == 0,
                all_bonds == Seq::new((qubit_count - 1) as nat, |c: int| target_bond(qubit_count as nat, c as nat, bond_cap as int)->0 as i64),
                forall|c: int| 0 <= c < cut ==> #[trigger] bonds@[c] == all_bonds[c],
                forall|c: int| 0 <= c < cut ==> #[trigger] bonds@[c] > 0,
            decreases qubit_count - 1 - cut,
        {
            let bond = target_bond_extent(qubit_count, cut, bond_cap)?;
            proof {
                lemma_pow2_pos((cut + 1) as nat);
                lemma_pow2_pos((qubit_count - cut - 1) as nat);
            }
            bonds.push(bond);
            cut = cut + 1;
        }
        let mut extents: Vec<Vec<i64>> = Vec::new();
        let mut output_elements: Vec<usize> = Vec::new();
        let mut site: usize = 0;
        while site < qubit_count
            invariant
                qubit_count >= 2,
                bond_cap > 0,
                bonds@.len() == qubit_count - 1,
                forall|c: int| 0 <= c < qubit_count - 1 ==> #[trigger] bonds@[c] == all_bonds[c],
                forall|c: int| 0 <= c < qubit_count - 1 ==> #[trigger] bonds@[c] > 0,
                all_bonds.len() == qubit_count - 1,
                all_bonds =~= target_bonds(qubit_count as nat, bond_cap as int),
                site <= qubit_count,
                extents@.len() == site,
                output_elements@.len() == site,
                forall|s: int| 0 <= s < site ==> (#[trigger] extents@[s])@ == target_site(all_bonds, qubit_count as nat, s),
                forall|s: int| 0 <= s < site ==> element_count(#[trigger] extents@[s]@) == ElementCount::Count(output_elements@[s] as nat),
            decreases qubit_count - site,
        {
            let mut shape: Vec<i64> = Vec::new();
            if site == 0 {
                shape.push(2);
                shape.push(bonds[0]);
            } else if site + 1 == qubit_count {
                shape.push(bonds[site - 1]);
                shape.push(2);
            } else {
                shape.push(bonds[site - 1]);
                shape.push(2);
                shape.push(bonds[site]);
            }
            proof {
                assert(shape@ =~= target_site(all_bonds, qubit_count as nat, site as int));
                lemma_positive_extents_counted(shape@);
                assert(element_count(target_site(target_bonds(qubit_count as nat, bond_cap as int), qubit_count as nat, site as int))
                    == element_count(shape@));
            }
            let elements = checked_element_count(shape.as_slice(), "MPS output")?;
            extents.push(shape);
            output_elements.push(elements);
            site = site + 1;
        }
        let target = MpsTarget { extents, output_elements };
        proof {
            assert forall|s: int| 0 <= s < qubit_count implies {
                &&& #[trigger] target.sites()[s] == target_site(all_bonds, qubit_count as nat, s)
                &&& element_count(target.sites()[s]) == ElementCount::Count(target.elements()[s] as nat)
            } by {
                assert(target.sites()[s] == target.extents@[s]@);
            }
        }
        Ok(target)
    }

    pub fn site_count(&self) -> (n: usize)
        ensures
            n == self.sites().len(),
    {
        self.extents.len()
    }

    /// A copy of the requested extents, site by site.
    pub fn extents_copy(&self) -> (extents: Vec<Vec<i64>>)
        ensures
            extents@.map_values(|v: Vec<i64>| v@) == self.sites(),
    {
        let mut copy: Vec<Vec<i64>> = Vec::new();
        let mut s: usize = 0;
        while s < self.extents.len()
            invariant
                s <= self.extents@.len(),
                copy@.len() == s,
                forall|k: int| 0 <= k < s ==> (#[trigger] copy@[k])@ == self.extents@[k]@,
            decreases self.extents@.len() - s,
        {
            copy.push(self.extents[s].clone());
            s = s + 1;
        }
        assert(copy@.map_values(|v: Vec<i64>| v@) =~= self.sites());
        copy
    }

    /// Extents of one requested site.
    pub fn site(&self, site: usize) -> (extents: &[i64])
        requires
            site < self.sites().len(),
        ensures
            extents@ == self.sites()[site as int],
    {
        self.extents[site].as_slice()
    }

    /// Number of complex elements the native output buffer of one site holds.
    pub fn output_elements(&self, site: usize) -> (n: usize)
        requires
            site < self.elements().len(),
        ensures
            n == self.elements()[site as int],
    {
        self.output_elements[site]
    }
}

/// Rank of site `s` in an open chain of `n` sites: boundary sites carry one
/// bond, interior sites two.
pub open spec fn site_rank(n: nat, s: int) -> nat {
    if s == 0 || s == n - 1 { 2 } else { 3 }
}

/// The right bond extent of site `s` (its last extent).
pub open spec fn right_bond(sites: Seq<Seq<usize>>, s: int) -> usize {
    sites[s][sites[s].len() - 1]
}

/// A well-formed open MPS chain: at least two sites, the right ranks,
/// positive extents and matching bonds between neighbours.
pub open spec fn is_chain(sites: Seq<Seq<usize>>) -> bool {
    &&& sites.len() >= 2
    &&& forall|s: int| 0 <= s < sites.len() ==> (#[trigger] sites[s]).len() == site_rank(sites.len(), s)
    &&& forall|s: int, j: int| 0 <= s < sites.len() && 0 <= j < sites[s].len() ==> #[trigger] sites[s][j] > 0
    &&& forall|s: int| 1 <= s < sites.len() ==> right_bond(sites, s - 1) == (#[trigger] sites[s])[0]
}

/// Every realized extent is within the requested one, site by site.
pub open spec fn fits_within(realized: Seq<Seq<usize>>, target: Seq<Seq<i64>>) -> bool {
    &&& realized.len() == target.len()
    &&& forall|s: int| 0 <= s < realized.len() ==> (#[trigger] realized[s]).len() == target[s].len()
    &&& forall|s: int, j: int| 0 <= s < realized.len() && 0 <= j < realized[s].len() ==>
            #[trigger] realized[s][j] as int <= target[s][j] as int
}

/// The physical (qubit) extent of site `s`.
pub open spec fn physical_extent(sites: Seq<Seq<usize>>, s: int) -> usize {
    if s == 0 { sites[0][0] } else { sites[s][1] }
}

pub open spec fn all_qubits(sites: Seq<Seq<usize>>) -> bool {
    forall|s: int| 0 <= s < sites.len() ==> #[trigger] physical_extent(sites, s) == 2
}

pub open spec fn usize_rows(rows: Seq<Vec<usize>>) -> Seq<Seq<usize>> {
    rows.map_values(|r: Vec<usize>| r@)
}

/// Checks the chain the native library produced against the one requested:
/// it must be a well-formed chain, stay within the requested capacity, and
/// have qubit physical extents.
pub fn validate_realized_extents(realized: &Vec<Vec<usize>>, target: &MpsTarget) -> (r: Result<(), SimulationError>)
    ensures
        !is_chain(usize_rows(realized@)) ==> (r matches Err(SimulationError::InvalidNativeResult { reason })
            && reason@ == "realized MPS is not a valid chain"@),
        is_chain(usize_rows(realized@)) && !fits_within(usize_rows(realized@), target.sites()) ==>
            (r matches Err(SimulationError::InvalidNativeResult { reason })
            && reason@ == "realized extent exceeds target capacity"@),
        is_chain(usize_rows(realized@)) && fits_within(usize_rows(realized@), target.sites())
            && !all_qubits(usize_rows(realized@)) ==> (r matches Err(SimulationError::InvalidNativeResult { reason })
            && reason@ == "realized physical extent is not two"@),
        is_chain(usize_rows(realized@)) && fits_within(usize_rows(realized@), target.sites())
            && all_qubits(usize_rows(realized@)) ==> r is Ok,
{
    let ghost sites = usize_rows(realized@);
    let n = realized.len();
    let mut ok = n >= 2;
    let mut s: usize = 0;
    while ok && s < n
        invariant
            n == realized@.len(),
            sites == usize_rows(realized@),
            s <= n,
            ok ==> n >= 2,
            ok ==> forall|k: int| 0 <= k < s ==> (#[trigger] sites[k]).len() == site_rank(n as nat, k),
            ok ==> forall|k: int, j: int| 0 <= k < s && 0 <= j < sites[k].len() ==> #[trigger] sites[k][j] > 0,
            ok ==> forall|k: int| 1 <= k < s ==> right_bond(sites, k - 1) == (#[trigger] sites[k])[0],
            !ok ==> !is_chain(sites),
        decreases n - s,
    {
        let site = &realized[s];
        assert(sites[s as int] == site@);
        let rank: usize = if s == 0 || s == n - 1 { 2 } else { 3 };
        if site.len() != rank {
            ok = false;
        } else {
            let mut j: usize = 0;
            while ok && j < site.len()
                invariant
                    s < sites.len(),
                    sites[s as int] == site@,
                    j <= site@.len(),
                    ok ==> forall|m: int| 0 <= m < j ==> #[trigger] site@[m] > 0,
                    !ok ==> exists|m: int| 0 <= m < site@.len() && site@[m] == 0,
                decreases site@.len() - j,
            {
                if site[j] == 0 {
                    ok = false;
                }
                j = j + 1;
            }
            if !ok {
                proof {
                    let m = choose|m: int| 0 <= m < site@.len() && site@[m] == 0;
                    assert(sites[s as int][m] == 0);
                }
            }
            if ok && s > 0 {
                let previous = &realized[s - 1];
                assert(sites[s - 1] == previous@);
                if previous[previous.len() - 1] != site[0] {
                    ok = false;
                }
            }
        }
        s = s + 1;
    }
    if !ok {
        return Err(SimulationError::InvalidNativeResult { reason: String::from_str("realized MPS is not a valid chain") });
    }
    assert(is_chain(sites));
    if n != target.extents.len() {
        return Err(SimulationError::InvalidNativeResult { reason: String::from_str("realized extent exceeds target capacity") });
    }
    let mut s: usize = 0;
    while s < n
        invariant
            n == realized@.len(),
            n == target.sites().len(),
            sites == usize_rows(realized@),
            is_chain(sites),
            s <= n,
            forall|k: int| 0 <= k < s ==> (#[trigger] sites[k]).len() == target.sites()[k].len(),
            forall|k: int, j: int| 0 <= k < s && 0 <= j < sites[k].len() ==>
                #[trigger] sites[k][j] as int <= target.sites()[k][j] as int,
        decreases n - s,
    {
        let site = &realized[s];
        let limit = &target.extents[s];
        assert(sites[s as int] == site@);
        assert(target.sites()[s as int] == limit@);
        if site.len() != limit.len() {
            return Err(SimulationError::InvalidNativeResult { reason: String::from_str("realized extent exceeds target capacity") });
        }
        let mut j: usize = 0;
        while j < site.len()
            invariant
                n == realized@.len(),
                n == target.sites().len(),
                sites == usize_rows(realized@),
                is_chain(sites),
                s < n,
                sites[s as int] == site@,
                target.sites()[s as int] == limit@,
                site@.len() == limit@.len(),
                j <= site@.len(),
                forall|m: int| 0 <= m < j ==> #[trigger] site@[m] as int <= limit@[m] as int,
            decreases site@.len() - j,
        {
            if limit[j] < 0 || site[j] as u64 > limit[j] as u64 {
                assert(sites[s as int][j as int] as int > target.sites()[s as int][j as int] as int);
                return Err(SimulationError::InvalidNativeResult { reason: String::from_str("realized extent exceeds target capacity") });
            }
            j = j + 1;
        }
        s = s + 1;
    }
    assert(fits_within(sites, target.sites()));
    let mut s: usize = 0;
    while s < n
        invariant
            n == realized@.len(),
            sites == usize_rows(realized@),
            is_chain(sites),
            fits_within(sites, target.sites()),
            s <= n,
            forall|k: int| 0 <= k < s ==> #[trigger] physical_extent(sites, k) == 2,
        decreases n - s,
    {
        let site = &realized[s];
        assert(sites[s as int] == site@);
        let physical = if s == 0 { site[0] } else { site[1] };
        if physical != 2 {
            assert(physical_extent(sites, s as int) != 2);
            return Err(SimulationError::InvalidNativeResult { reason: String::from_str("realized physical extent is not two") });
        }
        s = s + 1;
    }
    Ok(())
}

/// Largest bond extent among the first `k` sites' right bonds.
pub open spec fn max_bond_prefix(sites: Seq<Seq<usize>>, k: nat) -> usize
    decreases k,
{
    if k == 0 {
        0
    } else {
        let rest = max_bond_prefix(sites, (k - 1) as nat);
        let b = right_bond(sites, k - 1);
        if b >= rest { b } else { rest }
    }
}

/// The largest bond extent of a chain.
pub fn maximum_bond(realized: &Vec<Vec<usize>>) -> (m: usize)
    requires
        is_chain(usize_rows(realized@)),
    ensures
        m == max_bond_prefix(usize_rows(realized@), (realized@.len() - 1) as nat),
{
    let ghost sites = usize_rows(realized@);
    let n = realized.len();
    let mut m: usize = 0;
    let mut s: usize = 0;
    while s < n - 1
        invariant
            n == realized@.len(),
            sites == usize_rows(realized@),
            is_chain(sites),
            s + 1 <= realized@.len(),
            m == max_bond_prefix(sites, s as nat),
        decreases realized@.len() - s,
    {
        let site = &realized[s];
        assert(sites[s as int] == site@);
        assert(site@.len() == site_rank(sites.len(), s as int));
        let b = site[site.len() - 1];
        if b >= m {
            m = b;
        }
        s = s + 1;
    }
    m
}

} // verus!
