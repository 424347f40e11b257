//! Circuits over a fixed number of qubits, the Trotterized domain-wall
//! fixture, and their canonical textual description.
//!
//! Rotation angles are IEEE-754 binary64 values carried as their bit
//! patterns; only their finiteness matters to the circuit.

use vstd::prelude::*;
use vstd::string::*;
use vstd::arithmetic::div_mod::*;
use crate::error::SimulationError;
use crate::policy::binary64_is_finite;
use crate::text::{append_decimal, append_hex_digits, append_sizes, debug_sizes, decimal, hex_digits};
use vstd::arithmetic::power2::*;
use vstd::bits::*;

verus! {

/// One gate of the supported set; `theta` is the bit pattern of the angle.
#[derive(Clone, Copy, Debug, PartialEq, Eq, Structural)]
pub enum Gate {
    X { target: u32 },
    H { target: u32 },
    Rx { theta: u64, target: u32 },
    Rz { theta: u64, target: u32 },
    Cnot { control: u32, target: u32 },
}

/// "qubit q is outside a n-qubit circuit"
pub open spec fn outside_message(qubit: u32, qubit_count: u32) -> Seq<char> {
    "qubit "@ + decimal(qubit as nat) + " is outside a "@ + decimal(qubit_count as nat) + "-qubit circuit"@
}

/// Why a gate cannot be appended to a circuit of `qubit_count` qubits,
/// checked operand by operand.
pub open spec fn gate_rejection(qubit_count: u32, gate: Gate) -> Option<Seq<char>> {
    match gate {
        Gate::X { target } | Gate::H { target } =>
            if target >= qubit_count { Some(outside_message(target, qubit_count)) } else { None },
        Gate::Rx { theta, target } | Gate::Rz { theta, target } =>
            if target >= qubit_count {
                Some(outside_message(target, qubit_count))
            } else if !binary64_is_finite(theta) {
                Some("rotation angle must be finite"@)
            } else {
                None
            },
        Gate::Cnot { control, target } =>
            if control >= qubit_count {
                Some(outside_message(control, qubit_count))
            } else if target >= qubit_count {
                Some(outside_message(target, qubit_count))
            } else if control == target {
                Some("CNOT control and target must be different qubits"@)
            } else {
                None
            },
    }
}

/// A gate list over `qubit_count >= 1` qubits in which every gate is valid.
#[derive(Debug, PartialEq, Eq)]
pub struct Circuit {
    qubit_count: u32,
    gates: Vec<Gate>,
}

impl Circuit {
    #[verifier::type_invariant]
    spec fn well_formed(&self) -> bool {
        &&& self.qubit_count >= 1
        &&& forall|i: int| 0 <= i < self.gates@.len() ==> gate_rejection(self.qubit_count, #[trigger] self.gates@[i]) is None
    }

    pub closed spec fn width(&self) -> u32 {
        self.qubit_count
    }

    pub closed spec fn gate_list(&self) -> Seq<Gate> {
        self.gates@
    }

    /// An empty circuit; it needs at least one qubit.
    pub fn new(qubit_count: u32) -> (r: Result<Self, SimulationError>)
        ensures
            qubit_count == 0 ==> (r matches Err(SimulationError::InvalidCircuit { reason })
                && reason@ == "a circuit must contain at least one qubit"@),
            qubit_count > 0 ==> (r matches Ok(c) && c.width() == qubit_count && c.gate_list() == Seq::<Gate>::empty()),
    {
        if qubit_count == 0 {
            return Err(SimulationError::InvalidCircuit {
                reason: String::from_str("a circuit must contain at least one qubit"),
            });
        }
        Ok(Circuit { qubit_count, gates: Vec::new() })
    }

    pub fn qubit_count(&self) -> (n: u32)
        ensures
            n == self.width(),
    {
        self.qubit_count
    }

    /// The gates in order; every gate of a circuit is valid for its width,
    /// whichever way the circuit was built.
    pub fn gates(&self) -> (gates: &[Gate])
        ensures
            gates@ == self.gate_list(),
            self.width() >= 1,
            forall|i: int| 0 <= i < gates@.len() ==> gate_rejection(self.width(), #[trigger] gates@[i]) is None,
    {
        proof { use_type_invariant(self); }
        self.gates.as_slice()
    }

    fn validate_qubit(&self, qubit: u32) -> (r: Result<(), SimulationError>)
        ensures
            qubit < self.width() ==> r is Ok,
            qubit >= self.width() ==> (r matches Err(SimulationError::InvalidCircuit { reason })
                && reason@ == outside_message(qubit, self.width())),
    {
        if qubit >= self.qubit_count {
            let mut reason = String::from_str("qubit ");
            append_decimal(&mut reason, qubit as u64);
            reason.append(" is outside a ");
            append_decimal(&mut reason, self.qubit_count as u64);
            reason.append("-qubit circuit");
            Err(SimulationError::InvalidCircuit { reason })
        } else {
            Ok(())
        }
    }

    /// Appends a gate after checking its qubits (and, for rotations, that the
    /// angle is finite); a rejected gate leaves the circuit unchanged.
    pub fn push(&mut self, gate: Gate) -> (r: Result<(), SimulationError>)
        ensures
            final(self).width() == old(self).width(),
            match gate_rejection(old(self).width(), gate) {
                Some(reason) => (r matches Err(SimulationError::InvalidCircuit { reason: text }) && text@ == reason)
                    && final(self).gate_list() == old(self).gate_list(),
                None => r is Ok && final(self).gate_list() == old(self).gate_list().push(gate),
            },
    {
        match gate {
            Gate::X { target } | Gate::H { target } => {
                self.validate_qubit(target)?;
            },
            Gate::Rx { theta, target } | Gate::Rz { theta, target } => {
                self.validate_qubit(target)?;
                if (theta / 0x10_0000_0000_0000) % 0x800 == 0x7ff {
                    return Err(SimulationError::InvalidCircuit {
                        reason: String::from_str("rotation angle must be finite"),
                    });
                }
            },
            Gate::Cnot { control, target } => {
                self.validate_qubit(control)?;
                self.validate_qubit(target)?;
                if control == target {
                    return Err(SimulationError::InvalidCircuit {
                        reason: String::from_str("CNOT control and target must be different qubits"),
                    });
                }
            },
        }
        proof { use_type_invariant(&*self); }
        let mut gates: Vec<Gate> = Vec::new();
        std::mem::swap(&mut gates, &mut self.gates);
        gates.push(gate);
        self.gates = gates;
        Ok(())
    }
}

/// Number of X gates that prepare the domain wall: the upper half of the
/// register, `qubit_count - qubit_count / 2` qubits.
pub open spec fn wall_len(qubit_count: nat) -> nat {
    (qubit_count - qubit_count / 2) as nat
}

/// Gates of one Trotter step: for each bond a CNOT, Rz on the upper qubit and
/// CNOT again, then Rx on every qubit; `4 * qubit_count - 3` gates.
pub open spec fn step_len(qubit_count: nat) -> nat {
    (4 * qubit_count - 3) as nat
}

/// Gate `k` of one Trotter step.
pub open spec fn step_gate(qubit_count: nat, angle: u64, k: int) -> Gate {
    if k < 3 * (qubit_count - 1) {
        let control = k / 3;
        if k % 3 == 1 {
            Gate::Rz { theta: angle, target: (control + 1) as u32 }
        } else {
            Gate::Cnot { control: control as u32, target: (control + 1) as u32 }
        }
    } else {
        Gate::Rx { theta: angle, target: (k - 3 * (qubit_count - 1)) as u32 }
    }
}

/// Gate `i` of the domain-wall fixture: the wall of X gates on qubits
/// `qubit_count / 2 ..`, then `steps` repetitions of the Trotter step.
pub open spec fn trotter_gate(qubit_count: nat, angle: u64, i: int) -> Gate {
    if i < wall_len(qubit_count) {
        Gate::X { target: (qubit_count / 2 + i) as u32 }
    } else {
        step_gate(qubit_count, angle, (i - wall_len(qubit_count)) % (step_len(qubit_count) as int))
    }
}

pub open spec fn trotter_gates(qubit_count: nat, steps: nat, angle: u64) -> Seq<Gate> {
    Seq::new(wall_len(qubit_count) + steps * step_len(qubit_count), |i: int| trotter_gate(qubit_count, angle, i))
}

proof fn lemma_step_index(qubit_count: nat, step: nat, k: int)
    requires
        qubit_count >= 1,
        0 <= k < step_len(qubit_count),
    ensures
        ((step * step_len(qubit_count) + k) % (step_len(qubit_count) as int)) == k,
{
    lemma_fundamental_div_mod_converse(
        step * step_len(qubit_count) + k,
        step_len(qubit_count) as int,
        step as int,
        k,
    );
}

impl Circuit {
    /// The Trotterized domain-wall fixture: X on qubits `qubit_count / 2 ..`,
    /// then `steps` steps of ZZ(angle) on each bond followed by Rx(angle) on
    /// each qubit. `angle` is the bit pattern of the rotation angle.
    pub fn trotter_domain_wall(qubit_count: u32, steps: u32, angle: u64) -> (r: Result<Self, SimulationError>)
        ensures
            qubit_count == 0 ==> (r matches Err(SimulationError::InvalidCircuit { reason })
                && reason@ == "a circuit must contain at least one qubit"@),
            qubit_count > 0 && steps > 0 && !binary64_is_finite(angle) ==> (r matches Err(SimulationError::InvalidCircuit { reason })
                && reason@ == "rotation angle must be finite"@),
            qubit_count > 0 && (steps == 0 || binary64_is_finite(angle)) ==> (r matches Ok(c)
                && c.width() == qubit_count
                && c.gate_list() == trotter_gates(qubit_count as nat, steps as nat, angle)),
    {
        let mut circuit = Self::new(qubit_count)?;
        let ghost n = qubit_count as nat;
        let ghost wall = wall_len(n);
        let ghost len = step_len(n);
        let mut target: u32 = qubit_count / 2;
        while target < qubit_count
            invariant
                n == qubit_count as nat,
                qubit_count >= 1,
                wall == wall_len(n),
                qubit_count / 2 <= target <= qubit_count,
                circuit.width() == qubit_count,
                circuit.gate_list() == Seq::new((target - qubit_count / 2) as nat, |i: int| trotter_gate(n, angle, i)),
            decreases qubit_count - target,
        {
            let ghost before = circuit.gate_list();
            circuit.push(Gate::X { target })?;
            proof {
                assert(circuit.gate_list() =~= Seq::new((target + 1 - qubit_count / 2) as nat, |i: int| trotter_gate(n, angle, i)));
            }
            target = target + 1;
        }
        let mut step: u32 = 0;
        while step < steps
            invariant
                n == qubit_count as nat,
                qubit_count >= 1,
                wall == wall_len(n),
                len == step_len(n),
                step <= steps,
                step > 0 ==> binary64_is_finite(angle),
                circuit.width() == qubit_count,
                circuit.gate_list() == Seq::new((wall + step * len) as nat, |i: int| trotter_gate(n, angle, i)),
            decreases steps - step,
        {
            let ghost base = wall + step * len;
            let mut control: u32 = 0;
            while control < qubit_count - 1
                invariant
                    n == qubit_count as nat,
                    qubit_count >= 1,
                    wall == wall_len(n),
                    len == step_len(n),
                    steps > 0,
                    base == wall + step * len,
                    control <= qubit_count - 1,
                    circuit.width() == qubit_count,
                    circuit.gate_list() == Seq::new((base + 3 * control) as nat, |i: int| trotter_gate(n, angle, i)),
                decreases qubit_count - 1 - control,
            {
                let target = control + 1;
                proof {
                    lemma_step_index(n, step as nat, 3 * control);
                    lemma_step_index(n, step as nat, 3 * control + 1);
                    lemma_step_index(n, step as nat, 3 * control + 2);
                    assert((3 * control) / 3 == control);
                    assert((3 * control + 1) / 3 == control);
                    assert((3 * control + 2) / 3 == control);
                }
                circuit.push(Gate::Cnot { control, target })?;
                circuit.push(Gate::Rz { theta: angle, target })?;
                circuit.push(Gate::Cnot { control, target })?;
                proof {
                    assert(circuit.gate_list() =~= Seq::new((base + 3 * (control + 1)) as nat, |i: int| trotter_gate(n, angle, i)));
                }
                control = control + 1;
            }
            let mut target: u32 = 0;
            while target < qubit_count
                invariant
                    n == qubit_count as nat,
                    qubit_count >= 1,
                    wall == wall_len(n),
                    len == step_len(n),
                    steps > 0,
                    base == wall + step * len,
                    target <= qubit_count,
                    target > 0 ==> binary64_is_finite(angle),
                    circuit.width() == qubit_count,
                    circuit.gate_list() == Seq::new((base + 3 * (n - 1) + target) as nat, |i: int| trotter_gate(n, angle, i)),
                decreases qubit_count - target,
            {
                proof {
                    lemma_step_index(n, step as nat, 3 * (n - 1) + target);
                }
                circuit.push(Gate::Rx { theta: angle, target })?;
                proof {
                    assert(circuit.gate_list() =~= Seq::new((base + 3 * (n - 1) + target + 1) as nat, |i: int| trotter_gate(n, angle, i)));
                }
                target = target + 1;
            }
            proof {
                assert(wall + (step + 1) * len == base + 3 * (n - 1) + n) by (nonlinear_arith)
                    requires base == wall + step * len, len == 4 * n - 3, n >= 1;
            }
            step = step + 1;
        }
        proof {
            assert(circuit.gate_list() =~= trotter_gates(n, steps as nat, angle));
        }
        Ok(circuit)
    }
}

/// The fixture has the wall plus `4 * qubit_count - 3` gates per step.
pub proof fn law_trotter_gate_count(qubit_count: u32, steps: u32, angle: u64)
    requires
        qubit_count >= 1,
    ensures
        trotter_gates(qubit_count as nat, steps as nat, angle).len()
            == (qubit_count - qubit_count / 2) + steps * (4 * qubit_count - 3),
{
}

/// The text of one gate in the canonical description.
pub open spec fn gate_text(gate: Gate) -> Seq<char> {
    match gate {
        Gate::X { target } => "x:"@ + decimal(target as nat) + ";"@,
        Gate::H { target } => "h:"@ + decimal(target as nat) + ";"@,
        Gate::Rx { theta, target } => "rx:"@ + decimal(target as nat) + ":"@ + hex_digits(theta as nat, 16) + ";"@,
        Gate::Rz { theta, target } => "rz:"@ + decimal(target as nat) + ":"@ + hex_digits(theta as nat, 16) + ";"@,
        Gate::Cnot { control, target } => "cx:"@ + decimal(control as nat) + ":"@ + decimal(target as nat) + ";"@,
    }
}

pub open spec fn gates_text(gates: Seq<Gate>) -> Seq<char>
    decreases gates.len(),
{
    if gates.len() == 0 {
        seq![]
    } else {
        gates_text(gates.drop_last()) + gate_text(gates.last())
    }
}

/// The canonical description: `width=N;` followed by each gate's text, with
/// rotation angles as 16 hexadecimal digits of their bit patterns.
pub open spec fn canonical_text(qubit_count: u32, gates: Seq<Gate>) -> Seq<char> {
    "width="@ + decimal(qubit_count as nat) + ";"@ + gates_text(gates)
}

fn append_gate(out: &mut String, gate: Gate)
    ensures
        final(out)@ == old(out)@ + gate_text(gate),
{
    let ghost start = out@;
    match gate {
        Gate::X { target } => {
            out.append("x:");
            append_decimal(out, target as u64);
            out.append(";");
        },
        Gate::H { target } => {
            out.append("h:");
            append_decimal(out, target as u64);
            out.append(";");
        },
        Gate::Rx { theta, target } => {
            out.append("rx:");
            append_decimal(out, target as u64);
            out.append(":");
            append_hex_digits(out, theta, 16);
            out.append(";");
        },
        Gate::Rz { theta, target } => {
            out.append("rz:");
            append_decimal(out, target as u64);
            out.append(":");
            append_hex_digits(out, theta, 16);
            out.append(";");
        },
        Gate::Cnot { control, target } => {
            out.append("cx:");
            append_decimal(out, control as u64);
            out.append(":");
            append_decimal(out, target as u64);
            out.append(";");
        },
    }
    assert(out@ =~= start + gate_text(gate));
}

impl Circuit {
    /// A deterministic text that identifies the circuit exactly.
    pub fn canonical_description(&self) -> (text: String)
        ensures
            text@ == canonical_text(self.width(), self.gate_list()),
    {
        let mut text = String::from_str("width=");
        append_decimal(&mut text, self.qubit_count as u64);
        text.append(";");
        let ghost header = text@;
        let mut i: usize = 0;
        while i < self.gates.len()
            invariant
                i <= self.gates@.len(),
                header == "width="@ + decimal(self.qubit_count as nat) + ";"@,
                text@ == header + gates_text(self.gates@.subrange(0, i as int)),
            decreases self.gates@.len() - i,
        {
            append_gate(&mut text, self.gates[i]);
            proof {
                let prefix = self.gates@.subrange(0, i as int + 1);
                assert(prefix.drop_last() =~= self.gates@.subrange(0, i as int));
                assert(prefix.last() == self.gates@[i as int]);
                assert(text@ =~= header + gates_text(prefix));
            }
            i = i + 1;
        }
        proof {
            assert(self.gates@.subrange(0, self.gates@.len() as int) =~= self.gates@);
        }
        text
    }
}

/// Native mode labels a gate acts on, in operand order (control before target).
pub open spec fn gate_modes(gate: Gate) -> Seq<u32> {
    match gate {
        Gate::X { target } | Gate::H { target } | Gate::Rx { target, .. } | Gate::Rz { target, .. } => seq![target],
        Gate::Cnot { control, target } => seq![control, target],
    }
}

/// Whether each operand qubit fits the signed 32-bit range of native labels.
pub open spec fn modes_fit(gate: Gate) -> bool {
    match gate {
        Gate::X { target } | Gate::H { target } | Gate::Rx { target, .. } | Gate::Rz { target, .. } => target <= i32::MAX,
        Gate::Cnot { control, target } => control <= i32::MAX && target <= i32::MAX,
    }
}

/// The native modes of a gate's operator, in operand order.
pub fn operator_modes(gate: Gate) -> (r: Result<Vec<i32>, SimulationError>)
    ensures
        modes_fit(gate) ==> (r matches Ok(modes) && modes@ == gate_modes(gate).map_values(|m: u32| m as i32)),
        !modes_fit(gate) ==> r matches Err(SimulationError::InvalidCircuit { .. }),
{
    let mut modes: Vec<i32> = Vec::new();
    match gate {
        Gate::X { target } | Gate::H { target } | Gate::Rx { target, .. } | Gate::Rz { target, .. } => {
            modes.push(crate::mps::mode_id(target)?);
        },
        Gate::Cnot { control, target } => {
            modes.push(crate::mps::mode_id(control)?);
            modes.push(crate::mps::mode_id(target)?);
        },
    }
    assert(modes@ =~= gate_modes(gate).map_values(|m: u32| m as i32));
    Ok(modes)
}

/// Largest element index a strided tensor layout addresses, folding over the
/// axes that have both an extent and a stride; `None` when an extent is zero
/// or the index overflows `usize`.
pub open spec fn layout_max_index(extents: Seq<usize>, strides: Seq<usize>, k: nat) -> Option<nat>
    decreases k,
{
    if k == 0 {
        Some(0)
    } else {
        match layout_max_index(extents, strides, (k - 1) as nat) {
            Some(index) => {
                let e = extents[k - 1];
                if e == 0 {
                    None
                } else {
                    let offset = ((e - 1) * strides[k - 1]) as nat;
                    if offset > usize::MAX || index + offset > usize::MAX { None } else { Some(index + offset) }
                }
            },
            None => None,
        }
    }
}

pub open spec fn min_len(a: nat, b: nat) -> nat {
    if a <= b { a } else { b }
}

/// Why a strided tensor layout does not fit its buffer.
pub open spec fn storage_rejection(label: Seq<char>, length: usize, extents: Seq<usize>, strides: Seq<usize>) -> Option<Seq<char>> {
    if strides.contains(0) {
        Some(label + " MPS tensor has a zero stride: "@ + "["@ + debug_sizes(strides) + "]"@)
    } else {
        match layout_max_index(extents, strides, min_len(extents.len(), strides.len())) {
            None => Some(label + " MPS layout overflows usize"@),
            Some(index) => if index >= length {
                Some(label + " MPS layout requires index "@ + decimal(index) + ", but capacity is "@ + decimal(length as nat))
            } else {
                None
            },
        }
    }
}

/// Checks that a strided tensor of `length` elements holds every index its
/// extents and strides address.
pub fn validate_storage(label: &str, length: usize, extents: &[usize], strides: &[usize]) -> (r: Result<(), SimulationError>)
    ensures
        match storage_rejection(label@, length, extents@, strides@) {
            Some(reason) => r matches Err(SimulationError::InvalidNativeResult { reason: text }) && text@ == reason,
            None => r is Ok,
        },
{
    let mut i: usize = 0;
    while i < strides.len()
        invariant
            i <= strides@.len(),
            forall|j: int| 0 <= j < i ==> strides@[j] != 0,
        decreases strides@.len() - i,
    {
        if strides[i] == 0 {
            assert(strides@[i as int] == 0);
            let mut reason = String::from_str(label);
            reason.append(" MPS tensor has a zero stride: ");
            append_sizes(&mut reason, strides);
            return Err(SimulationError::InvalidNativeResult { reason });
        }
        i = i + 1;
    }
    assert(!strides@.contains(0)) by {
        if strides@.contains(0) {
            let j = choose|j: int| 0 <= j < strides@.len() && strides@[j] == 0;
            assert(strides@[j] != 0);
        }
    }
    let count = if extents.len() <= strides.len() { extents.len() } else { strides.len() };
    let mut maximum_index: usize = 0;
    let mut k: usize = 0;
    while k < count
        invariant
            !strides@.contains(0),
            count == min_len(extents@.len(), strides@.len()),
            k <= count,
            layout_max_index(extents@, strides@, k as nat) == Some(maximum_index as nat),
        decreases count - k,
    {
        let extent = extents[k];
        if extent == 0 {
            proof { lemma_layout_none_sticky(extents@, strides@, (k + 1) as nat, count as nat); }
            let mut reason = String::from_str(label);
            reason.append(" MPS layout overflows usize");
            return Err(SimulationError::InvalidNativeResult { reason });
        }
        let next = match (extent - 1).checked_mul(strides[k]) {
            Some(offset) => maximum_index.checked_add(offset),
            None => None,
        };
        match next {
            Some(index) => {
                maximum_index = index;
            },
            None => {
                proof { lemma_layout_none_sticky(extents@, strides@, (k + 1) as nat, count as nat); }
                let mut reason = String::from_str(label);
                reason.append(" MPS layout overflows usize");
                return Err(SimulationError::InvalidNativeResult { reason });
            },
        }
        k = k + 1;
    }
    if maximum_index >= length {
        let mut reason = String::from_str(label);
        reason.append(" MPS layout requires index ");
        append_decimal(&mut reason, maximum_index as u64);
        reason.append(", but capacity is ");
        append_decimal(&mut reason, length as u64);
        return Err(SimulationError::InvalidNativeResult { reason });
    }
    Ok(())
}

proof fn lemma_layout_none_sticky(extents: Seq<usize>, strides: Seq<usize>, k: nat, n: nat)
    requires
        k <= n,
        layout_max_index(extents, strides, k) is None,
    ensures
        layout_max_index(extents, strides, n) is None,
    decreases n - k,
{
    if k < n {
        lemma_layout_none_sticky(extents, strides, k + 1, n);
    }
}

proof fn lemma_layout_rejection_sticky(lengths: Seq<usize>, extents: Seq<Seq<usize>>, strides: Seq<Seq<usize>>, k: nat, n: nat)
    requires
        k <= n,
        layout_rejection(lengths, extents, strides, k) is Some,
    ensures
        layout_rejection(lengths, extents, strides, n) == layout_rejection(lengths, extents, strides, k),
    decreases n - k,
{
    if k < n {
        lemma_layout_rejection_sticky(lengths, extents, strides, k + 1, n);
    }
}

/// Why site `site` of a native open MPS readout is malformed.
pub open spec fn site_rejection(lengths: Seq<usize>, extents: Seq<Seq<usize>>, strides: Seq<Seq<usize>>, site: int) -> Option<Seq<char>> {
    let last = lengths.len() - 1;
    let rank: nat = if site == 0 || site == last { 2 } else { 3 };
    let physical = if site == 0 { 0int } else { 1int };
    let label = "site "@ + decimal(site as nat);
    if extents[site].len() != rank || strides[site].len() != rank {
        Some("MPS site "@ + decimal(site as nat) + " has an invalid rank"@)
    } else if extents[site][physical] != 2 {
        Some("MPS site "@ + decimal(site as nat) + " has a non-qubit physical extent"@)
    } else if site > 0 && extents[site - 1][extents[site - 1].len() - 1] != extents[site][0] {
        Some("MPS bond before site "@ + decimal(site as nat) + " is inconsistent"@)
    } else {
        storage_rejection(label, lengths[site], extents[site], strides[site])
    }
}

/// The first malformed site among the first `k`.
pub open spec fn layout_rejection(lengths: Seq<usize>, extents: Seq<Seq<usize>>, strides: Seq<Seq<usize>>, k: nat) -> Option<Seq<char>>
    decreases k,
{
    if k == 0 {
        None
    } else {
        match layout_rejection(lengths, extents, strides, (k - 1) as nat) {
            Some(reason) => Some(reason),
            None => site_rejection(lengths, extents, strides, k - 1),
        }
    }
}

/// Checks a native open-boundary MPS readout (buffer lengths, extents and
/// strides of each site) before it is contracted to a dense state, and returns
/// the number of amplitudes of that state.
pub fn validate_open_mps(lengths: &[usize], extents: &Vec<Vec<usize>>, strides: &Vec<Vec<usize>>) -> (r: Result<usize, SimulationError>)
    ensures
        ({
            let ev = extents@.map_values(|v: Vec<usize>| v@);
            let sv = strides@.map_values(|v: Vec<usize>| v@);
            let n = lengths@.len();
            &&& (n < 2 || n != extents@.len() || n != strides@.len()) ==> (r matches Err(SimulationError::InvalidNativeResult { reason })
                && reason@ == "MPS tensor, extent, and stride counts do not match"@)
            &&& !(n < 2 || n != extents@.len() || n != strides@.len()) ==> match layout_rejection(lengths@, ev, sv, n) {
                Some(reason) => r matches Err(SimulationError::InvalidNativeResult { reason: text }) && text@ == reason,
                None => if n < usize::BITS {
                    r == Ok::<usize, SimulationError>(pow2(n) as usize)
                } else {
                    r == Err::<usize, SimulationError>(SimulationError::ResourceSizeOverflow { resource: "dense state" })
                },
            }
        }),
{
    let ghost ev = extents@.map_values(|v: Vec<usize>| v@);
    let ghost sv = strides@.map_values(|v: Vec<usize>| v@);
    let n = lengths.len();
    if n < 2 || n != extents.len() || n != strides.len() {
        return Err(SimulationError::InvalidNativeResult {
            reason: String::from_str("MPS tensor, extent, and stride counts do not match"),
        });
    }
    let last = n - 1;
    let mut site: usize = 0;
    while site < n
        invariant
            n == lengths@.len(),
            n == extents@.len(),
            n == strides@.len(),
            n >= 2,
            last == n - 1,
            ev == extents@.map_values(|v: Vec<usize>| v@),
            sv == strides@.map_values(|v: Vec<usize>| v@),
            site <= n,
            layout_rejection(lengths@, ev, sv, site as nat) is None,
        decreases n - site,
    {
        let site_extents = &extents[site];
        let site_strides = &strides[site];
        assert(ev[site as int] == site_extents@);
        assert(sv[site as int] == site_strides@);
        let rank: usize = if site == 0 || site == last { 2 } else { 3 };
        if site_extents.len() != rank || site_strides.len() != rank {
            let mut reason = String::from_str("MPS site ");
            append_decimal(&mut reason, site as u64);
            reason.append(" has an invalid rank");
            proof { lemma_layout_rejection_sticky(lengths@, ev, sv, (site + 1) as nat, n as nat); }
            return Err(SimulationError::InvalidNativeResult { reason });
        }
        let physical: usize = if site != 0 { 1 } else { 0 };
        if site_extents[physical] != 2 {
            let mut reason = String::from_str("MPS site ");
            append_decimal(&mut reason, site as u64);
            reason.append(" has a non-qubit physical extent");
            proof { lemma_layout_rejection_sticky(lengths@, ev, sv, (site + 1) as nat, n as nat); }
            return Err(SimulationError::InvalidNativeResult { reason });
        }
        if site > 0 {
            let previous = &extents[site - 1];
            assert(ev[site - 1] == previous@);
            if previous[previous.len() - 1] != site_extents[0] {
                let mut reason = String::from_str("MPS bond before site ");
                append_decimal(&mut reason, site as u64);
                reason.append(" is inconsistent");
                proof { lemma_layout_rejection_sticky(lengths@, ev, sv, (site + 1) as nat, n as nat); }
                return Err(SimulationError::InvalidNativeResult { reason });
            }
        }
        let mut label = String::from_str("site ");
        append_decimal(&mut label, site as u64);
        let stored = validate_storage(label.as_str(), lengths[site], site_extents.as_slice(), site_strides.as_slice());
        if stored.is_err() {
            proof { lemma_layout_rejection_sticky(lengths@, ev, sv, (site + 1) as nat, n as nat); }
            return stored.map(|_u: ()| 0usize);
        }
        site = site + 1;
    }
    if n >= usize::BITS as usize {
        return Err(SimulationError::ResourceSizeOverflow { resource: "dense state" });
    }
    let width = n as u32;
    proof {
        lemma_usize_pow2_no_overflow(n as nat);
        assert(1 * pow2(n as nat) == pow2(n as nat));
        lemma_usize_shl_is_mul(1, n);
    }
    let count = 1usize << n;
    Ok(count)
}

} // verus!
