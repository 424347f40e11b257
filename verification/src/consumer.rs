//! Replaying precomputed whole-state samples as the measurement outcomes of
//! one shot of a single-region adaptive program.

use vstd::prelude::*;

verus! {

/// Qubit identifiers of the program being sampled.
pub type QubitId = usize;

/// Why a shot cannot be answered from the sample matrix.
#[derive(Debug, Clone, Copy, PartialEq, Eq)]
pub enum ConsumerError {
    UnsupportedRegionCount { actual: usize },
    UnsupportedFeedforward { qubit: QubitId },
    UnsupportedMeasurementAfterReset { qubit: QubitId },
    InvalidMeasurementMetadata,
    InvalidSampleCount { actual: usize, expected: usize, shot_count: usize, measured_qubit_count: usize },
    SampleCountOverflow { shot_count: usize, measured_qubit_count: usize },
    ShotIndexOutOfRange { shot_index: usize, shot_count: usize },
    MissingQubitColumn { qubit: QubitId },
    InvalidSamplerOutput { index: usize, value: i64 },
    InvalidSampleValue { shot_index: usize, qubit: QubitId, value: u8 },
}

/// A single-qubit measurement outcome.
#[derive(Debug, Clone, Copy, PartialEq, Eq)]
pub enum MeasurementResult {
    Zero,
    One,
}

/// Whether the measured qubit is reset to zero afterwards.
#[derive(Debug, Clone, Copy, PartialEq, Eq)]
pub enum MeasurementKind {
    MeasureZ,
    MeasureResetZ,
}

#[derive(Debug, Clone, Copy, PartialEq, Eq)]
pub struct MeasurementRequest {
    pub kind: MeasurementKind,
    pub qubit: QubitId,
    pub result_id: usize,
}

/// Index of the first sampler value that is not a bit.
pub open spec fn first_non_bit(samples: Seq<i64>) -> Option<int> {
    if exists|i: int| 0 <= i < samples.len() && #[trigger] samples[i] != 0 && samples[i] != 1 {
        Some(choose|i: int| 0 <= i < samples.len() && #[trigger] samples[i] != 0 && samples[i] != 1
            && forall|j: int| 0 <= j < i ==> samples[j] == 0 || samples[j] == 1)
    } else {
        None
    }
}

/// Narrows the sampler's `i64` output to bytes; every value must be 0 or 1
/// and the first offending value is reported with its flat index.
pub fn narrow_samples(samples: Vec<i64>) -> (r: Result<Vec<u8>, ConsumerError>)
    ensures
        match first_non_bit(samples@) {
            None => r matches Ok(bits) && bits@.len() == samples@.len()
                && forall|i: int| 0 <= i < samples@.len() ==> #[trigger] bits@[i] as i64 == samples@[i],
            Some(index) => r == Err::<Vec<u8>, ConsumerError>(ConsumerError::InvalidSamplerOutput {
                index: index as usize,
                value: samples@[index],
            }),
        },
{
    let mut bits: Vec<u8> = Vec::new();
    let mut i: usize = 0;
    while i < samples.len()
        invariant
            i <= samples@.len(),
            bits@.len() == i,
            forall|j: int| 0 <= j < i ==> samples@[j] == 0 || samples@[j] == 1,
            forall|j: int| 0 <= j < i ==> #[trigger] bits@[j] as i64 == samples@[j],
        decreases samples@.len() - i,
    {
        let value = samples[i];
        if value != 0 && value != 1 {
            proof {
                assert(samples@[i as int] != 0 && samples@[i as int] != 1);
                let k = choose|k: int| 0 <= k < samples@.len() && #[trigger] samples@[k] != 0 && samples@[k] != 1
                    && forall|j: int| 0 <= j < k ==> samples@[j] == 0 || samples@[j] == 1;
                assert(k == i as int) by {
                    if k < i as int {
                        assert(samples@[k] == 0 || samples@[k] == 1);
                    }
                    if k > i as int {
                        assert(samples@[i as int] == 0 || samples@[i as int] == 1);
                    }
                }
            }
            return Err(ConsumerError::InvalidSamplerOutput { index: i, value });
        }
        bits.push(value as u8);
        i = i + 1;
    }
    Ok(bits)
}

/// The distinct qubits of a measurement list, in order of first measurement.
pub open spec fn distinct_in_order(qubits: Seq<QubitId>) -> Seq<QubitId>
    decreases qubits.len(),
{
    if qubits.len() == 0 {
        seq![]
    } else {
        let earlier = distinct_in_order(qubits.drop_last());
        if earlier.contains(qubits.last()) { earlier } else { earlier.push(qubits.last()) }
    }
}

proof fn lemma_distinct_in_order(qubits: Seq<QubitId>)
    ensures
        distinct_in_order(qubits).no_duplicates(),
        forall|q: QubitId| distinct_in_order(qubits).contains(q) <==> qubits.contains(q),
    decreases qubits.len(),
{
    broadcast use vstd::seq_lib::group_seq_properties;
    if qubits.len() > 0 {
        let rest = qubits.drop_last();
        let last = qubits.last();
        lemma_distinct_in_order(rest);
        assert(qubits =~= rest.push(last));
        let d = distinct_in_order(rest);
        if !d.contains(last) {
            assert forall|i: int, j: int| 0 <= i < j < d.push(last).len() implies d.push(last)[i] != d.push(last)[j] by {
                if j == d.len() {
                    assert(d.contains(d[i]));
                }
            }
        }
    }
}

/// Shot-major measurement samples: row `shot` holds one column per distinct
/// measured qubit, columns in order of first measurement.
#[derive(Debug)]
pub struct SampleMatrix {
    samples: Vec<u8>,
    qubits: Vec<QubitId>,
    shot_count: usize,
}

impl SampleMatrix {
    #[verifier::type_invariant]
    spec fn well_formed(&self) -> bool {
        &&& self.qubits@.no_duplicates()
        &&& self.samples@.len() == self.shot_count * self.qubits@.len()
    }

    pub closed spec fn columns(&self) -> Seq<QubitId> {
        self.qubits@
    }

    pub closed spec fn values(&self) -> Seq<u8> {
        self.samples@
    }

    pub closed spec fn spec_shot_count(&self) -> nat {
        self.shot_count as nat
    }

    /// The distinct measured qubits, in column order.
    pub fn sampled_qubits(measured_qubits: &[QubitId]) -> (qubits: Vec<QubitId>)
        ensures
            qubits@ == distinct_in_order(measured_qubits@),
    {
        let mut qubits: Vec<QubitId> = Vec::new();
        let mut i: usize = 0;
        while i < measured_qubits.len()
            invariant
                i <= measured_qubits@.len(),
                qubits@ == distinct_in_order(measured_qubits@.subrange(0, i as int)),
            decreases measured_qubits@.len() - i,
        {
            let qubit = measured_qubits[i];
            let ghost prefix = measured_qubits@.subrange(0, i as int + 1);
            proof {
                assert(prefix.drop_last() =~= measured_qubits@.subrange(0, i as int));
                assert(prefix.last() == qubit);
            }
            let mut seen = false;
            let mut j: usize = 0;
            while j < qubits.len()
                invariant
                    j <= qubits@.len(),
                    seen == exists|k: int| 0 <= k < j && qubits@[k] == qubit,
                decreases qubits@.len() - j,
            {
                if qubits[j] == qubit {
                    seen = true;
                }
                j = j + 1;
            }
            if !seen {
                qubits.push(qubit);
            }
            i = i + 1;
        }
        proof {
            assert(measured_qubits@.subrange(0, measured_qubits@.len() as int) =~= measured_qubits@);
        }
        qubits
    }

    /// A matrix of `shot_count` rows over the distinct measured qubits; the
    /// sample count must match exactly.
    pub fn new(measured_qubits: &[QubitId], shot_count: usize, samples: Vec<u8>) -> (r: Result<Self, ConsumerError>)
        ensures
            ({
                let columns = distinct_in_order(measured_qubits@);
                let expected = shot_count * columns.len();
                &&& expected > usize::MAX ==> r == Err::<Self, ConsumerError>(ConsumerError::SampleCountOverflow {
                        shot_count,
                        measured_qubit_count: columns.len() as usize,
                    })
                &&& expected <= usize::MAX && samples@.len() != expected ==> r == Err::<Self, ConsumerError>(
                        ConsumerError::InvalidSampleCount {
                            actual: samples@.len() as usize,
                            expected: expected as usize,
                            shot_count,
                            measured_qubit_count: columns.len() as usize,
                        })
                &&& expected <= usize::MAX && samples@.len() == expected ==> (r matches Ok(m)
                        && m.columns() == columns && m.values() == samples@ && m.spec_shot_count() == shot_count)
            }),
    {
        let qubits = Self::sampled_qubits(measured_qubits);
        proof { lemma_distinct_in_order(measured_qubits@); }
        let measured_qubit_count = qubits.len();
        let expected = match shot_count.checked_mul(measured_qubit_count) {
            Some(expected) => expected,
            None => {
                return Err(ConsumerError::SampleCountOverflow { shot_count, measured_qubit_count });
            },
        };
        if samples.len() != expected {
            return Err(ConsumerError::InvalidSampleCount {
                actual: samples.len(),
                expected,
                shot_count,
                measured_qubit_count,
            });
        }
        Ok(SampleMatrix { samples, qubits, shot_count })
    }

    pub fn shot_count(&self) -> (n: usize)
        ensures
            n == self.spec_shot_count(),
    {
        self.shot_count
    }

    /// The recorded outcome of `qubit` in shot `shot_index`.
    pub fn sample(&self, shot_index: usize, qubit: QubitId) -> (r: Result<MeasurementResult, ConsumerError>)
        ensures
            shot_index >= self.spec_shot_count() ==> r == Err::<MeasurementResult, ConsumerError>(
                ConsumerError::ShotIndexOutOfRange { shot_index, shot_count: self.spec_shot_count() as usize }),
            shot_index < self.spec_shot_count() && !self.columns().contains(qubit) ==>
                r == Err::<MeasurementResult, ConsumerError>(ConsumerError::MissingQubitColumn { qubit }),
            shot_index < self.spec_shot_count() && self.columns().contains(qubit) ==> ({
                let column = self.columns().index_of(qubit);
                let value = self.values()[shot_index * self.columns().len() + column];
                &&& value == 0 ==> r == Ok::<MeasurementResult, ConsumerError>(MeasurementResult::Zero)
                &&& value == 1 ==> r == Ok::<MeasurementResult, ConsumerError>(MeasurementResult::One)
                &&& value > 1 ==> r == Err::<MeasurementResult, ConsumerError>(
                        ConsumerError::InvalidSampleValue { shot_index, qubit, value })
            }),
    {
        proof { use_type_invariant(self); }
        if shot_index >= self.shot_count {
            return Err(ConsumerError::ShotIndexOutOfRange { shot_index, shot_count: self.shot_count });
        }
        let mut column: usize = 0;
        while column < self.qubits.len() && self.qubits[column] != qubit
            invariant
                column <= self.qubits@.len(),
                forall|k: int| 0 <= k < column ==> self.qubits@[k] != qubit,
            decreases self.qubits@.len() - column,
        {
            column = column + 1;
        }
        if column == self.qubits.len() {
            return Err(ConsumerError::MissingQubitColumn { qubit });
        }
        proof {
            self.qubits@.index_of_first_ensures(qubit);
            assert(self.qubits@.index_of(qubit) == column as int) by {
                let k = self.qubits@.index_of(qubit);
                if k != column as int {
                    assert(self.qubits@[k] == qubit);
                }
            }
            let w = self.qubits@.len() as int;
            assert(shot_index * w + column < self.shot_count * w) by (nonlinear_arith)
                requires shot_index < self.shot_count, column < w;
            assert(shot_index * w <= shot_index * w + column);
        }
        let len = self.samples.len();
        assert(shot_index * self.qubits@.len() + column < len);
        let index = shot_index * self.qubits.len() + column;
        let value = self.samples[index];
        if value == 0 {
            Ok(MeasurementResult::Zero)
        } else if value == 1 {
            Ok(MeasurementResult::One)
        } else {
            Err(ConsumerError::InvalidSampleValue { shot_index, qubit, value })
        }
    }
}

/// Serves one shot of a single-region program from the sample matrix: no
/// region may run after a measurement, and a qubit measured with reset may
/// not be measured again.
pub struct ShotConsumer<'m> {
    samples: &'m SampleMatrix,
    shot_index: usize,
    last_measured_qubit: Option<QubitId>,
    reset_qubits: Vec<QubitId>,
}

impl<'m> ShotConsumer<'m> {
    pub closed spec fn matrix(&self) -> &'m SampleMatrix {
        self.samples
    }

    pub closed spec fn shot(&self) -> usize {
        self.shot_index
    }

    pub closed spec fn last_measured(&self) -> Option<QubitId> {
        self.last_measured_qubit
    }

    pub closed spec fn reset(&self) -> Seq<QubitId> {
        self.reset_qubits@
    }

    /// A consumer for shot `shot_index` of a program with `region_count`
    /// quantum evolution regions; batch sampling supports exactly one.
    pub fn new(region_count: usize, samples: &'m SampleMatrix, shot_index: usize) -> (r: Result<Self, ConsumerError>)
        ensures
            region_count != 1 ==> r == Err::<Self, ConsumerError>(ConsumerError::UnsupportedRegionCount { actual: region_count }),
            region_count == 1 && shot_index >= samples.spec_shot_count() ==> r == Err::<Self, ConsumerError>(
                ConsumerError::ShotIndexOutOfRange { shot_index, shot_count: samples.spec_shot_count() as usize }),
            region_count == 1 && shot_index < samples.spec_shot_count() ==> (r matches Ok(c)
                && c.matrix() == samples && c.shot() == shot_index && c.last_measured() is None
                && c.reset() == Seq::<QubitId>::empty()),
    {
        if region_count != 1 {
            return Err(ConsumerError::UnsupportedRegionCount { actual: region_count });
        }
        let shot_count = samples.shot_count();
        if shot_index >= shot_count {
            return Err(ConsumerError::ShotIndexOutOfRange { shot_index, shot_count });
        }
        Ok(ShotConsumer { samples, shot_index, last_measured_qubit: None, reset_qubits: Vec::new() })
    }

    /// The region's evolution was applied before sampling; it can only be
    /// acknowledged if no measurement has been answered yet.
    pub fn execute_region(&self) -> (r: Result<(), ConsumerError>)
        ensures
            self.last_measured() matches Some(qubit) ==> r == Err::<(), ConsumerError>(
                ConsumerError::UnsupportedFeedforward { qubit }),
            self.last_measured() is None ==> r is Ok,
    {
        if let Some(qubit) = self.last_measured_qubit {
            return Err(ConsumerError::UnsupportedFeedforward { qubit });
        }
        Ok(())
    }

    /// Answers a measurement from this shot's row of the matrix.
    pub fn measure(&mut self, request: MeasurementRequest) -> (r: Result<MeasurementResult, ConsumerError>)
        ensures
            old(self).reset().contains(request.qubit) ==> r == Err::<MeasurementResult, ConsumerError>(
                ConsumerError::UnsupportedMeasurementAfterReset { qubit: request.qubit })
                && *final(self) == *old(self),
            !old(self).reset().contains(request.qubit) ==> {
                let outcome = old(self).matrix().sample_spec(old(self).shot(), request.qubit);
                &&& r == outcome
                &&& outcome is Err ==> *final(self) == *old(self)
                &&& outcome is Ok ==> final(self).matrix() == old(self).matrix()
                    && final(self).shot() == old(self).shot()
                    && final(self).last_measured() == Some(request.qubit)
                    && final(self).reset() == (if request.kind == MeasurementKind::MeasureResetZ {
                        old(self).reset().push(request.qubit)
                    } else {
                        old(self).reset()
                    })
            },
    {
        let mut j: usize = 0;
        while j < self.reset_qubits.len()
            invariant
                j <= self.reset_qubits@.len(),
                forall|k: int| 0 <= k < j ==> self.reset_qubits@[k] != request.qubit,
            decreases self.reset_qubits@.len() - j,
        {
            if self.reset_qubits[j] == request.qubit {
                assert(self.reset_qubits@[j as int] == request.qubit);
                return Err(ConsumerError::UnsupportedMeasurementAfterReset { qubit: request.qubit });
            }
            j = j + 1;
        }
        let result = self.samples.sample(self.shot_index, request.qubit);
        proof { self.samples.lemma_sample_spec(self.shot_index, request.qubit, result); }
        let result = result?;
        match request.kind {
            MeasurementKind::MeasureZ => {},
            MeasurementKind::MeasureResetZ => {
                self.reset_qubits.push(request.qubit);
            },
        }
        self.last_measured_qubit = Some(request.qubit);
        Ok(result)
    }
}

impl SampleMatrix {
    /// The outcome `sample` gives, as a function of the matrix.
    pub open spec fn sample_spec(&self, shot_index: usize, qubit: QubitId) -> Result<MeasurementResult, ConsumerError> {
        if shot_index >= self.spec_shot_count() {
            Err(ConsumerError::ShotIndexOutOfRange { shot_index, shot_count: self.spec_shot_count() as usize })
        } else if !self.columns().contains(qubit) {
            Err(ConsumerError::MissingQubitColumn { qubit })
        } else {
            let value = self.values()[shot_index * self.columns().len() + self.columns().index_of(qubit)];
            if value == 0 {
                Ok(MeasurementResult::Zero)
            } else if value == 1 {
                Ok(MeasurementResult::One)
            } else {
                Err(ConsumerError::InvalidSampleValue { shot_index, qubit, value })
            }
        }
    }

    proof fn lemma_sample_spec(&self, shot_index: usize, qubit: QubitId, r: Result<MeasurementResult, ConsumerError>)
        requires
            shot_index >= self.spec_shot_count() ==> r == Err::<MeasurementResult, ConsumerError>(
                ConsumerError::ShotIndexOutOfRange { shot_index, shot_count: self.spec_shot_count() as usize }),
            shot_index < self.spec_shot_count() && !self.columns().contains(qubit) ==>
                r == Err::<MeasurementResult, ConsumerError>(ConsumerError::MissingQubitColumn { qubit }),
            shot_index < self.spec_shot_count() && self.columns().contains(qubit) ==> ({
                let column = self.columns().index_of(qubit);
                let value = self.values()[shot_index * self.columns().len() + column];
                &&& value == 0 ==> r == Ok::<MeasurementResult, ConsumerError>(MeasurementResult::Zero)
                &&& value == 1 ==> r == Ok::<MeasurementResult, ConsumerError>(MeasurementResult::One)
                &&& value > 1 ==> r == Err::<MeasurementResult, ConsumerError>(
                        ConsumerError::InvalidSampleValue { shot_index, qubit, value })
            }),
        ensures
            r == self.sample_spec(shot_index, qubit),
    {
    }
}

} // verus!
