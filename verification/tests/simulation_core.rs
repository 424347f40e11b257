use qdk_cutensornet::{
    audited_policy, checked_element_count, combine_execution_and_cleanup, complex_bytes, convert_layout,
    maximum_bond, mode_id, narrow_samples, require_positive, saturating_power_of_two, target_bond_extent,
    validate_output_pointers, validate_realized_extents, validate_workspace_size, AdjacentZQuery,
    AvailabilityError, Circuit, ConsumerError, ExecutionPolicy, FullBitstringSamples, Gate, Gauge, MpsTarget,
    OwnedOperator, Precision, SamplingRequest, SimulationError, SvdAlgorithm, MAXIMUM_WORKSPACE_BYTES,
};
use qdk_cutensornet::{
    validate_open_mps, MeasurementKind, MeasurementRequest, MeasurementResult, SampleMatrix, ShotConsumer,
};

fn bits(value: f64) -> u64 {
    value.to_bits()
}

#[test]
fn adjacent_z_query_contains_one_ordered_product_per_bond() {
    let query = AdjacentZQuery::new(5).expect("width should be valid");

    assert_eq!(query.width, 5);
    assert_eq!(query.terms, [[0, 1], [1, 2], [2, 3], [3, 4]]);
    assert!(AdjacentZQuery::new(1).is_err());
}

#[test]
fn target_bonds_respect_caps_below_and_above_physical_limits() {
    assert_eq!(target_bond_extent(8, 3, 3).expect("center cut is valid"), 3);
    assert_eq!(target_bond_extent(8, 0, 1024).expect("edge cut is valid"), 2);
    assert_eq!(target_bond_extent(8, 3, 1024).expect("center cut is valid"), 16);
}

#[test]
fn target_bonds_reject_underflow_and_invalid_caps() {
    assert!(target_bond_extent(0, 0, 128).is_err());
    assert!(target_bond_extent(1, 0, 128).is_err());
    assert!(target_bond_extent(8, 7, 128).is_err());
    assert!(target_bond_extent(8, 8, 128).is_err());
    assert!(target_bond_extent(8, usize::MAX, 128).is_err());
    assert!(target_bond_extent(8, 0, 0).is_err());
    assert!(target_bond_extent(8, 0, -1).is_err());
}

#[test]
fn powers_of_two_saturate_before_signed_overflow() {
    assert_eq!(saturating_power_of_two(0), 1);
    assert_eq!(saturating_power_of_two(62), 1_i64 << 62);
    assert_eq!(saturating_power_of_two(63), i64::MAX);
    assert_eq!(saturating_power_of_two(64), i64::MAX);
    assert_eq!(saturating_power_of_two(128), i64::MAX);
}

#[test]
fn target_bonds_are_checked_without_exponential_allocation() {
    let cases: &[(usize, i64, &[i64])] = &[
        (2, 128, &[2]),
        (3, 128, &[2, 2]),
        (63, 128, &[2, 4, 8, 16, 32, 64, 128]),
        (64, 128, &[2, 4, 8, 16, 32, 64, 128]),
        (128, 128, &[2, 4, 8, 16, 32, 64, 128]),
    ];

    for &(width, cap, leading) in cases {
        let bonds = (0..width - 1)
            .map(|cut| target_bond_extent(width, cut, cap).expect("bond should be valid"))
            .collect::<Vec<_>>();
        assert_eq!(
            &bonds[..leading.len().min(bonds.len())],
            &leading[..leading.len().min(bonds.len())]
        );
        assert_eq!(bonds.first(), Some(&2));
        assert_eq!(bonds.last(), Some(&2));
        assert!(bonds.iter().all(|extent| *extent <= cap));
        assert_eq!(bonds, bonds.iter().copied().rev().collect::<Vec<_>>());

        let target = MpsTarget::new(width, 2).expect("cap-2 target should be valid");
        assert_eq!(target.site_count(), width);
        assert!((0..width).all(|site| target.output_elements(site) <= 8));
    }
}

#[test]
fn native_layout_conversion_rejects_nonpositive_and_overflowing_extents() {
    for invalid in [vec![2, 0], vec![2, -1]] {
        assert!(matches!(
            convert_layout("extent", &vec![invalid]),
            Err(SimulationError::InvalidNativeResult { .. })
        ));
    }
    assert!(matches!(
        checked_element_count(&[2, 0], "test tensor"),
        Err(SimulationError::InvalidNativeResult { .. })
    ));
    assert!(matches!(
        checked_element_count(&[i64::MAX, 3], "test tensor"),
        Err(SimulationError::ResourceSizeOverflow { resource: "test tensor" })
    ));
}

#[test]
fn layout_errors_quote_the_whole_layout() {
    let error = convert_layout("extent", &vec![vec![2, 2], vec![2, 0]]).unwrap_err();
    assert_eq!(
        error.message(),
        "invalid native result: MPS extent is not positive: [[2, 2], [2, 0]]"
    );
    assert_eq!(
        convert_layout("stride", &vec![vec![2, 1], vec![1]]).expect("positive layout converts"),
        vec![vec![2, 1], vec![1]]
    );
}

#[test]
fn realized_extents_are_bounded_and_report_maximum_bond() {
    let target = MpsTarget::new(4, 8).expect("target should be valid");
    let realized = vec![vec![2, 2], vec![2, 2, 4], vec![4, 2, 2], vec![2, 2]];

    validate_realized_extents(&realized, &target)
        .expect("realized extents should fit target capacities");
    assert_eq!(maximum_bond(&realized), 4);
}

#[test]
fn rejects_invalid_realized_extents() {
    let target = MpsTarget::new(3, 2).expect("target should be valid");
    let invalid = [
        vec![vec![2, 3], vec![3, 2, 2], vec![2, 2]],
        vec![vec![2, 2], vec![1, 2, 2], vec![2, 2]],
        vec![vec![3, 2], vec![2, 2, 2], vec![2, 2]],
        vec![vec![2, 2], vec![2, 2], vec![2, 2]],
    ];

    for realized in invalid {
        assert!(validate_realized_extents(&realized, &target).is_err());
    }
}

#[test]
fn owned_operator_rejects_invalid_arity_modes_and_matrix_shape() {
    let zero = 0_u64;
    let invalid = [
        OwnedOperator::new(vec![], vec![]),
        OwnedOperator::new(vec![0, 1, 2], vec![zero; 64]),
        OwnedOperator::new(vec![-1], vec![zero; 4]),
        OwnedOperator::new(vec![1, 1], vec![zero; 16]),
        OwnedOperator::new(vec![0], vec![zero; 3]),
        OwnedOperator::new(vec![0, 1], vec![zero; 15]),
    ];

    assert!(invalid.into_iter().all(|result| result.is_err()));
    assert!(OwnedOperator::new(vec![1, 0], vec![zero; 16]).is_ok());
}

#[test]
fn x_operators_retain_qdk_mode_order() {
    assert_eq!(qdk_cutensornet::operator_modes(Gate::X { target: 0 }).unwrap(), vec![0]);
    assert_eq!(qdk_cutensornet::operator_modes(Gate::X { target: 1 }).unwrap(), vec![1]);
}

#[test]
fn directional_cnot_operators_retain_operand_order() {
    assert_eq!(
        qdk_cutensornet::operator_modes(Gate::Cnot { control: 0, target: 1 }).unwrap(),
        vec![0, 1]
    );
    assert_eq!(
        qdk_cutensornet::operator_modes(Gate::Cnot { control: 1, target: 0 }).unwrap(),
        vec![1, 0]
    );
}

#[test]
fn mode_identifiers_must_fit_the_native_type() {
    assert_eq!(mode_id(7).unwrap(), 7);
    let error = mode_id(u32::MAX).unwrap_err();
    assert_eq!(
        error.message(),
        "invalid circuit: qubit 4294967295 does not fit the native mode identifier"
    );
}

#[test]
fn workspace_limits_check_policy_before_free_memory() {
    assert!(validate_workspace_size(256, 1024, 512).is_ok());
    assert!(matches!(
        validate_workspace_size(2048, 1024, 4096),
        Err(SimulationError::WorkspaceLimitExceeded { required: 2048, maximum: 1024 })
    ));
    assert!(matches!(
        validate_workspace_size(256, 1024, 255),
        Err(SimulationError::WorkspaceLimitExceeded { required: 256, maximum: 255 })
    ));
}

#[test]
fn sampler_counts_and_seeds_must_be_positive() {
    assert!(require_positive(1_i32, "positive").is_ok());
    assert!(require_positive(1_i64, "positive").is_ok());
    assert!(require_positive(0_i32, "zero").is_err());
    assert!(require_positive(-1_i64, "negative").is_err());
    assert!(SamplingRequest::new(0, 8, Some(11), 29).is_err());
    assert!(SamplingRequest::new(1, 0, Some(11), 29).is_err());
    assert!(SamplingRequest::new(1, 8, Some(0), 29).is_err());
    assert!(SamplingRequest::new(1, 8, None, 0).is_err());
}

#[test]
fn qubit_sample_output_rejects_non_bit_values() {
    let error = FullBitstringSamples::new(2, vec![0, 2]).expect_err("non-bit output should be rejected");
    assert!(error.message().contains("non-bit value"));
}

#[test]
fn full_bitstrings_are_shot_major() {
    let samples = FullBitstringSamples::new(2, vec![0, 0, 1, 1, 0, 0]).expect("bits are valid");
    assert_eq!(samples.width(), 2);
    assert_eq!(samples.shots(), 3);
    assert_eq!(samples.shot(0), Some([0, 0].as_slice()));
    assert_eq!(samples.shot(1), Some([1, 1].as_slice()));
    assert_eq!(samples.shot(2), Some([0, 0].as_slice()));
    assert_eq!(samples.shot(3), None);
    assert!(FullBitstringSamples::new(0, vec![]).is_err());
    assert!(FullBitstringSamples::new(2, vec![0, 1, 0]).is_err());
}

#[test]
fn accepts_only_audited_cutensornet_runtime() {
    let policy = audited_policy();
    assert!(policy.validate_cutensornet(21_300).is_ok());
    assert!(matches!(
        policy.validate_cutensornet(21_400),
        Err(AvailabilityError::UnsupportedVersion {
            component: "cuTensorNet runtime",
            found: 21_400,
            supported: "21300"
        })
    ));
}

#[test]
fn accepts_only_audited_cuda_runtime() {
    let policy = audited_policy();
    assert!(policy.validate_cuda_runtime(12_090).is_ok());
    assert!(matches!(
        policy.validate_cuda_runtime(13_000),
        Err(AvailabilityError::UnsupportedVersion {
            component: "CUDA Runtime",
            found: 13_000,
            supported: "12090"
        })
    ));
}

#[test]
fn complex_tensor_size_rejects_zero_and_overflow() {
    assert!(matches!(complex_bytes(0), Err(SimulationError::InvalidNativeResult { .. })));
    assert!(matches!(
        complex_bytes(usize::MAX),
        Err(SimulationError::ResourceSizeOverflow { resource: "complex tensor" })
    ));
    assert_eq!(complex_bytes(3).unwrap(), 48);
}

#[test]
fn state_compute_must_preserve_caller_owned_output_pointers() {
    let first = 0x100_u64;
    let second = 0x200_u64;
    let expected = [first, second];

    validate_output_pointers(&expected, &expected)
        .expect("unchanged caller-owned pointers should be accepted");
    assert!(matches!(
        validate_output_pointers(&expected, &[first, first]),
        Err(SimulationError::InvalidNativeResult { .. })
    ));
    assert!(matches!(
        validate_output_pointers(&expected, &[first]),
        Err(SimulationError::InvalidNativeResult { .. })
    ));
}

#[test]
fn execution_and_cleanup_failures_are_combined() {
    let failure = || SimulationError::NoDevice;
    assert_eq!(combine_execution_and_cleanup(Ok::<u8, _>(3), Ok(())).unwrap(), 3);
    assert!(matches!(
        combine_execution_and_cleanup(Ok::<u8, _>(3), Err(failure())),
        Err(SimulationError::NoDevice)
    ));
    let both = combine_execution_and_cleanup::<u8>(
        Err(SimulationError::UnusableContraction),
        Err(failure()),
    )
    .unwrap_err();
    assert_eq!(
        both.message(),
        "execution failed (contraction executable is unusable after an input or execution failure); cleanup also failed (no CUDA-capable device is available)"
    );
}

#[test]
fn circuit_rejects_invalid_gate_targets() {
    let mut circuit = Circuit::new(2).expect("two-qubit circuit should be valid");
    circuit.push(Gate::X { target: 0 }).expect("in-range X gate should be valid");
    assert!(matches!(
        circuit.push(Gate::H { target: 2 }),
        Err(SimulationError::InvalidCircuit { .. })
    ));
    assert!(matches!(
        circuit.push(Gate::Cnot { control: 0, target: 0 }),
        Err(SimulationError::InvalidCircuit { .. })
    ));
    assert_eq!(circuit.gates(), [Gate::X { target: 0 }]);
}

#[test]
fn circuit_rejects_non_finite_rotation_angles() {
    let mut circuit = Circuit::new(2).expect("two-qubit circuit should be valid");

    assert!(matches!(
        circuit.push(Gate::Rx { theta: bits(f64::NAN), target: 0 }),
        Err(SimulationError::InvalidCircuit { .. })
    ));
    assert!(matches!(
        circuit.push(Gate::Rz { theta: bits(f64::INFINITY), target: 1 }),
        Err(SimulationError::InvalidCircuit { .. })
    ));
    assert!(circuit.gates().is_empty());
}

#[test]
fn trotter_fixture_is_deterministic_and_has_the_expected_operation_order() {
    let circuit = Circuit::trotter_domain_wall(4, 1, bits(0.3)).expect("Trotter fixture should be valid");
    let repeated = Circuit::trotter_domain_wall(4, 1, bits(0.3)).expect("repeated fixture should be valid");

    assert_eq!(circuit, repeated);
    assert_eq!(circuit.gates().len(), 15);
    assert_eq!(
        &circuit.gates()[..5],
        &[
            Gate::X { target: 2 },
            Gate::X { target: 3 },
            Gate::Cnot { control: 0, target: 1 },
            Gate::Rz { theta: bits(0.3), target: 1 },
            Gate::Cnot { control: 0, target: 1 },
        ]
    );
    assert_eq!(circuit.canonical_description(), repeated.canonical_description());
}

#[test]
fn approved_b2_fixtures_have_expected_gate_counts() {
    for width in [12, 16, 20] {
        let circuit = Circuit::trotter_domain_wall(width, 8, bits(0.3)).expect("approved fixture should be valid");
        let expected = usize::try_from(width / 2 + 8 * (4 * width - 3)).expect("gate count should fit usize");
        assert_eq!(circuit.gates().len(), expected);
        let canonical = circuit.canonical_description();
        assert!(canonical.starts_with(&format!("width={width};")));
    }
}

#[test]
fn b3_fixture_matches_historical_n128_steps16_structure() {
    let circuit = Circuit::trotter_domain_wall(128, 16, bits(0.3)).expect("B3 fixture should be valid");
    let expected_operation_count = 128 / 2 + 16 * (4 * 128 - 3);

    assert_eq!(expected_operation_count, 8_208);
    assert_eq!(circuit.gates().len(), expected_operation_count);
    assert_eq!(
        &circuit.gates()[..64],
        &(64..128).map(|target| Gate::X { target }).collect::<Vec<_>>()
    );
    assert_eq!(
        &circuit.gates()[64..67],
        &[
            Gate::Cnot { control: 0, target: 1 },
            Gate::Rz { theta: bits(0.3), target: 1 },
            Gate::Cnot { control: 0, target: 1 },
        ]
    );
    assert_eq!(
        &circuit.gates()[445..448],
        &[
            Gate::Rx { theta: bits(0.3), target: 0 },
            Gate::Rx { theta: bits(0.3), target: 1 },
            Gate::Rx { theta: bits(0.3), target: 2 },
        ]
    );
}

#[test]
fn b4_fixture_has_the_approved_n256_steps16_structure() {
    let circuit = Circuit::trotter_domain_wall(256, 16, bits(0.3)).expect("B4 fixture should be valid");
    let expected_operation_count = 256 / 2 + 16 * (4 * 256 - 3);

    assert_eq!(expected_operation_count, 16_464);
    assert_eq!(circuit.gates().len(), expected_operation_count);
}

#[test]
fn bell_policy_is_explicit_and_valid() {
    let policy = ExecutionPolicy::bell_regression();
    assert_eq!(policy.validate().expect("policy should be valid"), policy);
}

#[test]
fn base_policy_matches_the_approved_b1_values() {
    let policy = ExecutionPolicy::base_qualification();

    assert_eq!(policy.validate().expect("policy should be valid"), policy);
    assert_eq!(policy.device_ordinal, 0);
    assert_eq!(policy.precision, Precision::F64);
    assert_eq!(policy.bond_cap, 128);
    assert_eq!(f64::from_bits(policy.absolute_cutoff), 1.0e-10);
    assert_eq!(f64::from_bits(policy.relative_cutoff), 1.0e-16);
    assert_eq!(policy.svd_algorithm, SvdAlgorithm::Gesvd);
    assert_eq!(policy.gauge, Gauge::Simple);
    assert_eq!(policy.maximum_workspace_bytes, 68_719_476_736);
}

#[test]
fn b3_policy_uses_the_historical_matched_bond_cutoff() {
    let policy = ExecutionPolicy::b3_matched_bond_qualification();

    assert_eq!(policy.validate().expect("policy should be valid"), policy);
    assert_eq!(f64::from_bits(policy.absolute_cutoff), 1.0e-12);
    assert_eq!(f64::from_bits(policy.relative_cutoff), 1.0e-16);
    assert_eq!(policy.bond_cap, 128);
}

#[test]
fn b4_policy_changes_only_the_bond_cap() {
    let b3 = ExecutionPolicy::b3_matched_bond_qualification();

    for bond_cap in [32, 64, 128, 256] {
        let policy = ExecutionPolicy::b4_convergence_qualification(bond_cap);
        assert_eq!(policy.validate().expect("policy should be valid"), policy);
        assert_eq!(policy.bond_cap, bond_cap);
        assert_eq!(policy, ExecutionPolicy { bond_cap, ..b3 });
    }
}

#[test]
fn rejects_every_unqualified_or_invalid_setting() {
    let valid = ExecutionPolicy::bell_regression();
    let invalid = [
        ExecutionPolicy { device_ordinal: -1, ..valid },
        ExecutionPolicy { precision: Precision::F32, ..valid },
        ExecutionPolicy { bond_cap: 0, ..valid },
        ExecutionPolicy { absolute_cutoff: bits(f64::NAN), ..valid },
        ExecutionPolicy { relative_cutoff: bits(-1.0), ..valid },
        ExecutionPolicy { svd_algorithm: SvdAlgorithm::Gesvdj, ..valid },
        ExecutionPolicy { gauge: Gauge::Free, ..valid },
        ExecutionPolicy { maximum_workspace_bytes: 0, ..valid },
        ExecutionPolicy { maximum_workspace_bytes: MAXIMUM_WORKSPACE_BYTES + 1, ..valid },
    ];

    for policy in invalid {
        assert!(matches!(policy.validate(), Err(SimulationError::InvalidExecutionPolicy { .. })));
    }
}

#[test]
fn sample_narrowing_rejects_negative_values_with_the_flat_index() {
    assert_eq!(
        narrow_samples(vec![0, 1, -1]),
        Err(ConsumerError::InvalidSamplerOutput { index: 2, value: -1 })
    );
}

#[test]
fn sample_narrowing_rejects_values_above_one_without_truncation() {
    assert_eq!(
        narrow_samples(vec![1, 256]),
        Err(ConsumerError::InvalidSamplerOutput { index: 1, value: 256 })
    );
    assert_eq!(narrow_samples(vec![1, 0, 1]), Ok(vec![1, 0, 1]));
}

#[test]
fn consumer_rejects_programs_without_exactly_one_region() {
    let matrix = SampleMatrix::new(&[], 1, Vec::new()).expect("empty measurement matrix should be valid");
    assert_eq!(
        ShotConsumer::new(2, &matrix, 0).err().expect("multiple regions should be rejected"),
        ConsumerError::UnsupportedRegionCount { actual: 2 }
    );
}

#[test]
fn consumer_rejects_feedforward_after_precomputed_measurement() {
    let matrix = SampleMatrix::new(&[0], 1, vec![1]).expect("sample matrix shape should match prepared measurements");
    let mut consumer = ShotConsumer::new(1, &matrix, 0).ok().expect("program has exactly one region");
    assert_eq!(
        consumer.measure(MeasurementRequest { kind: MeasurementKind::MeasureZ, qubit: 0, result_id: 0 }),
        Ok(MeasurementResult::One)
    );
    assert_eq!(consumer.execute_region(), Err(ConsumerError::UnsupportedFeedforward { qubit: 0 }));
}

#[test]
fn consumer_rejects_measurement_after_measure_reset_z() {
    let matrix = SampleMatrix::new(&[0, 0], 1, vec![1]).expect("repeated measurements share one sample column");
    let mut consumer = ShotConsumer::new(1, &matrix, 0).ok().expect("program has exactly one region");
    assert_eq!(consumer.execute_region(), Ok(()));
    assert_eq!(
        consumer.measure(MeasurementRequest { kind: MeasurementKind::MeasureResetZ, qubit: 0, result_id: 0 }),
        Ok(MeasurementResult::One)
    );
    assert_eq!(
        consumer.measure(MeasurementRequest { kind: MeasurementKind::MeasureZ, qubit: 0, result_id: 1 }),
        Err(ConsumerError::UnsupportedMeasurementAfterReset { qubit: 0 })
    );
}

#[test]
fn sample_backed_consumer_maps_qubits_and_leaves_output_to_control() {
    let matrix =
        SampleMatrix::new(&[1, 0], 2, vec![0, 1, 1, 0]).expect("sample matrix shape should match prepared measurements");
    let mut consumer = ShotConsumer::new(1, &matrix, 1).ok().expect("single-region shot should be supported");
    assert_eq!(consumer.execute_region(), Ok(()));
    let mut results = vec![None; 2];
    for (qubit, result_id) in [(1, 0), (0, 1)] {
        let outcome = consumer
            .measure(MeasurementRequest { kind: MeasurementKind::MeasureZ, qubit, result_id })
            .expect("sample-backed shot should execute");
        results[result_id] = Some(outcome);
    }
    let records: Vec<MeasurementResult> = [1, 0].iter().map(|&id| results[id].expect("recorded result")).collect();
    assert_eq!(records, [MeasurementResult::Zero, MeasurementResult::One]);
    assert_eq!(
        consumer.measure(MeasurementRequest { kind: MeasurementKind::MeasureZ, qubit: 1, result_id: 0 }),
        Ok(MeasurementResult::One)
    );
}

#[test]
fn rejects_malformed_native_mps_layouts() {
    let lengths = [4, 4];
    let invalid = [
        validate_open_mps(&lengths, &vec![vec![2, 2]], &vec![vec![2, 1], vec![2, 1]]),
        validate_open_mps(&lengths, &vec![vec![3, 2], vec![2, 2]], &vec![vec![2, 1], vec![2, 1]]),
        validate_open_mps(&lengths, &vec![vec![2, 2], vec![1, 2]], &vec![vec![2, 1], vec![2, 1]]),
        validate_open_mps(&lengths, &vec![vec![2, 2], vec![2, 2]], &vec![vec![0, 1], vec![2, 1]]),
        validate_open_mps(&lengths, &vec![vec![2, 2], vec![2, 2]], &vec![vec![usize::MAX, 1], vec![2, 1]]),
    ];
    for result in invalid {
        assert!(matches!(result, Err(SimulationError::InvalidNativeResult { .. })));
    }
}
