use qdk_cutensornet::{
    accepted_recommendation, bytes_no_later, check_alignment, check_recommendations, device_selection, name_order,
    MpsTarget, SimulationError,
};

fn native_reason(error: SimulationError) -> String {
    match error {
        SimulationError::InvalidNativeResult { reason } => reason,
        other => panic!("expected an invalid native result, got {other:?}"),
    }
}

#[test]
fn nonpositive_workspace_recommendations_are_refused_with_their_size() {
    let error = accepted_recommendation(0, false, "workspace", "device workspace").unwrap_err();
    assert_eq!(native_reason(error), "recommended workspace size is 0");
    let error = accepted_recommendation(-3, true, "Query workspace", "Query device workspace").unwrap_err();
    assert_eq!(native_reason(error), "recommended Query workspace size is -3");
}

#[test]
fn accepted_workspace_recommendations_keep_their_size() {
    assert_eq!(accepted_recommendation(4096, false, "workspace", "device workspace").unwrap(), 4096);
    assert_eq!(accepted_recommendation(0, true, "Query workspace", "Query device workspace").unwrap(), 0);
}

#[test]
fn misaligned_scratch_is_refused() {
    assert!(check_alignment(512, "workspace").is_ok());
    let error = check_alignment(520, "workspace").unwrap_err();
    assert_eq!(native_reason(error), "cudaMalloc returned workspace below 256-byte alignment");
}

#[test]
fn recommendations_below_their_minimums_are_refused() {
    assert!(check_recommendations(256, 512, 0, 0).is_ok());
    let error = check_recommendations(512, 256, 0, 0).unwrap_err();
    assert_eq!(native_reason(error), "workspace recommendation is smaller than its minimum");
    assert!(check_recommendations(0, 0, 8, 4).is_err());
}

#[test]
fn device_selection_distinguishes_no_device_from_a_bad_ordinal() {
    assert!(matches!(device_selection(0, 0), Err(SimulationError::NoDevice)));
    assert!(matches!(
        device_selection(2, 2),
        Err(SimulationError::InvalidExecutionPolicy { reason: "device ordinal is outside the available CUDA devices" })
    ));
    assert!(matches!(device_selection(2, -1), Err(SimulationError::InvalidExecutionPolicy { .. })));
    assert!(device_selection(2, 1).is_ok());
}

#[test]
fn corpus_files_are_read_in_byte_order_of_their_names() {
    let names = vec![
        "base-v1-b.seed".to_string(),
        "adaptive-v2-a.seed".to_string(),
        "Zeta.seed".to_string(),
        "adaptive-v1-a.seed".to_string(),
    ];
    assert_eq!(name_order(&names), vec![2, 3, 1, 0]);
    assert!(bytes_no_later(b"abc", b"abd"));
    assert!(bytes_no_later(b"ab", b"abc"));
    assert!(!bytes_no_later(b"abc", b"ab"));
}

#[test]
fn two_qubit_targets_with_a_positive_cap_are_built() {
    let target = MpsTarget::new(2, 2).expect("a two-qubit target with cap 2 is valid");
    assert_eq!(target.site_count(), 2);
}
