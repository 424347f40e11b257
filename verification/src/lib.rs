//! Verified host-side logic of the cuTensorNet-backed quantum simulation
//! backend: validation of native results and policies, circuit construction,
//! MPS target shapes, sampling bookkeeping and resource lifecycles.

mod adapter;
mod circuit;
mod consumer;
mod contraction;
mod driver;
mod error;
mod execution;
mod mps;
mod native;
mod network;
mod order;
mod policy;
mod query;
mod replay;
mod sampler;
mod seed;
mod session;
mod text;
mod toolchain;
mod version;

pub use error::{combine_execution_and_cleanup, SimulationError};
pub use version::{audited_policy, AvailabilityError, VersionPolicy};
pub use native::{
    check_cuda, check_cutensornet, complex_bytes, contraction_count, require_positive,
    validate_output_pointers, NativeCount,
};
pub use query::{AdjacentZQuery, EXPECTATION_HYPER_SAMPLES};
pub use sampler::{all_bits, sampling_request_rejection, FullBitstringSamples, SamplingRequest};
pub use mps::{
    law_edge_bonds_are_qubit_sized, law_target_bond_within_cap, law_target_bonds_mirror,
    checked_element_count, element_count, operator_rejection, target_site, ElementCount, MpsTarget,
    OwnedOperator, convert_layout, mode_id, saturated_pow2, saturating_power_of_two, target_bond, target_bond_extent,
    validate_workspace_size, validate_realized_extents, maximum_bond, is_chain, fits_within, all_qubits,
    physical_extent, site_rank, right_bond, max_bond_prefix, usize_rows, target_bonds,
};
pub use consumer::{
    distinct_in_order, first_non_bit, narrow_samples, ConsumerError, MeasurementKind, MeasurementRequest,
    MeasurementResult, QubitId, SampleMatrix, ShotConsumer,
};
pub use policy::{
    binary64_is_finite, binary64_is_negative, law_presets_are_qualified, policy_rejection, valid_cutoff,
    ExecutionPolicy, Gauge, Precision, SvdAlgorithm, CUTOFF_1E_10, CUTOFF_1E_12, CUTOFF_1E_16,
    MAXIMUM_WORKSPACE_BYTES,
};
pub use circuit::{
    layout_max_index, layout_rejection, site_rejection, storage_rejection, validate_open_mps, validate_storage,
    canonical_text, gate_modes, gate_text, gates_text, law_trotter_gate_count, modes_fit, operator_modes,
    step_gate, step_len, trotter_gate, trotter_gates, wall_len, gate_rejection, outside_message, Circuit, Gate,
};
pub use contraction::{
    buffer_bytes, check_limit, chronological, chronological_path, law_chronological_path_is_valid, live_pair,
    native_bytes, native_count, replace_pair, tensor_rejection, valid_path, validate_path, NativeMetadata,
    NativeTensor, SlicedMode, first_tensor_rejection, topology_rejection, native_axes, all_axes,
    mode_dimension, Topology, path_rejection, sliced_modes, slicing_scan, metadata_rejection, OptimizerSetting,
    OptimizerSettings, settings_valid, WorkspaceBudgetSource, zero_budget_text, empty_automatic_budget_text,
    explicit_budget, automatic_budget, distinct_count, labels,
};
pub use network::{
    config_resource, distinct_known_modes, info_resource, network_resource, rank_sum, release_steps,
    ContractionApi, ContractionResources, OptimizerEstimate, SliceGroup,
};
pub use execution::{
    input_elements, optional_workspace, validate_shape, ContractionExecutionApi, CuTensorNetExecutableContraction,
    ExecutionLimits, InputId, InputMutability, MemorySpace, MemoryWorkspaceApi, PreparationFailure, initial_report, scratch_within,
    extents_fit, shape_rejection, selected_positions, selected_bytes_of, lemma_selected_bytes_grow, ExecutionCall,
    bound_then_contracted, slot_rejection, first_slot_rejection, lemma_first_slot_rejection_stays, Attachment, scratch_attachments, check_recommendations,
    ResourceReport, TensorInput, WorkspaceKind, WorkspacePreference,
};
pub use toolchain::{
    argument_texts, asks_for_help, comma_fields, fast_matrix, int_error_text, is_unicode_whitespace,
    is_white_space, nothing_requested_text, options_from, out_of_range_message, out_of_range_text,
    parse_toolchains, parse_u8_text, parse_version, requested_versions, str_debug, text_is, toolchain_versions,
    trim, trim_text, unparsable_version_message, unparsable_version_text, unrecognized_argument_message,
    unrecognized_argument_text, usage, usage_text, wants_help, well_formed_matrix, IntErrorKind, LlvmToolchain,
    Options, PointerMode, MAX_LLVM_VERSION, MIN_LLVM_VERSION,
};
pub use seed::{
    artifact_file, artifact_file_name, classify_seed_file, default_qir_corpus_dir, ends_with_text,
    has_seed_extension, is_seed_file_name, join_path, joined_path, profile_from_seed_file_name,
    replay_file_names, replay_files, seed_name, seed_profile, starts_with_text, strip_seed_suffixes,
    SeedEntry, SeedProfile,
};
pub use replay::{
    accepted_workspace, cleanup_outcome, device_memory, failure_of, first_failure, freeing_order, held, live,
    only_releases, optional, recommendation_text, released, sample_mode, sampled_mode, step_failure,
    valid_state_report, accepted_recommendation, check_alignment, materialized_calls, workspace_refused,
    refusal_matches, query_calls, projector_calls, query_lifecycle_order, branch_calls_at, grows_by_acquisition,
    only_acquires, gates_applied, barriers_held, stops_at_failed_barrier, NativeCall, BranchOutcome, BranchRequest, ExecutionReport, OutputMetadata, QueryOutcome, Replay,
    ReplayApi, ReplayEvent, Resource, SelectedBranch, StateConfiguration, StateCutoff, StateReadout, StateResult,
    WorkspaceReport,
};
pub use sampler::{sampler_configuration, PreparedSampler, SamplerApi, SamplerCall, SamplerContext};
pub use session::{device_selection, handle_resource, optional_resource, stream_resource, MpsSession, Session, SessionApi, SessionResources};
pub use adapter::{
    absent_mode_text, available_view, axis_of, axis_views, cleanup_failure, covers, duplicate_mode_text,
    final_modes_text, first_position, flat_axes, fresh_operands, from_native_metadata, import_plan,
    initial_available, input_operands, intermediate_axes, intermediate_count_text, law_native_path_round_trip,
    mode_views, native_pairs, native_positions, native_settings, operand_views, operands_of, pairwise, pick,
    plan_steps, primary_failure, replaced, resolve_workspace, same_axes, step_operands, step_outcome, step_views,
    supported_topology, to_native_metadata, unknown_mode_text, unsupported, without, CostEstimate,
    CuTensorNetContractionOptimizer, CuTensorNetContractionOptimizerSettings, CuTensorNetPlanningReport,
    EstimateKind, Operand, PlanStep, PlanningConstraints, PlanningReport,
};
pub use driver::{
    accept_seed, assemble_invocation, assemble_spec, availability_invocations, comma_list, disassemble_invocation,
    disassemble_spec, distinct_paths, finish_replay_matrix, finish_seed_inputs, fixed_prefixes,
    generation_failure_message, invocation_view, listed_candidates, llvm_label, missing_tool_message,
    missing_tool_text, output_dir_name, output_summary, path_views, pointer_args, replay_invocations, replay_runs,
    same_path_name, seed_failure_message, summarize_output, summary_message, tool_candidates, tool_under,
    unknown_profile_message, verify_invocation, verify_spec, version_invocation, version_spec, QirSeedInput,
    ReplaySummary, ToolInvocation,
};
pub use order::{name_bytes, bytes_le, bytes_no_later, lemma_bytes_le_total, lemma_bytes_le_transitive, name_order};
