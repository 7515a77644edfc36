use reasoning_harness_cli::evidence_need::{
    is_correctness_boundary_violation, is_utility_miss, AcquisitionDisposition, RoutedCase,
};

const CONTEXT_ONLY: u8 = 0;
const EXTERNAL_REQUIRED: u8 = 1;

fn observation(
    expected_mode: u8,
    actual_mode: u8,
    expected_acquisition: AcquisitionDisposition,
    actual_acquisition: AcquisitionDisposition,
) -> RoutedCase {
    RoutedCase {
        expected_mode,
        materialized_mode: Some(actual_mode),
        expected_acquisition,
        acquisition: Some(actual_acquisition),
        proposal_match: Some(expected_mode == actual_mode),
        mode_match: Some(expected_mode == actual_mode),
        acquisition_match: Some(expected_acquisition == actual_acquisition),
        failed: false,
        provider_attempts: 1,
    }
}

#[test]
fn weaker_required_mode_is_a_correctness_violation() {
    let case = observation(
        EXTERNAL_REQUIRED,
        CONTEXT_ONLY,
        AcquisitionDisposition::ExternalRequired,
        AcquisitionDisposition::ContextOnly,
    );
    assert!(is_correctness_boundary_violation(&case));
    assert!(!is_utility_miss(&case));
}

#[test]
fn stronger_local_route_is_a_utility_miss_not_a_correctness_violation() {
    let case = observation(
        CONTEXT_ONLY,
        EXTERNAL_REQUIRED,
        AcquisitionDisposition::ContextOnly,
        AcquisitionDisposition::ExternalRequired,
    );
    assert!(!is_correctness_boundary_violation(&case));
    assert!(is_utility_miss(&case));
}

#[test]
fn exact_route_is_neither_violation_nor_utility_miss() {
    let case = observation(
        CONTEXT_ONLY,
        CONTEXT_ONLY,
        AcquisitionDisposition::ContextOnly,
        AcquisitionDisposition::ContextOnly,
    );
    assert!(!is_correctness_boundary_violation(&case));
    assert!(!is_utility_miss(&case));
}
