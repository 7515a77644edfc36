use reasoning_harness_cli::claims::{AnswerClaim, ClaimMode, Proposition};
use reasoning_harness_cli::dogfood::{
    aggregate_target, canonical_recovery_eligible, classify_expected_grounded_miss,
    target_outcome, ExpectedGroundedMissClass, ExpectedOutcome, FinalizationStatus,
    MissClassificationInput, TargetCase, Verdict,
};
use reasoning_harness_cli::dogfood_report::{
    aggregate_arm, aggregate_failure_provenance, aggregate_harness, ArmCase, HarnessCase,
    ProvenanceTrace,
};

fn coverage(exposed: usize, expected: usize) -> f64 {
    if expected == 0 {
        0.0
    } else {
        exposed as f64 / expected as f64
    }
}

#[test]
fn target_metrics_preserve_safe_partial_facts_without_grounding_the_task_target() {
    let expected = Proposition::new("incident.root_cause", "database");
    let observed = Proposition::new("http.status_code", "503");
    let claims = vec![
        AnswerClaim { proposition: observed.duplicate(), mode: ClaimMode::Grounded },
        AnswerClaim { proposition: expected.duplicate(), mode: ClaimMode::Uncertain },
    ];
    let target = target_outcome(&vec![expected.duplicate()], &claims, &vec![observed.duplicate()]);
    assert!(target.exposed_grounded_targets.is_empty());
    assert_eq!(target.supported_grounded_non_targets, vec![observed]);
    assert_eq!(coverage(target.exposed_grounded_targets.len(), target.expected_targets), 0.0);
    assert!(!target.all_targets_grounded);
}

#[test]
fn duplicate_grounded_target_claims_do_not_inflate_target_coverage() {
    let expected = Proposition::new("backup.enabled", "true");
    let claim = || AnswerClaim { proposition: expected.duplicate(), mode: ClaimMode::Grounded };
    let target = target_outcome(&vec![expected.duplicate()], &vec![claim(), claim()], &vec![expected.duplicate()]);
    assert_eq!(target.exposed_grounded_targets, vec![expected]);
    assert_eq!(coverage(target.exposed_grounded_targets.len(), target.expected_targets), 1.0);
    assert!(target.all_targets_grounded);
}

fn missed_target(verdict: Verdict, authorized: bool) -> MissClassificationInput {
    MissClassificationInput {
        expected_grounded: true,
        exposed_exact_grounded_target: false,
        candidate_exact_target_present: true,
        initial_matching_claims: 1,
        final_authorized: authorized,
        final_qualification_findings: 0,
        resolution_requested: false,
        final_verdict: verdict,
        renderer_exact_target_emitted: false,
        renderer_exact_grounded_target_emitted: false,
        renderer_factual_claims_empty: true,
        finalization_status: FinalizationStatus::Unresolved,
        safety_forced_verification: false,
        non_target_unresolved_claims: 0,
        non_target_contradicted_claims: 0,
        expected_outcome: ExpectedOutcome::Grounded,
    }
}

#[test]
fn failure_provenance_marks_accept_render_omission_as_canonical_recovery_eligible() {
    let input = missed_target(Verdict::Accept, true);
    assert!(canonical_recovery_eligible(true, false, Verdict::Accept, true));
    assert_eq!(
        classify_expected_grounded_miss(input),
        Some(ExpectedGroundedMissClass::AcceptRenderClaimOmission)
    );
}

#[test]
fn failure_provenance_records_exact_proposition_drift_without_fuzzy_matching() {
    let mut input = missed_target(Verdict::Accept, true);
    input.candidate_exact_target_present = false;
    input.renderer_factual_claims_empty = false;
    input.finalization_status = FinalizationStatus::RequiresVerification;
    assert_eq!(
        classify_expected_grounded_miss(input),
        Some(ExpectedGroundedMissClass::AcceptRenderPropositionDrift)
    );
}

#[test]
fn failure_provenance_identifies_non_target_claims_blocking_an_authorized_target() {
    let mut input = missed_target(Verdict::Unknown, true);
    input.candidate_exact_target_present = false;
    input.non_target_unresolved_claims = 1;
    assert_eq!(
        classify_expected_grounded_miss(input),
        Some(ExpectedGroundedMissClass::ArtifactBlockedByNonTargetClaims)
    );
    assert!(!canonical_recovery_eligible(true, false, Verdict::Unknown, true));
}

#[test]
fn failure_provenance_distinguishes_resolution_not_requested() {
    let mut input = missed_target(Verdict::Unknown, false);
    input.expected_outcome = ExpectedOutcome::GroundedAfterResolution;
    assert_eq!(
        classify_expected_grounded_miss(input),
        Some(ExpectedGroundedMissClass::ResolutionNotRequested)
    );
    input.resolution_requested = true;
    assert_eq!(
        classify_expected_grounded_miss(input),
        Some(ExpectedGroundedMissClass::ResolutionNotClosed)
    );
}

#[test]
fn forced_verification_wins_and_exposed_targets_are_not_misses() {
    let mut input = missed_target(Verdict::Accept, true);
    input.safety_forced_verification = true;
    assert_eq!(classify_expected_grounded_miss(input), Some(ExpectedGroundedMissClass::SufficiencyBlocked));
    input.exposed_exact_grounded_target = true;
    assert_eq!(classify_expected_grounded_miss(input), None);
}

fn arm_case(expected_outcome: ExpectedOutcome, abstained: bool, supported_non_targets: usize) -> ArmCase {
    ArmCase {
        grounded_claims: 0,
        unsupported_grounded_claims: 0,
        abstained,
        target: TargetCase {
            expected_outcome,
            exposed_grounded_targets: 0,
            supported_grounded_non_targets: supported_non_targets,
            all_targets_grounded: false,
        },
    }
}

#[test]
fn aggregate_counts_false_and_correct_abstention_separately() {
    let raw = aggregate_arm(&[
        arm_case(ExpectedOutcome::Unknown, false, 1),
        arm_case(ExpectedOutcome::Grounded, true, 0),
    ]);
    let harness_case = |expected_outcome, abstained| HarnessCase {
        arm: arm_case(expected_outcome, abstained, 0),
        resolution_attempts: 0,
        resolution_succeeded: false,
        canonical_recovery_used: false,
        target_scoped_partial_used: false,
    };
    let harness = aggregate_harness(
        &[harness_case(ExpectedOutcome::Unknown, true), harness_case(ExpectedOutcome::Grounded, false)],
        &[],
    );
    assert_eq!(raw.missed_insufficiency, 1);
    assert_eq!(raw.target.missed_target_insufficiency, 0);
    assert_eq!(raw.target.safe_partial_unknown_cases, 1);
    assert_eq!(raw.false_abstentions, 1);
    assert_eq!(harness.arm.correct_abstentions, 1);
    assert_eq!(harness.arm.false_abstentions, 0);
    assert_eq!(harness.arm.target.false_target_abstentions, 1);
}

#[test]
fn target_totals_split_unknown_and_grounded_cases() {
    let cases = [
        TargetCase { expected_outcome: ExpectedOutcome::Unknown, exposed_grounded_targets: 2, supported_grounded_non_targets: 0, all_targets_grounded: true },
        TargetCase { expected_outcome: ExpectedOutcome::Unknown, exposed_grounded_targets: 0, supported_grounded_non_targets: 3, all_targets_grounded: false },
        TargetCase { expected_outcome: ExpectedOutcome::GroundedAfterResolution, exposed_grounded_targets: 1, supported_grounded_non_targets: 1, all_targets_grounded: true },
    ];
    let totals = aggregate_target(&cases);
    assert_eq!(totals.expected_unknown_cases, 2);
    assert_eq!(totals.correct_target_abstentions, 1);
    assert_eq!(totals.missed_target_insufficiency, 1);
    assert_eq!(totals.grounded_targets_on_unknown, 2);
    assert_eq!(totals.safe_partial_unknown_cases, 1);
    assert_eq!(totals.supported_non_target_grounded_claims_on_unknown, 3);
    assert_eq!(totals.expected_grounded_cases, 1);
    assert_eq!(totals.fully_grounded_target_cases, 1);
    assert_eq!(totals.false_target_abstentions, 0);
}

#[test]
fn provenance_tallies_only_missed_grounded_targets() {
    let trace = |expected, exposed, recoverable, class| ProvenanceTrace {
        expected_grounded: expected,
        exposed_exact_grounded_target: exposed,
        canonical_recovery_eligible: recoverable,
        miss_class: class,
    };
    let provenance = aggregate_failure_provenance(&[
        trace(true, false, true, Some(ExpectedGroundedMissClass::AcceptRenderClaimOmission)),
        trace(true, true, false, None),
        trace(false, false, false, Some(ExpectedGroundedMissClass::Other)),
        trace(true, false, false, Some(ExpectedGroundedMissClass::AcceptRenderClaimOmission)),
        trace(true, false, false, Some(ExpectedGroundedMissClass::TargetUnverified)),
    ]);
    assert_eq!(provenance.expected_grounded_targets, 4);
    assert_eq!(provenance.missed_grounded_targets, 3);
    assert_eq!(provenance.classified_misses, 3);
    assert_eq!(provenance.canonical_recovery_eligible, 1);
    assert_eq!(
        provenance.miss_classes,
        vec![
            (ExpectedGroundedMissClass::AcceptRenderClaimOmission.as_str().to_string(), 2),
            (ExpectedGroundedMissClass::TargetUnverified.as_str().to_string(), 1),
        ]
    );
}
