use reasoning_harness_cli::external_info::{now_unix, unix_time_from_clock};
use reasoning_harness_cli::cross_model::{CalibrationLabel, SoftJudgeDecision};
use reasoning_harness_cli::cross_model_report::StudyCase;
use reasoning_harness_cli::claims::{AnswerClaim, ClaimMode, Proposition};
use reasoning_harness_cli::external_info::{
    account_external, aggregate, is_case_file_name, operational_key, raw_metrics, rejection_key,
    retrieval_slack_seconds, semantic_arm, validate_cases, validation_comparison,
    AdmissionRejection, ArmObservation,
    Attempt, AttemptStatus, CaseSetError, ExpectedOutcome, FrozenCase,
    StudyCase as ExternalCase,
};
use reasoning_harness_cli::materialization::StudyArm;
use reasoning_harness_cli::materialization_report::{
    compare_arms, compare_cases, summarize_arm, ArmCases, ComparisonError, DecisionTransition,
};

fn run(fixture: &str, trial: usize, seed: Option<u64>, decision: Option<SoftJudgeDecision>) -> StudyCase {
    StudyCase {
        fixture_id: fixture.into(),
        trial,
        label: CalibrationLabel::Positive,
        decision,
        seed,
        latency_ms: 5,
        input_tokens: Some(1),
        output_tokens: Some(2),
        total_tokens: Some(3),
        advisory_note_present: false,
    }
}

#[test]
fn materialized_decisions_are_compared_on_the_same_fixture_trial_and_seed() {
    let baseline = vec![
        run("a", 0, Some(1), Some(SoftJudgeDecision::Finding)),
        run("b", 0, Some(1), Some(SoftJudgeDecision::Abstain)),
        run("c", 0, Some(1), None),
    ];
    let materialized = vec![
        run("c", 0, Some(1), Some(SoftJudgeDecision::NoFinding)),
        run("b", 0, Some(1), Some(SoftJudgeDecision::Abstain)),
        run("a", 0, Some(1), Some(SoftJudgeDecision::NoFinding)),
    ];
    let comparison = compare_cases(&baseline, &materialized).unwrap();
    assert_eq!(comparison.matched_keys, 3);
    assert_eq!(comparison.matched_successful_pairs, 2);
    assert_eq!(comparison.operationally_incomplete_pairs, 1);
    assert_eq!(comparison.changed_decisions, 1);
    assert_eq!(
        comparison.transitions,
        vec![
            DecisionTransition { from: SoftJudgeDecision::Finding, to: SoftJudgeDecision::NoFinding, count: 1 },
            DecisionTransition { from: SoftJudgeDecision::Abstain, to: SoftJudgeDecision::Abstain, count: 1 },
        ]
    );
    let summary = summarize_arm(&baseline, 3, 1);
    assert_eq!(summary.runs.successful_runs, 2);
    assert_eq!(summary.usage.output_tokens, 6);
    assert!(!summary.runs.trials[0].operationally_complete);
}

#[test]
fn arms_that_cannot_be_paired_are_refused() {
    let duplicate = vec![run("a", 0, Some(1), None), run("a", 0, Some(1), None)];
    assert_eq!(
        compare_cases(&duplicate, &vec![run("a", 0, Some(1), None)]).unwrap_err(),
        ComparisonError::DuplicateKey("a".into(), 0, Some(1))
    );
    assert_eq!(
        compare_cases(&vec![run("a", 0, Some(1), None)], &vec![run("a", 0, Some(2), None)]).unwrap_err(),
        ComparisonError::KeysDiffer
    );
    let only_baseline = vec![ArmCases { arm: StudyArm::V3FullJson, cases: vec![] }];
    assert_eq!(compare_arms(&only_baseline).unwrap_err(), ComparisonError::MissingMaterializedArm);
    let only_materialized = vec![ArmCases { arm: StudyArm::HarnessMaterializedDecision, cases: vec![] }];
    assert_eq!(compare_arms(&only_materialized).unwrap_err(), ComparisonError::MissingBaselineArm);
    let both = vec![
        ArmCases { arm: StudyArm::HarnessMaterializedDecision, cases: vec![run("a", 0, None, Some(SoftJudgeDecision::Finding))] },
        ArmCases { arm: StudyArm::V3FullJson, cases: vec![run("a", 0, None, Some(SoftJudgeDecision::Finding))] },
    ];
    let comparison = compare_arms(&both).unwrap();
    assert_eq!(comparison.changed_decisions, 0);
    assert_eq!(comparison.matched_successful_pairs, 1);
}

#[test]
fn external_acquisition_is_accounted_by_status_and_rejection() {
    let attempt = |status, admitted, rejection| Attempt { status, admitted_evidence: admitted, admission_rejection: rejection };
    let accounting = account_external(
        "authority_claim_mismatch",
        true,
        false,
        &[
            attempt(AttemptStatus::AppliedEvidence, 2, None),
            attempt(AttemptStatus::RejectedUntrustedEvidence, 0, Some(AdmissionRejection::Stale)),
            attempt(AttemptStatus::RejectedUntrustedEvidence, 0, Some(AdmissionRejection::ScopeExpansion)),
            attempt(AttemptStatus::TimedOut, 0, None),
            attempt(AttemptStatus::TimedOut, 0, None),
            attempt(AttemptStatus::Other, 0, Some(AdmissionRejection::AuthorityClaimMismatch)),
        ],
        3,
    );
    assert_eq!(accounting.acquisition_attempts, 6);
    assert_eq!(accounting.acquisition_successes, 3);
    assert_eq!(accounting.admitted_evidence, 2);
    assert_eq!(
        accounting.admission_rejections,
        vec![
            ("authority_claim_mismatch".to_string(), 1),
            ("scope_expansion".to_string(), 1),
            ("stale".to_string(), 1),
        ]
    );
    assert_eq!(accounting.operational_failures, vec![("timeout".to_string(), 2)]);
    assert_eq!(accounting.verification_successes, 1);
    assert_eq!(accounting.identity_unsafe_admission, 0);
    assert_eq!(accounting.authority_self_promotion, 1);
    assert_eq!(accounting.stale_rejections, 1);
    assert_eq!(accounting.authority_rejections, 1);
    assert_eq!(accounting.scope_rejections, 1);
    assert_eq!(accounting.conflict_rejections, 3);
    let identity = account_external("identity_no_fact", false, true, &[], 0);
    assert_eq!(identity.identity_unsafe_admission, 1);
    assert_eq!(identity.authority_self_promotion, 0);
    assert_eq!(rejection_key(AdmissionRejection::NotYetValid), "not_yet_valid");
    assert_eq!(operational_key(AttemptStatus::ToolFailed), Some("tool_execution"));
    assert_eq!(operational_key(AttemptStatus::NoResult), None);
}

#[test]
fn semantic_arms_score_only_scorable_semantic_cases() {
    let observation = |expected, scorable, grounded, unsupported| ArmObservation {
        expected,
        scorable,
        target_grounded: grounded,
        unsupported_grounded_claims: unsupported,
    };
    let arm = semantic_arm(&[
        observation(ExpectedOutcome::Grounded, true, true, 0),
        observation(ExpectedOutcome::Grounded, true, false, 1),
        observation(ExpectedOutcome::Unknown, true, true, 2),
        observation(ExpectedOutcome::Unknown, false, true, 5),
        observation(ExpectedOutcome::OperationalFailure, true, false, 7),
    ]);
    assert_eq!(arm.semantic_cases_scored, 3);
    assert_eq!(arm.expected_grounded_cases_scored, 2);
    assert_eq!(arm.expected_unknown_cases_scored, 1);
    assert_eq!(arm.expected_grounded_targets_exposed, 1);
    assert_eq!(arm.false_target_abstention, 1);
    assert_eq!(arm.expected_unknown_preserved, 0);
    assert_eq!(arm.missed_target_insufficiency, 1);
    assert_eq!(arm.unsupported_grounded_claims, 3);
}

fn external_case(expected: ExpectedOutcome, incomplete: bool, grounded: bool) -> ExternalCase {
    ExternalCase {
        expected,
        operationally_incomplete: incomplete,
        target_grounded: grounded,
        acquisition_attempts: 2,
        acquisition_successes: 1,
        verification_successes: usize::from(grounded),
        unsupported_grounded_claims: 0,
        identity_unsafe_admission: 0,
        authority_self_promotion: 0,
        stale_rejections: 0,
        authority_rejections: 0,
        scope_rejections: 1,
        conflict_rejections: 0,
        operational_failure_count: usize::from(incomplete),
    }
}

#[test]
fn study_aggregate_passes_safety_only_without_missed_insufficiency() {
    let safe = aggregate(&[
        external_case(ExpectedOutcome::Grounded, false, true),
        external_case(ExpectedOutcome::Unknown, false, false),
        external_case(ExpectedOutcome::OperationalFailure, true, false),
        external_case(ExpectedOutcome::Grounded, true, false),
    ]);
    assert_eq!(safe.total_cases, 4);
    assert_eq!(safe.counts.semantic_cases, 3);
    assert_eq!(safe.counts.semantic_cases_scored, 2);
    assert_eq!(safe.counts.semantic_cases_operationally_incomplete, 1);
    assert_eq!(safe.counts.operational_cases, 1);
    assert_eq!(safe.counts.expected_grounded_targets_exposed, 1);
    assert_eq!(safe.counts.expected_unknown_preserved, 1);
    assert_eq!(safe.totals.external_acquisition_attempts, 8);
    assert_eq!(safe.totals.scope_rejection, 4);
    assert_eq!(safe.totals.tool_protocol_timeout_operational_failures, 2);
    assert!(safe.safety_checks_passed);
    let unsafe_run = aggregate(&[external_case(ExpectedOutcome::Unknown, false, true)]);
    assert_eq!(unsafe_run.counts.missed_target_insufficiency, 1);
    assert!(!unsafe_run.safety_checks_passed);
}

fn frozen(id: &str, family: &str, target: &str) -> FrozenCase {
    FrozenCase {
        id: id.into(),
        capability_family: family.into(),
        target_identity: target.into(),
        acquisition_profiles: 1,
        expected: ExpectedOutcome::Grounded,
        has_operational_class: false,
    }
}

fn frozen_set() -> Vec<FrozenCase> {
    (0..21)
        .map(|i| frozen(&format!("case-{i}"), &format!("family-{}", i / 3), &format!("target-{i}")))
        .collect()
}

#[test]
fn frozen_case_set_has_seven_families_of_three_distinct_cases() {
    assert_eq!(validate_cases(&frozen_set()), Ok(()));
    let mut short = frozen_set();
    short.pop();
    assert_eq!(validate_cases(&short), Err(CaseSetError::CaseCount(20)));
    let mut repeated = frozen_set();
    repeated[4].target_identity = "target-1".into();
    assert_eq!(validate_cases(&repeated), Err(CaseSetError::DuplicateTargetIdentity("target-1".into())));
    let mut no_profile = frozen_set();
    no_profile[2].acquisition_profiles = 0;
    assert_eq!(validate_cases(&no_profile), Err(CaseSetError::NoAcquisitionProfile("case-2".into())));
    let mut untyped = frozen_set();
    untyped[9].expected = ExpectedOutcome::OperationalFailure;
    assert_eq!(validate_cases(&untyped), Err(CaseSetError::UntypedOperationalCase("case-9".into())));
    let mut lopsided = frozen_set();
    lopsided[0].capability_family = "family-1".into();
    assert_eq!(validate_cases(&lopsided), Err(CaseSetError::FamilyShape));
}

#[test]
fn case_files_and_retrieval_slack() {
    assert!(is_case_file_name("01-weather.json"));
    assert!(!is_case_file_name("1a-weather.json"));
    assert!(!is_case_file_name("01-weather.yaml"));
    assert!(!is_case_file_name("01"));
    assert_eq!(retrieval_slack_seconds(&[]), 3);
    assert_eq!(retrieval_slack_seconds(&[1000]), 3);
    assert_eq!(retrieval_slack_seconds(&[1001, 250]), 4);
    assert_eq!(retrieval_slack_seconds(&[2500, 4000]), 6);
}

#[test]
fn validation_runs_score_every_semantic_case_and_nothing_else() {
    let comparison = validation_comparison(&[
        ExpectedOutcome::Grounded,
        ExpectedOutcome::Unknown,
        ExpectedOutcome::OperationalFailure,
        ExpectedOutcome::Grounded,
    ]);
    assert_eq!(comparison.raw_model.semantic_cases_scored, 3);
    assert_eq!(comparison.raw_model.expected_grounded_cases_scored, 2);
    assert_eq!(comparison.raw_model.expected_unknown_cases_scored, 1);
    assert_eq!(comparison.raw_model.expected_grounded_targets_exposed, 0);
    assert_eq!(comparison.harness_with_mcp_external_acquisition, comparison.raw_model);
}

#[test]
fn raw_model_grounded_claims_are_all_unsupported() {
    let target = Proposition::new("weather.city", "Tokyo");
    let claims = vec![
        AnswerClaim { proposition: Proposition::new("weather.city", "Tokyo"), mode: ClaimMode::Uncertain },
        AnswerClaim { proposition: Proposition::new("weather.temp", "20"), mode: ClaimMode::Grounded },
    ];
    let arm = raw_metrics(&claims, &target);
    assert!(arm.exact_target_exposed);
    assert!(!arm.exact_target_grounded_claim);
    assert_eq!(arm.factual_claims, 2);
    assert_eq!(arm.unsupported_grounded_claims, 1);
    assert!(!arm.abstained);
    let silent = raw_metrics(&vec![], &target);
    assert!(silent.abstained);
    assert!(!silent.exact_target_exposed);
}

#[test]
fn clock_readings_become_unix_time_or_their_failure() {
    assert_eq!(unix_time_from_clock(Ok(42)), Ok(42));
    assert_eq!(unix_time_from_clock(Ok(1u64 << 63)), Err("current unix time overflow".to_string()));
    assert_eq!(unix_time_from_clock(Err("skew".into())), Err("skew".to_string()));
    assert!(now_unix().unwrap() > 1_600_000_000);
}
