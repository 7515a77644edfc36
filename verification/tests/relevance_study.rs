use reasoning_harness_cli::evidence_relevance::{
    simple_lexical_baseline, Disposition, ExecutionSummary, Signal, SignalKind, TargetEntity,
    UsageSummary,
};
use reasoning_harness_cli::failures::ModelErrorKind;
use reasoning_harness_cli::relevance_calls::{
    adapter_call_model_failure, call_execution, case_execution, failure_observation, fallback_permitted,
    merge_failed_qualification, merge_qualification, model_failure, primary_step,
    success_observation, BindingProposal, CallFailure, CallTally, CaseExpectation, PrimaryResult,
    PrimaryStep, ProviderError,
};
use reasoning_harness_cli::relevance_manifest::{
    select_cases, validate_manifest, Manifest, ManifestCase, ManifestError, SelectionError,
};
use reasoning_harness_cli::relevance_metrics::{summarize_metrics, LocalQualification};
use reasoning_harness_cli::tally::tally_add;

const CONTEXT_GAP: u8 = 1;

fn usage(input: u64, output: u64) -> UsageSummary {
    UsageSummary { input_tokens: input, output_tokens: output, total_tokens: input + output }
}

fn tally(model_calls: u32, provider_attempts: u32) -> CallTally {
    CallTally {
        used_structured_fallback: false,
        model_calls,
        provider_attempts,
        usage: UsageSummary::new(),
        provider_model: Some("fixture-model".into()),
        finish_reason: Some("stop".into()),
    }
}

fn clean_relevant_case() -> CaseExpectation {
    CaseExpectation {
        proposal: BindingProposal { target_binding: 0, relation_binding: 0 },
        local_qualification: LocalQualification { scope_risk: None, identity_scope: 0, relation_scope: 0 },
        disposition: Disposition::Relevant,
    }
}

#[test]
fn effective_metrics_are_separate_from_raw_verifier_metrics() {
    let case = clean_relevant_case();
    let raw = LocalQualification { scope_risk: Some(CONTEXT_GAP), ..case.local_qualification };
    let effective = case.local_qualification;
    let observation = success_observation(
        case,
        Disposition::Ambiguous,
        case.proposal,
        raw,
        effective,
        Disposition::Relevant,
        1,
        tally(2, 2),
    );
    let metrics = summarize_metrics(&[observation]);
    assert_eq!(metrics.qualifications.local_qualification_exact_matches, 0);
    assert_eq!(metrics.qualifications.qualification_spurious_scope_risks, 1);
    assert_eq!(metrics.qualifications.effective_local_qualification_derivations, 1);
    assert_eq!(metrics.qualifications.effective_local_qualification_exact_matches, 1);
    assert_eq!(metrics.qualifications.effective_qualification_spurious_scope_risks, 0);
    assert_eq!(metrics.dispositions.materialized_exact_matches, 1);
}

#[test]
fn failed_cases_are_tallied_by_class_and_kept_out_of_latency_of_successes() {
    let case = clean_relevant_case();
    let failure = |class: &str, message: &str| CallFailure {
        class: class.into(),
        message: message.into(),
        used_structured_fallback: false,
        model_calls: 1,
        provider_attempts: 1,
        provider_attempts_complete: true,
        usage: usage(3, 1),
        provider_model: None,
        finish_reason: None,
    };
    let first = failure_observation(case, Disposition::Relevant, 40, failure("rate_limit", "slow down"));
    assert!(first.failed);
    assert!(!first.local_qualification_invoked);
    let second = failure_observation(case, Disposition::Ambiguous, 50, failure("rate_limit", "local qualification failed: x"));
    assert!(second.local_qualification_invoked);
    let third = failure_observation(case, Disposition::Ambiguous, 60, failure("protocol", "bad json"));
    assert_eq!(third.execution, ExecutionSummary {
        provider_attempts_started: 0,
        provider_attempts_completed: 0,
        active_ms: 0,
        wait_ms: 0,
        pacing_wait_ms: 0,
        retry_wait_ms: 0,
    });
    let fine = success_observation(case, Disposition::Relevant, case.proposal, case.local_qualification,
        case.local_qualification, Disposition::Relevant, 10, tally(2, 2));
    let metrics = summarize_metrics(&[first, second, third, fine]);
    assert_eq!(metrics.cases, 4);
    assert_eq!(metrics.failed_provider_cases, 3);
    assert_eq!(metrics.dispositions.successful_provider_cases, 1);
    assert_eq!(metrics.dispositions.lexical_exact_matches, 2);
    assert_eq!(
        metrics.failure_counts,
        vec![("protocol".to_string(), 1), ("rate_limit".to_string(), 2)]
    );
    assert_eq!(metrics.totals.model_calls, 5);
    assert_eq!(metrics.totals.input_tokens, 9);
    assert_eq!(metrics.latency.latency_max_ms, Some(60));
    assert_eq!(metrics.latency.successful_latency_max_ms, Some(10));
    assert_eq!(metrics.latency.successful_latency_p50_ms, Some(10));
}

#[test]
fn guard_override_needs_an_ambiguous_materialization_and_a_mismatch() {
    let case = clean_relevant_case();
    let other = BindingProposal { target_binding: 1, relation_binding: 0 };
    let q = case.local_qualification;
    let overridden = success_observation(case, Disposition::Relevant, other, q, q, Disposition::Ambiguous, 1, tally(1, 1));
    assert!(overridden.deterministic_guard_override);
    assert_eq!(overridden.proposal_match, Some(false));
    let kept = success_observation(case, Disposition::Relevant, case.proposal, q, q, Disposition::Ambiguous, 1, tally(1, 1));
    assert!(!kept.deterministic_guard_override);
    let decided = success_observation(case, Disposition::Relevant, other, q, q, Disposition::Irrelevant, 1, tally(1, 1));
    assert!(!decided.deterministic_guard_override);
}

#[test]
fn primary_calls_fall_back_only_from_a_structured_transport() {
    assert_eq!(primary_step(false, PrimaryResult::Parsed, true), PrimaryStep::Accept);
    assert_eq!(primary_step(false, PrimaryResult::ParseFailed, true), PrimaryStep::Fallback);
    assert_eq!(primary_step(false, PrimaryResult::ParseFailed, false), PrimaryStep::FailProtocol);
    assert_eq!(primary_step(true, PrimaryResult::ParseFailed, true), PrimaryStep::FailProtocol);
    assert_eq!(primary_step(false, PrimaryResult::UnsupportedCapability, true), PrimaryStep::Fallback);
    assert_eq!(primary_step(false, PrimaryResult::UnsupportedCapability, false), PrimaryStep::FailModel);
    assert_eq!(primary_step(true, PrimaryResult::UnsupportedCapability, true), PrimaryStep::FailCall);
    assert_eq!(primary_step(false, PrimaryResult::OtherFailure, true), PrimaryStep::FailCall);
    assert!(fallback_permitted(1, 2));
    assert!(!fallback_permitted(2, 2));
}

#[test]
fn call_execution_charges_at_least_the_elapsed_time_less_waits() {
    let (charged, overran) = call_execution(None, 1, 900, 1000);
    assert_eq!(charged.provider_attempts_started, 1);
    assert_eq!(charged.active_ms, 900);
    assert!(!overran);
    let telemetry = ExecutionSummary {
        provider_attempts_started: 2,
        provider_attempts_completed: 1,
        active_ms: 100,
        wait_ms: 300,
        pacing_wait_ms: 100,
        retry_wait_ms: 200,
    };
    let (charged, overran) = call_execution(Some(telemetry), 9, 1500, 1000);
    assert_eq!(charged.provider_attempts_started, 2);
    assert_eq!(charged.active_ms, 1200);
    assert_eq!(charged.wait_ms, 300);
    assert!(overran);
}

#[test]
fn provider_failures_keep_their_attempt_accounting() {
    let error = ProviderError { kind: ModelErrorKind::RateLimit, message: "too many".into(), provider_attempts: 3 };
    let failure = model_failure(&error, true, 2, 3, usage(1, 1), None, Some("length".into()));
    assert_eq!(failure.class, "rate_limit");
    assert!(failure.provider_attempts_complete);
    assert!(failure.used_structured_fallback);
    let execution = ExecutionSummary {
        provider_attempts_started: 4,
        provider_attempts_completed: 3,
        active_ms: 0,
        wait_ms: 0,
        pacing_wait_ms: 0,
        retry_wait_ms: 0,
    };
    let failed = adapter_call_model_failure(Some(&error), execution, false, false, 1, 1, UsageSummary::new(), None, None);
    assert_eq!(failed.provider_attempts, 5);
    assert!(!failed.provider_attempts_complete);
    let timed_out = adapter_call_model_failure(None, execution, true, false, 1, 1, UsageSummary::new(), None, None);
    assert_eq!(timed_out.class, "case_absolute_timeout");
    assert_eq!(timed_out.message, "provider call exceeded bounded execution budget; case_absolute_timeout");
    assert_eq!(timed_out.provider_attempts, 5);
    let assessment = adapter_call_model_failure(None, execution, false, false, 1, 0, UsageSummary::new(), None, None);
    assert_eq!(assessment.class, "assessment_timeout");
}

#[test]
fn qualification_stage_is_merged_into_the_proposal_stage() {
    let mut prior = tally(1, 1);
    prior.usage = usage(10, 2);
    let mut stage = tally(2, 3);
    stage.used_structured_fallback = true;
    stage.usage = usage(5, 1);
    stage.provider_model = None;
    stage.finish_reason = Some("length".into());
    let merged = merge_qualification(prior, stage);
    assert!(merged.used_structured_fallback);
    assert_eq!(merged.model_calls, 3);
    assert_eq!(merged.provider_attempts, 4);
    assert_eq!(merged.usage.total_tokens, 18);
    assert_eq!(merged.provider_model.as_deref(), Some("fixture-model"));
    assert_eq!(merged.finish_reason.as_deref(), Some("length"));

    let failure = CallFailure {
        class: "protocol".into(),
        message: "bad json".into(),
        used_structured_fallback: false,
        model_calls: 2,
        provider_attempts: 2,
        provider_attempts_complete: true,
        usage: usage(1, 1),
        provider_model: None,
        finish_reason: None,
    };
    let failed = merge_failed_qualification(tally(1, u32::MAX), failure);
    assert_eq!(failed.message, "local qualification failed: bad json");
    assert_eq!(failed.model_calls, 3);
    assert_eq!(failed.provider_attempts, u32::MAX);
    assert_eq!(failed.provider_model.as_deref(), Some("fixture-model"));
}

fn entity(name: &str, aliases: &[&str]) -> Option<TargetEntity> {
    Some(TargetEntity { canonical_name: name.into(), aliases: aliases.iter().map(|a| a.to_string()).collect() })
}

fn signal(kind: SignalKind, text: &str) -> Signal {
    Signal { kind, text: text.into() }
}

#[test]
fn lexical_baseline_exposes_known_limitations() {
    let target = entity("Acme Robotics", &["ACME"]);
    assert_eq!(
        simple_lexical_baseline(&target, &vec![signal(SignalKind::Other, "Quarterly report of acme robotics, Inc.")]),
        Disposition::Relevant
    );
    // A page that names the target for a different subject still reads as relevant.
    assert_eq!(
        simple_lexical_baseline(&target, &vec![signal(SignalKind::Other, "Competitor of Acme hires staff")]),
        Disposition::Relevant
    );
    assert_eq!(
        simple_lexical_baseline(&target, &vec![signal(SignalKind::NavigationOrFooter, "Acme Robotics home")]),
        Disposition::Ambiguous
    );
    assert_eq!(
        simple_lexical_baseline(&target, &vec![signal(SignalKind::CanonicalUrl, "acme robotics")]),
        Disposition::Ambiguous
    );
    assert_eq!(simple_lexical_baseline(&None, &vec![signal(SignalKind::Other, "Acme")]), Disposition::Ambiguous);
    assert_eq!(simple_lexical_baseline(&target, &vec![]), Disposition::Ambiguous);
}

fn manifest(cases: Vec<ManifestCase>) -> Manifest {
    Manifest {
        suite_id: "evidence-relevance-calibration-v19".into(),
        issue: 462,
        status: "fresh_unobserved_calibration".into(),
        source_rule: "synthetic cases only".into(),
        annotation_protocol_id: "evidence-relevance-effective-qualification-v19".into(),
        fixed_core_id: "evidence-relevance-fixed-core-v1".into(),
        cases,
    }
}

fn cases(n: usize) -> Vec<ManifestCase> {
    (0..n)
        .map(|i| ManifestCase { id: format!("case-{i}"), family: "family".into(), task: "task".into() })
        .collect()
}

#[test]
fn manifest_bindings_are_checked_in_order() {
    assert_eq!(validate_manifest(&manifest(cases(48))), Ok(()));
    assert_eq!(validate_manifest(&manifest(cases(47))), Err(ManifestError::UnexpectedCaseCount));
    let mut wrong_suite = manifest(cases(47));
    wrong_suite.suite_id = "v18".into();
    assert_eq!(validate_manifest(&wrong_suite), Err(ManifestError::UnexpectedSuiteId));
    let mut incident = manifest(cases(48));
    incident.source_rule = "Includes PRODUCTION_INCIDENT_INCLUDED material".into();
    assert_eq!(validate_manifest(&incident), Err(ManifestError::ProductionIncidentIncluded));
    let mut blank = cases(48);
    blank[3].task = "   ".into();
    assert_eq!(validate_manifest(&manifest(blank)), Err(ManifestError::BlankCaseField));
    let mut duplicate = cases(48);
    duplicate[5].id = "case-2".into();
    assert_eq!(
        validate_manifest(&manifest(duplicate)),
        Err(ManifestError::DuplicateCaseId("case-2".into()))
    );
}

#[test]
fn fixture_selection_keeps_the_named_order_and_refuses_unknown_or_repeated_ids() {
    let ids: Vec<String> = vec!["a".into(), "b".into(), "c".into()];
    assert_eq!(select_cases(&ids, &vec![]), Ok(vec![0, 1, 2]));
    assert_eq!(select_cases(&ids, &vec!["c".into(), "a".into()]), Ok(vec![2, 0]));
    assert_eq!(
        select_cases(&ids, &vec!["a".into(), "z".into()]),
        Err(SelectionError::UnknownFixture("z".into()))
    );
    assert_eq!(
        select_cases(&ids, &vec!["b".into(), "b".into()]),
        Err(SelectionError::DuplicateFixture("b".into()))
    );
}

#[test]
fn tally_keeps_labels_ascending_and_counts_each() {
    let mut counts: Vec<(String, usize)> = vec![];
    for label in ["quota", "protocol", "quota", "assessment_timeout"] {
        tally_add(&mut counts, &label.to_string());
    }
    assert_eq!(
        counts,
        vec![
            ("assessment_timeout".to_string(), 1),
            ("protocol".to_string(), 1),
            ("quota".to_string(), 2),
        ]
    );
}

#[test]
fn case_execution_falls_back_to_attempts_and_elapsed_time_without_telemetry() {
    let delta = ExecutionSummary {
        provider_attempts_started: 4,
        provider_attempts_completed: 3,
        active_ms: 70,
        wait_ms: 20,
        pacing_wait_ms: 5,
        retry_wait_ms: 15,
    };
    assert_eq!(case_execution(Some(delta), 9, true, 1000), delta);
    let inferred = case_execution(None, 2, true, 125);
    assert_eq!(inferred, ExecutionSummary {
        provider_attempts_started: 2,
        provider_attempts_completed: 2,
        active_ms: 125,
        wait_ms: 0,
        pacing_wait_ms: 0,
        retry_wait_ms: 0,
    });
    let incomplete = case_execution(None, 2, false, u128::MAX);
    assert_eq!(incomplete.provider_attempts_completed, 0);
    assert_eq!(incomplete.active_ms, u64::MAX);
}
