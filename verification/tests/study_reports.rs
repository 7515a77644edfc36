use reasoning_harness_cli::cross_model::{CalibrationLabel, SoftJudgeDecision};
use reasoning_harness_cli::cross_model_report::{
    group_probes, selective_policy_metrics, summarize_source, usage_totals, GroupingError,
    PolicyFixture, StudyCase,
};
use reasoning_harness_cli::identity_probe::{
    gated_binding, summarize, DistinctnessConfirmation, Disposition, Observation, TargetBinding,
};
use reasoning_harness_cli::knowledge::{
    aggregate, cases, passed, percentile, ExpectedOutcome, Sample, Verdict,
};

fn run(fixture: &str, trial: usize, label: CalibrationLabel, decision: Option<SoftJudgeDecision>) -> StudyCase {
    StudyCase {
        fixture_id: fixture.into(),
        trial,
        label,
        decision,
        seed: Some(trial as u64),
        latency_ms: 100,
        input_tokens: Some(10),
        output_tokens: None,
        total_tokens: Some(12),
        advisory_note_present: decision.is_none(),
    }
}

#[test]
fn source_summary_scores_only_operationally_complete_trials() {
    let cases = vec![
        run("a", 0, CalibrationLabel::Positive, Some(SoftJudgeDecision::Finding)),
        run("b", 0, CalibrationLabel::Negative, Some(SoftJudgeDecision::Finding)),
        run("a", 1, CalibrationLabel::Positive, None),
        run("b", 1, CalibrationLabel::Negative, Some(SoftJudgeDecision::NoFinding)),
    ];
    let summary = summarize_source(&cases, 2, 2);
    assert_eq!(summary.attempted_runs, 4);
    assert_eq!(summary.successful_runs, 3);
    assert_eq!(summary.failed_runs, 1);
    assert_eq!(summary.total_tokens, 48);
    assert_eq!(summary.total_latency_ms, 400);
    assert_eq!(summary.trials.len(), 2);
    let complete = summary.trials[0];
    assert!(complete.operationally_complete);
    let counts = complete.counts.unwrap();
    assert_eq!(counts.true_positives, 1);
    assert_eq!(counts.false_positives, 1);
    assert_eq!(counts.clear_decided, 2);
    let incomplete = summary.trials[1];
    assert!(!incomplete.operationally_complete);
    assert_eq!(incomplete.expected_cases, 2);
    assert_eq!(incomplete.successful_cases, 1);
    assert!(incomplete.counts.is_none());
    let usage = usage_totals(&cases);
    assert_eq!(usage.input_tokens, 40);
    assert_eq!(usage.output_tokens, 0);
    assert_eq!(usage.total_tokens, 48);
    assert_eq!(usage.advisory_note_runs, 1);
}

#[test]
fn probes_are_grouped_by_fixture_and_trial_across_sources() {
    let first = vec![
        run("b", 0, CalibrationLabel::Negative, Some(SoftJudgeDecision::NoFinding)),
        run("a", 0, CalibrationLabel::Positive, Some(SoftJudgeDecision::Finding)),
    ];
    let second = vec![
        run("a", 0, CalibrationLabel::Positive, None),
        run("b", 0, CalibrationLabel::Negative, Some(SoftJudgeDecision::Abstain)),
    ];
    let groups = group_probes(&vec![first, second], 1).unwrap();
    assert_eq!(groups.len(), 2);
    assert_eq!(groups[0].fixture_id, "a");
    assert_eq!(groups[0].label, CalibrationLabel::Positive);
    assert_eq!(groups[0].per_trial.len(), 1);
    assert_eq!(groups[0].per_trial[0].len(), 2);
    assert_eq!(groups[0].per_trial[0][0].source, 0);
    assert_eq!(groups[0].per_trial[0][0].decision, Some(SoftJudgeDecision::Finding));
    assert_eq!(groups[0].per_trial[0][1].source, 1);
    assert_eq!(groups[0].per_trial[0][1].decision, None);
    assert_eq!(groups[1].fixture_id, "b");
}

#[test]
fn grouping_refuses_mismatched_labels_missing_trials_and_missing_sources() {
    let mislabelled = vec![
        vec![run("a", 0, CalibrationLabel::Positive, None)],
        vec![run("a", 0, CalibrationLabel::Negative, None)],
    ];
    assert_eq!(group_probes(&mislabelled, 1).unwrap_err(), GroupingError::LabelMismatch("a".into()));
    let one_trial = vec![vec![run("a", 0, CalibrationLabel::Positive, None)]];
    assert_eq!(group_probes(&one_trial, 2).unwrap_err(), GroupingError::MissingTrial(1, "a".into()));
    let missing_source = vec![
        vec![run("a", 0, CalibrationLabel::Positive, None), run("b", 0, CalibrationLabel::Positive, None)],
        vec![run("a", 0, CalibrationLabel::Positive, None)],
    ];
    assert_eq!(
        group_probes(&missing_source, 1).unwrap_err(),
        GroupingError::SourceCountMismatch("b".into(), 0)
    );
}

#[test]
fn selective_policy_counts_risk_and_escalations() {
    let fixture = |label, risk, decision, escalated| PolicyFixture {
        label,
        has_risk_signals: risk,
        operationally_incomplete: false,
        decision,
        escalated_to_abstain: escalated,
    };
    let metrics = selective_policy_metrics(&[
        fixture(CalibrationLabel::Positive, false, SoftJudgeDecision::Finding, false),
        fixture(CalibrationLabel::Negative, true, SoftJudgeDecision::Abstain, true),
        fixture(CalibrationLabel::Ambiguous, true, SoftJudgeDecision::Abstain, false),
    ]);
    assert_eq!(metrics.fixture_count, 3);
    assert_eq!(metrics.risk_fixture_count, 2);
    assert_eq!(metrics.escalated_to_abstain, 1);
    assert_eq!(metrics.counts.true_positives, 1);
    assert_eq!(metrics.counts.decided, 1);
    assert_eq!(metrics.counts.clear_cases, 2);
    assert_eq!(metrics.counts.ambiguous_abstain, 1);
}

#[test]
fn unconfirmed_difference_becomes_unresolved() {
    assert_eq!(
        gated_binding(TargetBinding::Different, DistinctnessConfirmation::NotConfirmed),
        TargetBinding::Unresolved
    );
    assert_eq!(
        gated_binding(TargetBinding::Different, DistinctnessConfirmation::ConfirmedDifferent),
        TargetBinding::Different
    );
    assert_eq!(
        gated_binding(TargetBinding::Exact, DistinctnessConfirmation::ConfirmedDifferent),
        TargetBinding::Exact
    );
    let observation = |expected, observed: Option<TargetBinding>, confirmation: Option<DistinctnessConfirmation>, failed: bool| Observation {
        expected_target_binding: expected,
        expected_distinctness_confirmation: DistinctnessConfirmation::NotConfirmed,
        expected_gated_disposition: Disposition::Ambiguous,
        observed_target_binding: observed,
        observed_distinctness_confirmation: confirmation,
        baseline_disposition: Some(Disposition::Irrelevant),
        primary_target_match: observed == Some(expected),
        distinctness_match: confirmation == Some(DistinctnessConfirmation::NotConfirmed),
        gated_disposition_match: !failed,
        failed,
    };
    let metrics = summarize(&[
        observation(TargetBinding::Unresolved, Some(TargetBinding::Different), Some(DistinctnessConfirmation::ConfirmedDifferent), false),
        observation(TargetBinding::Unresolved, Some(TargetBinding::Unresolved), Some(DistinctnessConfirmation::NotConfirmed), false),
        observation(TargetBinding::Exact, None, None, true),
    ]);
    assert_eq!(metrics.observations, 3);
    assert_eq!(metrics.successful_observations, 2);
    assert_eq!(metrics.failed_observations, 1);
    assert_eq!(metrics.primary_target_matches, 1);
    assert_eq!(metrics.primary_false_different_on_unresolved, 1);
    assert_eq!(metrics.false_distinctness_confirmation_on_non_different, 1);
    assert_eq!(metrics.distinctness_matches, 1);
    assert_eq!(metrics.baseline_disposition_matches, 0);
    assert_eq!(metrics.gated_disposition_matches, 2);
}

#[test]
fn knowledge_benchmark_counts_recoveries_and_false_acceptances() {
    let all = cases();
    assert_eq!(all[0].id, "tokyo_country");
    assert_eq!(all[7].expected, ExpectedOutcome::Unknown);
    let sample = |expected, initial, final_verdict, elapsed_ms| Sample {
        expected,
        initial_verdict: initial,
        final_verdict,
        calls: 2,
        elapsed_ms,
    };
    let samples = [
        sample(ExpectedOutcome::Accept, Verdict::Unknown, Verdict::Accept, 30),
        sample(ExpectedOutcome::Reject, Verdict::Reject, Verdict::Reject, 10),
        sample(ExpectedOutcome::Unknown, Verdict::Unknown, Verdict::Accept, 20),
        sample(ExpectedOutcome::Unknown, Verdict::Unknown, Verdict::Unknown, 40),
    ];
    assert!(passed(&samples[0]));
    assert!(!passed(&samples[2]));
    let totals = aggregate(&samples);
    assert_eq!(totals.samples, 4);
    assert_eq!(totals.passed_samples, 3);
    assert_eq!(totals.expected_accept_samples, 1);
    assert_eq!(totals.verified_recoveries, 1);
    assert_eq!(totals.correct_rejections, 1);
    assert_eq!(totals.correct_unknowns, 1);
    assert_eq!(totals.false_acceptances, 1);
    assert_eq!(totals.total_calls, 8);
    assert_eq!(totals.p50_elapsed_ms, 30);
    assert_eq!(totals.p95_elapsed_ms, 40);
    assert_eq!(totals.max_elapsed_ms, 40);
    assert_eq!(percentile(&[], 50), 0);
}

#[test]
fn knowledge_cases_carry_their_answer_keys() {
    let all = cases();
    let tokyo = all.iter().find(|c| c.id == "tokyo_country").unwrap();
    assert_eq!((tokyo.entity_id, tokyo.property_id, tokyo.fact_key, tokyo.target_value), ("Q1490", "P17", "tokyo.country", "Q17"));
    assert_eq!(tokyo.expected, ExpectedOutcome::Accept);
    let wrong = all.iter().find(|c| c.id == "tokyo_wrong_country").unwrap();
    assert_eq!((wrong.workload, wrong.target_value), ("contradiction", "Q142"));
    assert_eq!(wrong.expected, ExpectedOutcome::Reject);
    let death = all.iter().find(|c| c.id == "tokyo_missing_date_of_death").unwrap();
    assert_eq!((death.property_id, death.value_kind, death.target_value), ("P570", "time", "+2020-01-01T00:00:00Z"));
}
