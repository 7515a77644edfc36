use reasoning_harness_cli::cross_model::{CalibrationLabel, SoftJudgeDecision};
use reasoning_harness_cli::decidability::{
    case_scorable, decision_metrics, escalated_to_abstain, require_study_corpus,
    summarize_aggregate, summarize_trials, Disposition, StudyCase, StudySurface, VariantOutcome,
};
use reasoning_harness_cli::decidability_fixtures::{
    checkpoint_progress, resolve_study_fixtures, source_ids_unique, trial_seed,
    validate_source_surface, CheckpointRunStatus, CheckpointSemanticStatus, ManifestVariant,
    ResolutionError, SourceFixture, SourceIdentity, SourceSurfaceError, StudyManifest,
};

fn ratio(numerator: usize, denominator: usize) -> Option<f64> {
    if denominator == 0 {
        None
    } else {
        Some(numerator as f64 / denominator as f64)
    }
}

fn synthetic_case(
    fixture_id: &str,
    label: CalibrationLabel,
    base: SoftJudgeDecision,
    force: bool,
) -> StudyCase {
    let mut variants = vec![VariantOutcome {
        variant_id: "permit".into(),
        expected_disposition: Disposition::Permit,
        composed_decision: Some(base),
        escalated_to_abstain: false,
    }];
    if force {
        variants.push(VariantOutcome {
            variant_id: "force".into(),
            expected_disposition: Disposition::ForceAbstain,
            composed_decision: Some(SoftJudgeDecision::Abstain),
            escalated_to_abstain: base != SoftJudgeDecision::Abstain,
        });
    }
    StudyCase {
        fixture_id: fixture_id.into(),
        source_fixture_id: fixture_id.into(),
        semantic_label: label,
        trial: 0,
        seed: Some(1),
        base_decision: Some(base),
        variants,
    }
}

#[test]
fn metrics_keep_force_abstention_out_of_semantic_recall_denominator() {
    let positive = synthetic_case("positive", CalibrationLabel::Positive, SoftJudgeDecision::Finding, true);
    let negative = synthetic_case("negative", CalibrationLabel::Negative, SoftJudgeDecision::NoFinding, true);
    let metrics = decision_metrics(&[positive, negative]);
    assert_eq!(metrics.eligible_true_positives, 1);
    assert_eq!(metrics.eligible_false_negatives, 0);
    assert_eq!(
        ratio(metrics.eligible_true_positives, metrics.eligible_true_positives + metrics.eligible_false_negatives),
        Some(1.0)
    );
    assert_eq!(metrics.typed_insufficiency_variants, 2);
    assert_eq!(metrics.base_unsafe_assertions, 2);
    assert_eq!(metrics.composed_unsafe_assertions, 0);
    assert_eq!(
        ratio(metrics.typed_insufficiency_abstentions, metrics.typed_insufficiency_variants),
        Some(1.0)
    );
}

#[test]
fn ambiguous_permit_controls_have_their_own_denominator() {
    let ambiguous = synthetic_case("ambiguous", CalibrationLabel::Ambiguous, SoftJudgeDecision::Abstain, false);
    let metrics = decision_metrics(&[ambiguous]);
    assert_eq!(metrics.eligible_clear_cases, 0);
    assert_eq!(metrics.eligible_ambiguous_cases, 1);
    assert_eq!(
        ratio(metrics.eligible_ambiguous_abstentions, metrics.eligible_ambiguous_cases),
        Some(1.0)
    );
    assert_eq!(metrics.typed_insufficiency_variants, 0);
}

#[test]
fn d2_and_holdout_v5_surfaces_are_canonically_disjoint() {
    let d2 = StudySurface::D2.target_relative_path();
    let v5 = StudySurface::HoldoutV5.target_relative_path();
    assert_eq!(d2, "fixtures/semantic-decidability-d2");
    assert_eq!(v5, "fixtures/semantic-decidability-holdout-v5");
    assert!(require_study_corpus(StudySurface::D2, "fixtures/semantic-decidability-d2", d2).is_ok());
    assert!(require_study_corpus(StudySurface::HoldoutV5, "fixtures/semantic-decidability-holdout-v5", v5).is_ok());
    assert!(require_study_corpus(StudySurface::D2, "fixtures/semantic-decidability-holdout-v5", d2).is_err());
    assert!(require_study_corpus(StudySurface::HoldoutV5, "fixtures/semantic-decidability-d2", v5).is_err());
}

#[test]
fn holdout_v5_preflight_rejects_recorded_observations() {
    let mut sources = vec![
        SourceIdentity { id: "v5h-01".into(), request_id: "holdout-v5-soft-v5h-01".into(), recorded_observations: 0 },
        SourceIdentity { id: "v5h-02".into(), request_id: "holdout-v5-soft-v5h-02".into(), recorded_observations: 0 },
    ];
    assert!(validate_source_surface(StudySurface::HoldoutV5, &sources).is_ok());
    sources[0].recorded_observations += 1;
    assert!(validate_source_surface(StudySurface::HoldoutV5, &sources).is_err());
    assert_eq!(
        validate_source_surface(StudySurface::HoldoutV5, &sources),
        Err(SourceSurfaceError::RecordedObservations("v5h-01".into()))
    );
    assert!(validate_source_surface(StudySurface::D2, &sources).is_ok());
}

#[test]
fn checkpoint_preserves_partial_cases_without_semantic_scoring() {
    let case = synthetic_case("partial", CalibrationLabel::Positive, SoftJudgeDecision::Finding, false);
    let cases = [case];
    let successful = cases.iter().filter(|c| c.base_decision.is_some()).count();
    let partial = checkpoint_progress(CheckpointRunStatus::InProgress, 2, cases.len(), successful, true);
    assert_eq!(partial.semantic_status.as_str(), "partial_do_not_score");
    assert_eq!(partial.started_provider_calls, 2);
    assert_eq!(partial.completed_provider_calls, 1);
    assert_eq!(StudySurface::HoldoutV5.candidate_id(), Some("semantic-decidability-d3-v1"));

    let incomplete = checkpoint_progress(CheckpointRunStatus::Completed, 2, cases.len(), successful, false);
    assert_eq!(incomplete.semantic_status, CheckpointSemanticStatus::OperationallyIncompleteDoNotScore);
    assert_eq!(incomplete.semantic_status.as_str(), "operationally_incomplete_do_not_score");
    let complete = checkpoint_progress(CheckpointRunStatus::Completed, 1, 1, 1, false);
    assert_eq!(complete.semantic_status, CheckpointSemanticStatus::FullStudyComplete);
}

#[test]
fn escalation_counts_only_decided_bases_turned_into_abstentions() {
    assert!(escalated_to_abstain(Some(SoftJudgeDecision::Finding), Some(SoftJudgeDecision::Abstain)));
    assert!(!escalated_to_abstain(Some(SoftJudgeDecision::Abstain), Some(SoftJudgeDecision::Abstain)));
    assert!(!escalated_to_abstain(None, Some(SoftJudgeDecision::Abstain)));
    assert!(!escalated_to_abstain(Some(SoftJudgeDecision::NoFinding), Some(SoftJudgeDecision::NoFinding)));
}

fn variant(id: &str, expected: Disposition, assessed: Result<Disposition, String>) -> ManifestVariant {
    ManifestVariant { id: id.into(), expected_disposition: expected, assessed }
}

fn manifest(id: &str, source: &str, label: CalibrationLabel, force: bool) -> StudyManifest {
    let mut variants = vec![variant("permit", Disposition::Permit, Ok(Disposition::Permit))];
    if force {
        variants.push(variant("force", Disposition::ForceAbstain, Ok(Disposition::ForceAbstain)));
    }
    StudyManifest { id: id.into(), source_fixture_id: source.into(), semantic_label: label, variants }
}

fn sources() -> Vec<SourceFixture> {
    vec![
        SourceFixture { id: "s1".into(), label: CalibrationLabel::Positive },
        SourceFixture { id: "s2".into(), label: CalibrationLabel::Ambiguous },
    ]
}

#[test]
fn study_manifests_resolve_to_their_own_source_fixtures() {
    let manifests = vec![
        manifest("v5d-a", "s2", CalibrationLabel::Ambiguous, false),
        manifest("v5d-b", "s1", CalibrationLabel::Positive, true),
    ];
    assert_eq!(resolve_study_fixtures(StudySurface::HoldoutV5, &manifests, &sources()), Ok(vec![1, 0]));
    assert_eq!(
        resolve_study_fixtures(StudySurface::HoldoutV5, &vec![manifest("d2-a", "s1", CalibrationLabel::Positive, false)], &sources()),
        Err(ResolutionError::HoldoutManifestId("d2-a".into()))
    );
    assert_eq!(
        resolve_study_fixtures(StudySurface::D2, &vec![manifest("d2-a", "s1", CalibrationLabel::Positive, false)], &sources()),
        Ok(vec![0])
    );
    let reused = vec![
        manifest("a", "s1", CalibrationLabel::Positive, false),
        manifest("b", "s1", CalibrationLabel::Positive, false),
    ];
    assert_eq!(
        resolve_study_fixtures(StudySurface::D2, &reused, &sources()),
        Err(ResolutionError::SourceFixtureReused("s1".into()))
    );
    assert_eq!(
        resolve_study_fixtures(StudySurface::D2, &vec![manifest("a", "s9", CalibrationLabel::Positive, false)], &sources()),
        Err(ResolutionError::SourceFixtureNotFound("s9".into()))
    );
    assert_eq!(
        resolve_study_fixtures(StudySurface::D2, &vec![manifest("a", "s1", CalibrationLabel::Negative, false)], &sources()),
        Err(ResolutionError::LabelMismatch("a".into()))
    );
    assert_eq!(
        resolve_study_fixtures(StudySurface::D2, &vec![manifest("a", "s2", CalibrationLabel::Ambiguous, true)], &sources()),
        Err(ResolutionError::InsufficiencyOnAmbiguous("a".into()))
    );
}

#[test]
fn study_variants_must_agree_with_the_decidability_check() {
    let mut failed = manifest("a", "s1", CalibrationLabel::Positive, false);
    failed.variants[0].assessed = Err("no binding".into());
    assert_eq!(
        resolve_study_fixtures(StudySurface::D2, &vec![failed], &sources()),
        Err(ResolutionError::AssessmentFailed("a".into(), "permit".into(), "no binding".into()))
    );
    let mut mismatch = manifest("a", "s1", CalibrationLabel::Positive, true);
    mismatch.variants[1].assessed = Ok(Disposition::Permit);
    assert_eq!(
        resolve_study_fixtures(StudySurface::D2, &vec![mismatch], &sources()),
        Err(ResolutionError::DispositionMismatch("a".into(), "force".into()))
    );
    let mut two_permits = manifest("a", "s1", CalibrationLabel::Positive, false);
    two_permits.variants.push(variant("permit-2", Disposition::Permit, Ok(Disposition::Permit)));
    assert_eq!(
        resolve_study_fixtures(StudySurface::D2, &vec![two_permits], &sources()),
        Err(ResolutionError::ControlShape("a".into()))
    );
    let mut repeated = manifest("a", "s1", CalibrationLabel::Positive, true);
    repeated.variants[1].id = "permit".into();
    assert_eq!(
        resolve_study_fixtures(StudySurface::D2, &vec![repeated], &sources()),
        Err(ResolutionError::InvalidOrDuplicateVariantId("a".into(), "permit".into()))
    );
    let mut empty = manifest("a", "s1", CalibrationLabel::Positive, false);
    empty.variants.clear();
    assert_eq!(
        resolve_study_fixtures(StudySurface::D2, &vec![empty], &sources()),
        Err(ResolutionError::VariantCount("a".into()))
    );
}

#[test]
fn trial_seeds_advance_by_trial_and_source_ids_must_be_unique() {
    assert_eq!(trial_seed(Some(10), 3), Some(13));
    assert_eq!(trial_seed(Some(u64::MAX), 1), None);
    assert_eq!(trial_seed(None, 3), None);
    assert!(source_ids_unique(&vec!["a".into(), "b".into()]));
    assert!(!source_ids_unique(&vec!["a".into(), "b".into(), "a".into()]));
}

fn in_trial(mut case: StudyCase, trial: usize) -> StudyCase {
    case.trial = trial;
    case
}

#[test]
fn trials_are_scored_only_when_every_expected_call_decided() {
    let mut failed = synthetic_case("b", CalibrationLabel::Negative, SoftJudgeDecision::NoFinding, true);
    failed.trial = 1;
    failed.base_decision = None;
    failed.variants.clear();
    assert!(!case_scorable(&failed));
    let cases = vec![
        in_trial(synthetic_case("a", CalibrationLabel::Positive, SoftJudgeDecision::Finding, true), 0),
        in_trial(synthetic_case("b", CalibrationLabel::Negative, SoftJudgeDecision::Finding, false), 0),
        in_trial(synthetic_case("a", CalibrationLabel::Positive, SoftJudgeDecision::NoFinding, false), 1),
        failed,
    ];
    assert!(case_scorable(&cases[0]));
    let trials = summarize_trials(&cases, 2, 2);
    assert_eq!(trials.len(), 2);
    assert!(trials[0].operationally_complete);
    assert_eq!(trials[0].successful_provider_calls, 2);
    let metrics = trials[0].metrics.unwrap();
    assert_eq!(metrics.eligible_true_positives, 1);
    assert_eq!(metrics.eligible_false_positives, 1);
    assert_eq!(metrics.typed_insufficiency_variants, 1);
    assert!(!trials[1].operationally_complete);
    assert_eq!(trials[1].successful_provider_calls, 1);
    assert_eq!(trials[1].expected_provider_calls, 2);
    assert!(trials[1].metrics.is_none());

    let aggregate = summarize_aggregate(&cases, &trials);
    assert_eq!(aggregate.complete_trials, 1);
    assert_eq!(aggregate.incomplete_trials, 1);
    assert_eq!(aggregate.complete_trial_cases, 2);
    assert_eq!(aggregate.metrics, trials[0].metrics);

    let none_complete = summarize_aggregate(&cases, &vec![trials[1]]);
    assert_eq!(none_complete.complete_trials, 0);
    assert_eq!(none_complete.complete_trial_cases, 0);
    assert!(none_complete.metrics.is_none());
}

#[test]
fn repeated_source_fixture_ids_are_refused_before_any_manifest() {
    let mut repeated = sources();
    repeated.push(SourceFixture { id: "s1".into(), label: CalibrationLabel::Negative });
    assert_eq!(
        resolve_study_fixtures(StudySurface::D2, &vec![manifest("a", "s9", CalibrationLabel::Positive, false)], &repeated),
        Err(ResolutionError::DuplicateSourceFixtureId)
    );
    assert_eq!(resolve_study_fixtures(StudySurface::D2, &vec![], &repeated), Err(ResolutionError::DuplicateSourceFixtureId));
}
