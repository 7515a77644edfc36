use reasoning_harness_cli::cross_model::{
    corpus_name, counterbalanced_source_order, metrics_from_decisions, parse_source_specs,
    require_study_corpus, select_fixtures, CalibrationLabel, Corpus, FixtureSelectionError,
    Provider, SoftJudgeDecision, SourceSpec,
};

#[test]
fn source_spec_parser_accepts_supported_provider_model_pairs() {
    let google = SourceSpec::parse("google:gemini-3.5-flash-lite").unwrap();
    assert_eq!(google.provider, Provider::Google);
    assert_eq!(google.model, "gemini-3.5-flash-lite");
    assert_eq!(google.id(), "google:gemini-3.5-flash-lite");

    let mistral = SourceSpec::parse("mistral:ministral-8b-latest").unwrap();
    assert_eq!(mistral.provider, Provider::Mistral);
    assert_eq!(mistral.id(), "mistral:ministral-8b-latest");
}

#[test]
fn source_spec_validation_requires_two_distinct_sources() {
    assert!(parse_source_specs(&["google:x".into()]).is_err());
    assert!(parse_source_specs(&["google:x".into(), "google:x".into()]).is_err());
    assert!(parse_source_specs(&["unknown:x".into(), "google:y".into()]).is_err());
}

#[test]
fn source_order_rotates_without_changing_membership() {
    assert_eq!(counterbalanced_source_order(3, 0, 0), vec![0, 1, 2]);
    assert_eq!(counterbalanced_source_order(3, 1, 0), vec![1, 2, 0]);
    assert_eq!(counterbalanced_source_order(3, 0, 2), vec![2, 0, 1]);
}

#[test]
fn clear_case_coverage_counts_only_positive_and_negative_cases() {
    let metrics = metrics_from_decisions(&[
        (CalibrationLabel::Positive, SoftJudgeDecision::Finding),
        (CalibrationLabel::Negative, SoftJudgeDecision::Abstain),
        (CalibrationLabel::Ambiguous, SoftJudgeDecision::Abstain),
    ]);
    let ratio = |n: usize, d: usize| if d > 0 { Some(n as f64 / d as f64) } else { None };
    assert_eq!(ratio(metrics.decided, 3), Some(1.0 / 3.0));
    assert_eq!(ratio(metrics.clear_decided, metrics.clear_cases), Some(0.5));
    assert_eq!(ratio(metrics.ambiguous_abstain, metrics.ambiguous), Some(1.0));
}

#[test]
fn source_errors_name_the_problem() {
    assert_eq!(
        SourceSpec::parse("mistral").unwrap_err(),
        "invalid --source \"mistral\"; expected provider:model"
    );
    assert_eq!(
        SourceSpec::parse(" Groq :m").unwrap_err(),
        "unsupported cross-model provider: groq"
    );
    assert_eq!(
        SourceSpec::parse("google:  ").unwrap_err(),
        "cross-model source model must not be empty"
    );
    let spaced = SourceSpec::parse(" GOOGLE : model:v2 ").unwrap();
    assert_eq!(spaced.provider, Provider::Google);
    assert_eq!(spaced.model, "model:v2");
    assert_eq!(
        parse_source_specs(&["google:x".into()]).unwrap_err(),
        "R3b cross-model study requires at least two --source values"
    );
    assert_eq!(
        parse_source_specs(&["google:x".into(), " google : x".into()]).unwrap_err(),
        "R3b cross-model study rejects duplicate provider/model sources"
    );
    let specs = parse_source_specs(&["google:x".into(), "mistral:x".into(), "google:y".into()]).unwrap();
    assert_eq!(specs.len(), 3);
    assert_eq!(specs[2].id(), "google:y");
}

#[test]
fn source_order_keeps_every_source_once() {
    for n in 1..6usize {
        for f in 0..7usize {
            for t in 0..3usize {
                let mut order = counterbalanced_source_order(n, f, t);
                assert_eq!(order[0], (f + t) % n);
                order.sort();
                assert_eq!(order, (0..n).collect::<Vec<_>>());
            }
        }
    }
}

#[test]
fn decision_counts_separate_each_label() {
    let m = metrics_from_decisions(&[
        (CalibrationLabel::Positive, SoftJudgeDecision::Finding),
        (CalibrationLabel::Positive, SoftJudgeDecision::NoFinding),
        (CalibrationLabel::Positive, SoftJudgeDecision::Abstain),
        (CalibrationLabel::Negative, SoftJudgeDecision::Finding),
        (CalibrationLabel::Negative, SoftJudgeDecision::NoFinding),
        (CalibrationLabel::Ambiguous, SoftJudgeDecision::Finding),
    ]);
    assert_eq!(m.true_positives, 1);
    assert_eq!(m.false_negatives, 2);
    assert_eq!(m.false_positives, 1);
    assert_eq!(m.decided, 5);
    assert_eq!(m.clear_cases, 5);
    assert_eq!(m.clear_decided, 4);
    assert_eq!(m.ambiguous, 1);
    assert_eq!(m.ambiguous_abstain, 0);
}

#[test]
fn corpus_checks_compare_canonical_paths() {
    assert_eq!(corpus_name(Corpus::HoldoutV4), "holdout_v4");
    assert!(require_study_corpus("/r/fixtures/semantic-judges", "/r/fixtures/semantic-judges", Corpus::Calibration).is_ok());
    assert_eq!(
        require_study_corpus("/r/other", "/r/fixtures/semantic-judges-holdout-v4", Corpus::HoldoutV4).unwrap_err(),
        "cross-model study corpus mismatch: --corpus holdout_v4 requires this checkout's fixtures/semantic-judges-holdout-v4"
    );
}

#[test]
fn fixture_selection_keeps_fixture_order_and_reports_the_first_missing_request() {
    let ids: Vec<String> = vec!["f1".into(), "f2".into(), "f3".into()];
    assert_eq!(select_fixtures(&ids, &vec![]), Ok(vec![0, 1, 2]));
    assert_eq!(select_fixtures(&ids, &vec!["f3".into(), "f1".into(), "f3".into()]), Ok(vec![0, 2]));
    assert_eq!(
        select_fixtures(&ids, &vec!["f2".into(), "x".into(), "y".into()]),
        Err(FixtureSelectionError::NotFound("x".into()))
    );
    assert_eq!(select_fixtures(&vec![], &vec![]), Err(FixtureSelectionError::NoneSelected));
}

#[test]
fn source_identity_parses_back_to_the_source() {
    for (provider, model) in [(Provider::Mistral, "mistral-small-2603"), (Provider::Google, "gemini-3.5-flash-lite")] {
        let source = SourceSpec { provider, model: model.to_string() };
        let again = SourceSpec::parse(&source.id()).unwrap();
        assert_eq!(again, source);
    }
    let odd = SourceSpec { provider: Provider::Google, model: "a:b".to_string() };
    assert_eq!(SourceSpec::parse(&odd.id()).unwrap(), odd);
}
