use reasoning_harness_cli::failures::{JudgeFailure, ModelErrorKind};
use reasoning_harness_cli::format_invariance::{
    counterbalanced_representation_order, representation_failure_class, SoftJudgeRepresentation,
};
use reasoning_harness_cli::materialization::{
    counterbalanced_arm_order, effective_enforcement_class, materialization_failure_class, StudyArm,
};

#[test]
fn arm_order_counterbalances_across_fixture_and_trial() {
    assert_eq!(counterbalanced_arm_order(0, 0), StudyArm::all());
    assert_eq!(
        counterbalanced_arm_order(1, 0),
        [StudyArm::HarnessMaterializedDecision, StudyArm::V3FullJson]
    );
    assert_eq!(
        counterbalanced_arm_order(0, 1),
        [StudyArm::HarnessMaterializedDecision, StudyArm::V3FullJson]
    );
}

#[test]
fn representation_order_rotates_across_fixtures_and_trials() {
    let representations = [
        SoftJudgeRepresentation::V3FullJson,
        SoftJudgeRepresentation::NestedResultObject,
        SoftJudgeRepresentation::DecisionFindingTuple,
        SoftJudgeRepresentation::CompactKeyObject,
    ];
    assert_eq!(
        counterbalanced_representation_order(&representations, 0, 0),
        representations
    );
    assert_eq!(
        counterbalanced_representation_order(&representations, 1, 0),
        vec![
            SoftJudgeRepresentation::NestedResultObject,
            SoftJudgeRepresentation::DecisionFindingTuple,
            SoftJudgeRepresentation::CompactKeyObject,
            SoftJudgeRepresentation::V3FullJson,
        ]
    );
    assert_eq!(
        counterbalanced_representation_order(&representations, 0, 1),
        counterbalanced_representation_order(&representations, 1, 0)
    );
}

fn invalid_with_finish_reason(reason: &str) -> JudgeFailure {
    JudgeFailure {
        setup: false,
        finish_reason: Some(reason.into()),
        model_error_kind: None,
    }
}

#[test]
fn finish_reason_classification_separates_provider_error_from_protocol_and_truncation() {
    assert_eq!(
        representation_failure_class(&invalid_with_finish_reason("length")),
        "truncation_protocol"
    );
    assert_eq!(
        representation_failure_class(&invalid_with_finish_reason("error")),
        "provider_generation_error"
    );
    assert_eq!(
        representation_failure_class(&invalid_with_finish_reason("stop")),
        "representation_protocol"
    );
}

#[test]
fn failure_classes_follow_setup_finish_reason_then_kind() {
    let setup = JudgeFailure { setup: true, finish_reason: Some("length".into()), model_error_kind: Some(ModelErrorKind::Quota) };
    assert_eq!(materialization_failure_class(&setup), "study_setup");
    let cut = JudgeFailure { setup: false, finish_reason: Some(" MAX_TOKENS ".into()), model_error_kind: Some(ModelErrorKind::Quota) };
    assert_eq!(materialization_failure_class(&cut), "truncation_protocol");
    let err = JudgeFailure { setup: false, finish_reason: Some("Error\n".into()), model_error_kind: None };
    assert_eq!(materialization_failure_class(&err), "provider_generation_error");
    let provider = JudgeFailure { setup: false, finish_reason: None, model_error_kind: Some(ModelErrorKind::Provider) };
    assert_eq!(materialization_failure_class(&provider), "provider_error");
    let protocol = JudgeFailure { setup: false, finish_reason: Some("stop".into()), model_error_kind: Some(ModelErrorKind::Protocol) };
    assert_eq!(materialization_failure_class(&protocol), "provider_protocol");
    let bare = JudgeFailure { setup: false, finish_reason: None, model_error_kind: None };
    assert_eq!(materialization_failure_class(&bare), "materialization_protocol");
    assert_eq!(effective_enforcement_class(reasoning_harness_cli::materialization::Provider::Google), "response_json_schema");
}
