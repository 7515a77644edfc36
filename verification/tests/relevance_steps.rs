use reasoning_harness_cli::evidence_relevance::ModelUsage;
use reasoning_harness_cli::relevance_steps::{
    call_step, fallback_call_failure_message, new_call_state, new_study_state, stage_failure_class_name,
    stage_failure_message, study_scorability, study_start, study_step, CallAction, CallEvent, CallPhase,
    FallbackReason, LatchReason, Stage, StageFailure, StudyAction, StudyEvent,
};

fn usage(total: u64) -> ModelUsage {
    ModelUsage { input_tokens: Some(total / 2), output_tokens: None, total_tokens: Some(total) }
}

fn responded(parsed: bool) -> CallEvent {
    CallEvent::Responded { attempts: 1, usage: usage(10), parsed }
}

#[test]
fn a_parsed_primary_answer_succeeds() {
    let (s, a) = call_step(new_call_state(Stage::Proposal, false, true, 2), CallEvent::Begin);
    assert_eq!(a, CallAction::CallPrimary);
    assert_eq!(s.model_calls, 1);
    let (s, a) = call_step(s, responded(true));
    assert_eq!(a, CallAction::Succeed { used_structured_fallback: false });
    assert_eq!(s.phase, CallPhase::Finished);
    assert_eq!(s.usage.total_tokens, 10);
    assert_eq!(s.usage.input_tokens, 5);
    assert_eq!(s.usage.output_tokens, 0);
    assert_eq!(s.provider_attempts, 1);
}

#[test]
fn an_unparsed_primary_answer_falls_back_when_permitted() {
    let (s, _) = call_step(new_call_state(Stage::Proposal, false, true, 2), CallEvent::Begin);
    let (s, a) = call_step(s, responded(false));
    assert_eq!(a, CallAction::CallFallback(FallbackReason::PrimaryParseFailed));
    assert_eq!(s.model_calls, 2);
    let (s, a) = call_step(s, responded(true));
    assert_eq!(a, CallAction::Succeed { used_structured_fallback: true });
    assert_eq!(s.usage.total_tokens, 20);
    assert_eq!(s.provider_attempts, 2);
}

#[test]
fn fallback_beyond_the_call_budget_is_an_attempt_budget_failure() {
    let (s, _) = call_step(new_call_state(Stage::Proposal, false, true, 1), CallEvent::Begin);
    let (s, a) = call_step(s, responded(false));
    let failure = StageFailure::FallbackBlocked(FallbackReason::PrimaryParseFailed);
    assert_eq!(a, CallAction::Fail { failure, used_structured_fallback: false });
    assert_eq!(stage_failure_class_name(failure), "attempt_budget");
    assert_eq!(s.model_calls, 1);
}

#[test]
fn an_unparsed_fallback_answer_is_a_protocol_failure() {
    let (s, _) = call_step(new_call_state(Stage::Proposal, false, true, 3), CallEvent::Begin);
    let (s, a) = call_step(s, CallEvent::Failed { unsupported_capability: true, error_attempts: 2 });
    assert_eq!(a, CallAction::CallFallback(FallbackReason::CapabilityUnsupported));
    assert_eq!(s.provider_attempts, 2);
    let (_, a) = call_step(s, responded(false));
    let failure = StageFailure::FallbackParseFailed(FallbackReason::CapabilityUnsupported);
    assert_eq!(a, CallAction::Fail { failure, used_structured_fallback: true });
    assert_eq!(stage_failure_class_name(failure), "protocol");
}

#[test]
fn dead_ends_without_a_fallback() {
    let (_, a) = call_step(new_call_state(Stage::Proposal, false, true, 0), CallEvent::Begin);
    assert_eq!(a, CallAction::Fail { failure: StageFailure::ZeroBudget, used_structured_fallback: false });
    assert_eq!(stage_failure_class_name(StageFailure::ZeroBudget), "attempt_budget");
    let (_, a) = call_step(new_call_state(Stage::Proposal, true, false, 2), CallEvent::Begin);
    assert_eq!(a, CallAction::Fail { failure: StageFailure::TextPrimaryUnavailable, used_structured_fallback: false });
    let (s, _) = call_step(new_call_state(Stage::Proposal, true, true, 2), CallEvent::Begin);
    let (_, a) = call_step(s, responded(false));
    assert_eq!(a, CallAction::Fail { failure: StageFailure::TextPrimaryParseFailed, used_structured_fallback: false });
    let (s, _) = call_step(new_call_state(Stage::Proposal, false, false, 2), CallEvent::Begin);
    let (_, a) = call_step(s, responded(false));
    assert_eq!(a, CallAction::Fail { failure: StageFailure::NoFallback, used_structured_fallback: false });
    let (s, _) = call_step(new_call_state(Stage::Proposal, false, false, 2), CallEvent::Begin);
    let (_, a) = call_step(s, CallEvent::Failed { unsupported_capability: true, error_attempts: 1 });
    assert_eq!(a, CallAction::FailWithModelError { used_structured_fallback: false });
    let (s, _) = call_step(new_call_state(Stage::Proposal, false, true, 2), CallEvent::Begin);
    let (_, a) = call_step(s, CallEvent::Failed { unsupported_capability: false, error_attempts: 1 });
    assert_eq!(a, CallAction::FailWithCallError { used_structured_fallback: false });
}

#[test]
fn a_run_checks_its_budgets_unless_it_only_validates() {
    assert_eq!(study_start(true, 0, 0), Ok(true));
    assert_eq!(study_start(false, 1, 1), Ok(false));
    assert_eq!(study_start(false, 0, 1), Err("--max-consecutive-operational-failures must be at least 1".to_string()));
    assert_eq!(study_start(false, 1, 0), Err("--max-consecutive-capacity-failures must be at least 1".to_string()));
}

#[test]
fn operational_failures_abort_a_run_with_cases_left() {
    let s = new_study_state(3, 2, 5, false);
    let (s, a) = study_step(s, StudyEvent::NextCase);
    assert_eq!(a, StudyAction::RunCase { index: 0 });
    let (s, a) = study_step(s, StudyEvent::CaseObserved { failure_class: Some("provider") });
    assert_eq!(a, StudyAction::Continue { pause: true });
    assert_eq!(s.operational_streak, 1);
    let (s, _) = study_step(s, StudyEvent::NextCase);
    let (s, a) = study_step(s, StudyEvent::CaseObserved { failure_class: Some("protocol") });
    assert_eq!(a, StudyAction::Abort);
    assert!(s.aborted);
    assert_eq!(study_scorability(true, s, 2), "non_canonical_or_operationally_incomplete");
}

#[test]
fn diagnostic_runs_continue_after_operational_failures() {
    let s = new_study_state(3, 1, 5, true);
    let (s, a) = study_step(s, StudyEvent::CaseObserved { failure_class: Some("provider") });
    assert_eq!(a, StudyAction::Continue { pause: true });
    assert!(!s.aborted);
}

#[test]
fn a_quota_failure_latches_the_arm_and_suppresses_later_cases() {
    let s = new_study_state(3, 5, 5, false);
    let (s, _) = study_step(s, StudyEvent::CaseObserved { failure_class: Some("quota") });
    assert_eq!(s.latch, Some(LatchReason::ConfirmedQuotaFailure));
    let (s, a) = study_step(s, StudyEvent::NextCase);
    assert_eq!(a, StudyAction::SuppressCase { index: 1, reason: LatchReason::ConfirmedQuotaFailure });
    assert_eq!(s.suppressed_cases, 1);
    assert_eq!(s.failed_cases, 2);
}

#[test]
fn capacity_failures_latch_at_their_budget_and_success_resets_streaks() {
    let s = new_study_state(4, 9, 2, false);
    let (s, _) = study_step(s, StudyEvent::CaseObserved { failure_class: Some("rate_limit") });
    assert_eq!(s.capacity_streak, 1);
    assert_eq!(s.latch, None);
    let (t, _) = study_step(s, StudyEvent::CaseObserved { failure_class: None });
    assert_eq!(t.capacity_streak, 0);
    assert_eq!(t.operational_streak, 0);
    let (s, _) = study_step(s, StudyEvent::CaseObserved { failure_class: Some("timeout") });
    assert_eq!(s.latch, Some(LatchReason::CapacityBudgetExhausted));
}

#[test]
fn a_clean_canonical_run_is_scorable() {
    let s = new_study_state(2, 3, 3, false);
    let (s, _) = study_step(s, StudyEvent::CaseObserved { failure_class: None });
    let (s, a) = study_step(s, StudyEvent::CaseObserved { failure_class: None });
    assert_eq!(a, StudyAction::Continue { pause: false });
    let (s, a) = study_step(s, StudyEvent::NextCase);
    assert_eq!(a, StudyAction::Finish);
    assert_eq!(study_scorability(true, s, 2), "complete_calibration_observation");
    assert_eq!(study_scorability(false, s, 2), "non_canonical_or_operationally_incomplete");
}

#[test]
fn local_qualification_checks_the_budget_before_the_fallback_request() {
    let (s, _) = call_step(new_call_state(Stage::LocalQualification, false, false, 2), CallEvent::Begin);
    let (_, a) = call_step(s, responded(false));
    let failure = StageFailure::FallbackUnavailable(FallbackReason::PrimaryParseFailed);
    assert_eq!(a, CallAction::Fail { failure, used_structured_fallback: false });
    assert_eq!(stage_failure_class_name(failure), "protocol");
    let (s, _) = call_step(new_call_state(Stage::LocalQualification, false, false, 2), CallEvent::Begin);
    let (_, a) = call_step(s, CallEvent::Failed { unsupported_capability: true, error_attempts: 1 });
    assert_eq!(
        a,
        CallAction::Fail {
            failure: StageFailure::FallbackUnavailable(FallbackReason::CapabilityUnsupported),
            used_structured_fallback: false
        }
    );
    let (s, _) = call_step(new_call_state(Stage::LocalQualification, false, false, 1), CallEvent::Begin);
    let (_, a) = call_step(s, responded(false));
    assert_eq!(
        a,
        CallAction::Fail {
            failure: StageFailure::FallbackBlocked(FallbackReason::PrimaryParseFailed),
            used_structured_fallback: false
        }
    );
}

#[test]
fn stage_failure_messages_name_the_stage_and_the_parse_errors() {
    assert_eq!(stage_failure_message(Stage::Proposal, StageFailure::ZeroBudget, "", ""), "model-call budget is zero");
    assert_eq!(
        stage_failure_message(Stage::LocalQualification, StageFailure::ZeroBudget, "", ""),
        "local qualification model-call budget is zero"
    );
    assert_eq!(
        stage_failure_message(Stage::Proposal, StageFailure::TextPrimaryParseFailed, "bad json", ""),
        "Groq strict-JSON Text primary proposal parse failed: bad json"
    );
    assert_eq!(
        stage_failure_message(Stage::Proposal, StageFailure::NoFallback, "bad json", ""),
        "primary structured proposal parse failed and no fallback exists: bad json"
    );
    assert_eq!(
        stage_failure_message(
            Stage::Proposal,
            StageFailure::FallbackBlocked(FallbackReason::PrimaryParseFailed),
            "bad json",
            ""
        ),
        "primary structured proposal parse failed: bad json; strict-JSON text fallback blocked by model-call budget"
    );
    assert_eq!(
        stage_failure_message(
            Stage::LocalQualification,
            StageFailure::FallbackParseFailed(FallbackReason::CapabilityUnsupported),
            "",
            "missing field"
        ),
        "primary local qualification JSON-Schema capability unsupported; strict-JSON text fallback local qualification parse failed: missing field"
    );
    assert_eq!(
        stage_failure_message(
            Stage::LocalQualification,
            StageFailure::FallbackUnavailable(FallbackReason::PrimaryParseFailed),
            "bad json",
            ""
        ),
        "primary structured local qualification parse failed: bad json; structured fallback unavailable"
    );
    assert_eq!(
        fallback_call_failure_message(Stage::Proposal, FallbackReason::CapabilityUnsupported, "", "timeout"),
        "primary JSON-Schema capability unsupported; fallback failed: timeout"
    );
}
