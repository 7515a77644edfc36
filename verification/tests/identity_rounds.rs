use reasoning_harness_cli::identity_gate::{planner_seed, CaseSpec, ExpectedOutcome, StopReason};
use reasoning_harness_cli::identity_rounds::{
    initial_rounds, next_round_step, ProposalResolution, RoundAction, RoundEvent, RoundState,
};
use reasoning_harness_cli::tool_call::ToolFailure;

fn case(context: Option<&'static str>) -> CaseSpec {
    CaseSpec {
        id: "synthetic",
        task: "synthetic",
        initial_query: "Alpha",
        identity_context: context,
        property_id: "P1",
        value_kind: "entity",
        fact_key: "alpha.fact",
        target_value: "Q9",
        expected: ExpectedOutcome::Accept,
    }
}

fn ready() -> RoundEvent {
    RoundEvent::RoundReady { elapsed_ms: 10, query_already_tried: false }
}

fn observed(new_progress_items: usize, fact: Option<bool>) -> RoundEvent {
    RoundEvent::ToolObserved {
        external_requests: Some(2),
        identity_insufficient: false,
        identity_supported: false,
        invalid_query: false,
        context_verified: false,
        new_progress_items,
        fact_matches_target: fact,
    }
}

fn proposed(tokens: u64, resolution: ProposalResolution) -> RoundEvent {
    RoundEvent::PlannerProposed { tokens, attempts: 1, resolution }
}

#[test]
fn a_round_calls_the_tool_and_counts_it() {
    let (s, a) = next_round_step(case(None), initial_rounds(1), ready());
    assert_eq!(a, RoundAction::CallTool);
    assert_eq!(s.round, 1);
    assert_eq!(s.tool_calls, 1);
}

#[test]
fn duplicate_query_and_budgets_stop_before_the_tool() {
    let c = case(None);
    let (_, a) = next_round_step(c, initial_rounds(1), RoundEvent::RoundReady { elapsed_ms: 0, query_already_tried: true });
    assert_eq!(a, RoundAction::Stop { reason: StopReason::DuplicateQuery, trace: false });
    let (_, a) = next_round_step(c, initial_rounds(1), RoundEvent::RoundReady { elapsed_ms: 30000, query_already_tried: false });
    assert_eq!(a, RoundAction::Stop { reason: StopReason::WallClockBudget, trace: false });
    let mut s = initial_rounds(1);
    s.round = 6;
    let (t, a) = next_round_step(c, s, ready());
    assert_eq!(a, RoundAction::Stop { reason: StopReason::MaxRounds, trace: false });
    assert_eq!(t, s);
    let mut s = initial_rounds(1);
    s.tool_calls = 10;
    let (_, a) = next_round_step(c, s, ready());
    assert_eq!(a, RoundAction::Stop { reason: StopReason::MaxToolCalls, trace: false });
}

#[test]
fn a_tool_failure_adds_its_requests_and_stops() {
    let failure = ToolFailure { kind: StopReason::ToolTransportFailure, external_requests: 4 };
    let (s, a) = next_round_step(case(None), initial_rounds(1), RoundEvent::ToolFailed(failure));
    assert_eq!(a, RoundAction::Stop { reason: StopReason::ToolTransportFailure, trace: false });
    assert_eq!(s.external_requests, 4);
}

#[test]
fn a_matching_fact_accepts_and_a_differing_one_rejects() {
    let c = case(Some("Region"));
    let (s, a) = next_round_step(c, initial_rounds(1), observed(1, Some(true)));
    assert_eq!(a, RoundAction::Stop { reason: StopReason::ResolvedSupported, trace: true });
    assert_eq!(s.final_outcome, ExpectedOutcome::Accept);
    assert_eq!(s.context_unverified_fact_admissions, 1);
    assert_eq!(s.external_requests, 2);
    let (s, a) = next_round_step(case(None), initial_rounds(1), observed(1, Some(false)));
    assert_eq!(a, RoundAction::Stop { reason: StopReason::ResolvedRefuted, trace: true });
    assert_eq!(s.final_outcome, ExpectedOutcome::Reject);
    assert_eq!(s.context_unverified_fact_admissions, 0);
}

#[test]
fn rounds_without_progress_stop_at_the_limit() {
    let c = case(None);
    let (s, a) = next_round_step(c, initial_rounds(3), observed(0, None));
    assert_eq!(s.no_progress_rounds, 1);
    assert_eq!(s.planner_calls, 1);
    assert_eq!(a, RoundAction::AskPlanner { seed: planner_seed(3, 0, 0, "synthetic"), remaining_tool_calls: 10 });
    let (s, a) = next_round_step(c, s, observed(0, None));
    assert_eq!(s.no_progress_rounds, 2);
    assert_eq!(a, RoundAction::Stop { reason: StopReason::NoProgress, trace: true });
    let (s, _) = next_round_step(c, initial_rounds(3), observed(0, None));
    let (s, _) = next_round_step(c, s, observed(2, None));
    assert_eq!(s.no_progress_rounds, 0);
}

#[test]
fn spent_tokens_stop_the_case() {
    let c = case(None);
    let (s, a) = next_round_step(c, initial_rounds(1), proposed(8001, ProposalResolution::Stop));
    assert_eq!(a, RoundAction::Stop { reason: StopReason::ModelTokenBudget, trace: true });
    assert_eq!(s.model_tokens, 8001);
    let mut full = initial_rounds(1);
    full.model_tokens = 8000;
    let (_, a) = next_round_step(c, full, observed(1, None));
    assert_eq!(a, RoundAction::Stop { reason: StopReason::ModelTokenBudget, trace: false });
}

#[test]
fn invalid_proposals_are_repaired_until_the_limit() {
    let c = case(None);
    let (s, a) = next_round_step(c, initial_rounds(1), proposed(10, ProposalResolution::Invalid));
    assert_eq!(s.repair_attempt, 1);
    assert_eq!(s.invalid_action_observations, 1);
    assert_eq!(s.invalid_actions_blocked_before_external_request, 1);
    assert!(matches!(a, RoundAction::AskPlanner { .. }));
    let (s, _) = next_round_step(c, s, proposed(10, ProposalResolution::Invalid));
    assert_eq!(s.repair_attempt, 2);
    let (s, a) = next_round_step(c, s, proposed(10, ProposalResolution::Invalid));
    assert_eq!(a, RoundAction::Stop { reason: StopReason::PlannerActionRepairExhausted, trace: true });
    assert_eq!(s.invalid_action_observations, 3);
    assert_eq!(s.model_tokens, 30);
    assert_eq!(s.provider_attempts, 3);
}

#[test]
fn planner_outcomes_end_or_continue_the_case() {
    let c = case(None);
    let s0: RoundState = initial_rounds(1);
    let (s, a) = next_round_step(c, s0, proposed(5, ProposalResolution::Search { followed: true }));
    assert_eq!(a, RoundAction::RunNextQuery);
    assert_eq!(s.follow_suggested_query_actions, 1);
    let (_, a) = next_round_step(c, s0, proposed(5, ProposalResolution::Stop));
    assert_eq!(a, RoundAction::Stop { reason: StopReason::PlannerStop, trace: true });
    let (_, a) = next_round_step(c, s0, proposed(5, ProposalResolution::MissingQuery));
    assert_eq!(a, RoundAction::Stop { reason: StopReason::PlannerProtocolFailure, trace: true });
    let (t, a) = next_round_step(c, s0, RoundEvent::PlannerFailed(StopReason::PlannerProviderFailure));
    assert_eq!(a, RoundAction::Stop { reason: StopReason::PlannerProviderFailure, trace: true });
    assert_eq!(t, s0);
}
