//! The rounds of one identity-gate benchmark case as a state machine: each
//! tool reply or planner proposal moves the case's counters on and says what
//! to do next, so that only the tool and planner calls stay outside.
use vstd::prelude::*;
use crate::identity_gate;
use crate::identity_gate::{
    planner_seed, round_precheck, CaseSpec, ExpectedOutcome, StopReason, MAX_ACTION_REPAIRS_PER_OBSERVATION,
    MAX_MODEL_TOKENS, MAX_ROUNDS, MAX_TOOL_CALLS, NO_PROGRESS_LIMIT,
};
use crate::tool_call::ToolFailure;
use vstd::string::StringSliceAdditionalSpecFns;

verus! {

/// What a case has done so far.
#[derive(Debug, Clone, Copy, PartialEq, Eq, Structural)]
pub struct RoundState {
    pub trial: u64,
    /// Rounds begun.
    pub round: usize,
    /// Planner proposals rejected on the current observation.
    pub repair_attempt: usize,
    pub tool_calls: usize,
    pub external_requests: usize,
    pub planner_calls: usize,
    pub provider_attempts: u32,
    pub model_tokens: u64,
    pub no_progress_rounds: usize,
    pub identity_insufficient_observations: usize,
    pub identity_supported_observations: usize,
    pub invalid_action_observations: usize,
    pub invalid_actions_blocked_before_external_request: usize,
    pub follow_suggested_query_actions: usize,
    pub context_unverified_fact_admissions: usize,
    pub final_outcome: ExpectedOutcome,
}

/// How the harness judged a planner's proposal.
#[derive(Debug, Clone, Copy, PartialEq, Eq, Structural)]
pub enum ProposalResolution {
    /// Refused before any tool call.
    Invalid,
    /// The planner stops.
    Stop,
    /// A query to run; whether it follows the harness's suggestion.
    Search { followed: bool },
    /// Accepted, but with no query to run.
    MissingQuery,
}

/// What happened since the last step.
#[derive(Debug, Clone, Copy, PartialEq, Eq, Structural)]
pub enum RoundEvent {
    /// A round is about to run its query: the time spent so far, and whether
    /// the query's normal form was tried before.
    RoundReady { elapsed_ms: u64, query_already_tried: bool },
    /// The tool call failed.
    ToolFailed(ToolFailure),
    /// The tool replied, and its reply was qualified: the external requests
    /// it reports, what its search state says, how many target progress items
    /// are new, and, for an admitted fact about the case's key, whether its
    /// value is the target value.
    ToolObserved {
        external_requests: Option<u64>,
        identity_insufficient: bool,
        identity_supported: bool,
        invalid_query: bool,
        context_verified: bool,
        new_progress_items: usize,
        fact_matches_target: Option<bool>,
    },
    /// The planner call failed.
    PlannerFailed(StopReason),
    /// The planner proposed an action: its tokens and attempts, and its
    /// resolution.
    PlannerProposed { tokens: u64, attempts: u32, resolution: ProposalResolution },
}

/// What to do next.
#[derive(Debug, Clone, Copy, PartialEq, Eq, Structural)]
pub enum RoundAction {
    /// Call the tool with the current query.
    CallTool,
    /// Ask the planner, with this seed and the tool calls left.
    AskPlanner { seed: u64, remaining_tool_calls: usize },
    /// Record the round and start the next one with the resolved query.
    RunNextQuery,
    /// Stop the case for this reason, recording the round first when `trace`.
    Stop { reason: StopReason, trace: bool },
}

/// `x + 1`, held at the largest `usize`.
pub open spec fn bump(x: usize) -> usize {
    if x == usize::MAX { x } else { (x + 1) as usize }
}

/// `a + b`, held at the largest value.
pub open spec fn sat_usize(a: usize, b: int) -> usize {
    if a + b > usize::MAX { usize::MAX } else { (a + b) as usize }
}

/// `a + b`, held at the largest value.
pub open spec fn sat_u64(a: u64, b: u64) -> u64 {
    if a + b > u64::MAX { u64::MAX } else { (a + b) as u64 }
}

/// `a + b`, held at the largest value.
pub open spec fn sat_u32(a: u32, b: u32) -> u32 {
    if a + b > u32::MAX { u32::MAX } else { (a + b) as u32 }
}

/// The state a case starts in.
pub open spec fn initial_round_state(trial: u64) -> RoundState {
    RoundState {
        trial,
        round: 0,
        repair_attempt: 0,
        tool_calls: 0,
        external_requests: 0,
        planner_calls: 0,
        provider_attempts: 0,
        model_tokens: 0,
        no_progress_rounds: 0,
        identity_insufficient_observations: 0,
        identity_supported_observations: 0,
        invalid_action_observations: 0,
        invalid_actions_blocked_before_external_request: 0,
        follow_suggested_query_actions: 0,
        context_unverified_fact_admissions: 0,
        final_outcome: ExpectedOutcome::Unknown,
    }
}

/// The planner's request for attempt `attempt` on the current observation.
pub open spec fn ask_planner(case: CaseSpec, s: RoundState, attempt: usize) -> RoundAction {
    RoundAction::AskPlanner {
        seed: identity_gate::planner_seed_spec(s.trial, s.round as u64, attempt as u64, case.id.spec_bytes()),
        remaining_tool_calls: if s.tool_calls >= MAX_TOOL_CALLS { 0 } else { (MAX_TOOL_CALLS - s.tool_calls) as usize },
    }
}

/// One step of a case.
/// - A round may begin only within the round limit and the budgets of
///   `round_precheck`; it then calls the tool.
/// - A failed tool call adds its external requests and stops the case.
/// - A reply updates the counters and the no-progress streak; an admitted
///   fact decides the case; otherwise the no-progress limit or a spent token
///   budget stops it, and else the planner is asked.
/// - A failed planner call stops the case; a proposal adds its tokens and
///   attempts and stops the case past the token budget; an invalid proposal
///   is repaired until the repair limit, after which the case stops; a stop
///   stops; a search runs the next round.
pub open spec fn round_step_spec(case: CaseSpec, s: RoundState, e: RoundEvent) -> (RoundState, RoundAction) {
    match e {
        RoundEvent::RoundReady { elapsed_ms, query_already_tried } => {
            if s.round >= MAX_ROUNDS {
                (s, RoundAction::Stop { reason: StopReason::MaxRounds, trace: false })
            } else {
                let check = if elapsed_ms >= identity_gate::MAX_ELAPSED_MS {
                    Some(StopReason::WallClockBudget)
                } else if s.tool_calls >= MAX_TOOL_CALLS {
                    Some(StopReason::MaxToolCalls)
                } else if query_already_tried {
                    Some(StopReason::DuplicateQuery)
                } else {
                    None
                };
                match check {
                    Some(reason) => (RoundState { round: bump(s.round), ..s }, RoundAction::Stop { reason, trace: false }),
                    None => (RoundState { round: bump(s.round), tool_calls: bump(s.tool_calls), ..s }, RoundAction::CallTool),
                }
            }
        },
        RoundEvent::ToolFailed(f) => (
            RoundState { external_requests: sat_usize(s.external_requests, f.external_requests as int), ..s },
            RoundAction::Stop { reason: f.kind, trace: false },
        ),
        RoundEvent::ToolObserved {
            external_requests,
            identity_insufficient,
            identity_supported,
            invalid_query,
            context_verified,
            new_progress_items,
            fact_matches_target,
        } => {
            let reported: int = match external_requests { Some(n) => (n as usize) as int, None => 0 };
            let t = RoundState {
                external_requests: sat_usize(s.external_requests, reported),
                identity_insufficient_observations: if identity_insufficient {
                    bump(s.identity_insufficient_observations)
                } else {
                    s.identity_insufficient_observations
                },
                identity_supported_observations: if identity_supported {
                    bump(s.identity_supported_observations)
                } else {
                    s.identity_supported_observations
                },
                invalid_action_observations: if invalid_query {
                    bump(s.invalid_action_observations)
                } else {
                    s.invalid_action_observations
                },
                invalid_actions_blocked_before_external_request: if invalid_query && external_requests == Some(0u64) {
                    bump(s.invalid_actions_blocked_before_external_request)
                } else {
                    s.invalid_actions_blocked_before_external_request
                },
                no_progress_rounds: if new_progress_items == 0 { bump(s.no_progress_rounds) } else { 0 },
                ..s
            };
            match fact_matches_target {
                Some(matches) => {
                    let u = RoundState {
                        context_unverified_fact_admissions: if case.identity_context is Some && !context_verified {
                            bump(t.context_unverified_fact_admissions)
                        } else {
                            t.context_unverified_fact_admissions
                        },
                        final_outcome: if matches { ExpectedOutcome::Accept } else { ExpectedOutcome::Reject },
                        ..t
                    };
                    let reason = if matches { StopReason::ResolvedSupported } else { StopReason::ResolvedRefuted };
                    (u, RoundAction::Stop { reason, trace: true })
                },
                None => if t.no_progress_rounds >= NO_PROGRESS_LIMIT {
                    (t, RoundAction::Stop { reason: StopReason::NoProgress, trace: true })
                } else if t.model_tokens >= MAX_MODEL_TOKENS {
                    (t, RoundAction::Stop { reason: StopReason::ModelTokenBudget, trace: false })
                } else {
                    let u = RoundState { repair_attempt: 0, planner_calls: bump(t.planner_calls), ..t };
                    (u, ask_planner(case, u, 0))
                },
            }
        },
        RoundEvent::PlannerFailed(reason) => (s, RoundAction::Stop { reason, trace: true }),
        RoundEvent::PlannerProposed { tokens, attempts, resolution } => {
            let t = RoundState {
                model_tokens: sat_u64(s.model_tokens, tokens),
                provider_attempts: sat_u32(s.provider_attempts, attempts),
                ..s
            };
            if t.model_tokens > MAX_MODEL_TOKENS {
                (t, RoundAction::Stop { reason: StopReason::ModelTokenBudget, trace: true })
            } else {
                match resolution {
                    ProposalResolution::Invalid => {
                        let u = RoundState {
                            invalid_action_observations: bump(t.invalid_action_observations),
                            invalid_actions_blocked_before_external_request: bump(
                                t.invalid_actions_blocked_before_external_request,
                            ),
                            ..t
                        };
                        if u.repair_attempt >= MAX_ACTION_REPAIRS_PER_OBSERVATION {
                            (u, RoundAction::Stop { reason: StopReason::PlannerActionRepairExhausted, trace: true })
                        } else {
                            let v = RoundState {
                                repair_attempt: (u.repair_attempt + 1) as usize,
                                planner_calls: bump(u.planner_calls),
                                ..u
                            };
                            (v, ask_planner(case, v, v.repair_attempt))
                        }
                    },
                    ProposalResolution::Stop => (t, RoundAction::Stop { reason: StopReason::PlannerStop, trace: true }),
                    ProposalResolution::Search { followed } => (
                        RoundState {
                            follow_suggested_query_actions: if followed {
                                bump(t.follow_suggested_query_actions)
                            } else {
                                t.follow_suggested_query_actions
                            },
                            ..t
                        },
                        RoundAction::RunNextQuery,
                    ),
                    ProposalResolution::MissingQuery => (
                        t,
                        RoundAction::Stop { reason: StopReason::PlannerProtocolFailure, trace: true },
                    ),
                }
            }
        },
    }
}

/// The state a case starts in.
pub fn initial_rounds(trial: u64) -> (r: RoundState)
    ensures
        r == initial_round_state(trial),
{
    RoundState {
        trial,
        round: 0,
        repair_attempt: 0,
        tool_calls: 0,
        external_requests: 0,
        planner_calls: 0,
        provider_attempts: 0,
        model_tokens: 0,
        no_progress_rounds: 0,
        identity_insufficient_observations: 0,
        identity_supported_observations: 0,
        invalid_action_observations: 0,
        invalid_actions_blocked_before_external_request: 0,
        follow_suggested_query_actions: 0,
        context_unverified_fact_admissions: 0,
        final_outcome: ExpectedOutcome::Unknown,
    }
}

fn planner_request(case: CaseSpec, s: RoundState, attempt: usize) -> (r: RoundAction)
    ensures
        r == ask_planner(case, s, attempt),
{
    let seed = planner_seed(s.trial, s.round as u64, attempt as u64, case.id);
    RoundAction::AskPlanner { seed, remaining_tool_calls: MAX_TOOL_CALLS.saturating_sub(s.tool_calls) }
}

/// Moves a case on by one event.
pub fn next_round_step(case: CaseSpec, s: RoundState, e: RoundEvent) -> (r: (RoundState, RoundAction))
    ensures
        r == round_step_spec(case, s, e),
{
    match e {
        RoundEvent::RoundReady { elapsed_ms, query_already_tried } => {
            if s.round >= MAX_ROUNDS {
                return (s, RoundAction::Stop { reason: StopReason::MaxRounds, trace: false });
            }
            match round_precheck(elapsed_ms, s.tool_calls, query_already_tried) {
                Some(reason) => (RoundState { round: s.round.saturating_add(1), ..s }, RoundAction::Stop { reason, trace: false }),
                None => (
                    RoundState { round: s.round.saturating_add(1), tool_calls: s.tool_calls.saturating_add(1), ..s },
                    RoundAction::CallTool,
                ),
            }
        },
        RoundEvent::ToolFailed(f) => (
            RoundState { external_requests: s.external_requests.saturating_add(f.external_requests), ..s },
            RoundAction::Stop { reason: f.kind, trace: false },
        ),
        RoundEvent::ToolObserved {
            external_requests,
            identity_insufficient,
            identity_supported,
            invalid_query,
            context_verified,
            new_progress_items,
            fact_matches_target,
        } => {
            let reported: usize = match external_requests {
                Some(n) => n as usize,
                None => 0,
            };
            let blocked = invalid_query && match external_requests {
                Some(n) => n == 0,
                None => false,
            };
            let t = RoundState {
                external_requests: s.external_requests.saturating_add(reported),
                identity_insufficient_observations: if identity_insufficient {
                    s.identity_insufficient_observations.saturating_add(1)
                } else {
                    s.identity_insufficient_observations
                },
                identity_supported_observations: if identity_supported {
                    s.identity_supported_observations.saturating_add(1)
                } else {
                    s.identity_supported_observations
                },
                invalid_action_observations: if invalid_query {
                    s.invalid_action_observations.saturating_add(1)
                } else {
                    s.invalid_action_observations
                },
                invalid_actions_blocked_before_external_request: if blocked {
                    s.invalid_actions_blocked_before_external_request.saturating_add(1)
                } else {
                    s.invalid_actions_blocked_before_external_request
                },
                no_progress_rounds: if new_progress_items == 0 { s.no_progress_rounds.saturating_add(1) } else { 0 },
                ..s
            };
            match fact_matches_target {
                Some(matches) => {
                    let u = RoundState {
                        context_unverified_fact_admissions: if case.identity_context.is_some() && !context_verified {
                            t.context_unverified_fact_admissions.saturating_add(1)
                        } else {
                            t.context_unverified_fact_admissions
                        },
                        final_outcome: if matches { ExpectedOutcome::Accept } else { ExpectedOutcome::Reject },
                        ..t
                    };
                    let reason = if matches { StopReason::ResolvedSupported } else { StopReason::ResolvedRefuted };
                    (u, RoundAction::Stop { reason, trace: true })
                },
                None => if t.no_progress_rounds >= NO_PROGRESS_LIMIT {
                    (t, RoundAction::Stop { reason: StopReason::NoProgress, trace: true })
                } else if t.model_tokens >= MAX_MODEL_TOKENS {
                    (t, RoundAction::Stop { reason: StopReason::ModelTokenBudget, trace: false })
                } else {
                    let u = RoundState { repair_attempt: 0, planner_calls: t.planner_calls.saturating_add(1), ..t };
                    (u, planner_request(case, u, 0))
                },
            }
        },
        RoundEvent::PlannerFailed(reason) => (s, RoundAction::Stop { reason, trace: true }),
        RoundEvent::PlannerProposed { tokens, attempts, resolution } => {
            let t = RoundState {
                model_tokens: s.model_tokens.saturating_add(tokens),
                provider_attempts: s.provider_attempts.saturating_add(attempts),
                ..s
            };
            if t.model_tokens > MAX_MODEL_TOKENS {
                return (t, RoundAction::Stop { reason: StopReason::ModelTokenBudget, trace: true });
            }
            match resolution {
                ProposalResolution::Invalid => {
                    let u = RoundState {
                        invalid_action_observations: t.invalid_action_observations.saturating_add(1),
                        invalid_actions_blocked_before_external_request: t.invalid_actions_blocked_before_external_request.saturating_add(
                            1,
                        ),
                        ..t
                    };
                    if u.repair_attempt >= MAX_ACTION_REPAIRS_PER_OBSERVATION {
                        (u, RoundAction::Stop { reason: StopReason::PlannerActionRepairExhausted, trace: true })
                    } else {
                        let v = RoundState {
                            repair_attempt: u.repair_attempt + 1,
                            planner_calls: u.planner_calls.saturating_add(1),
                            ..u
                        };
                        (v, planner_request(case, v, v.repair_attempt))
                    }
                },
                ProposalResolution::Stop => (t, RoundAction::Stop { reason: StopReason::PlannerStop, trace: true }),
                ProposalResolution::Search { followed } => (
                    RoundState {
                        follow_suggested_query_actions: if followed {
                            t.follow_suggested_query_actions.saturating_add(1)
                        } else {
                            t.follow_suggested_query_actions
                        },
                        ..t
                    },
                    RoundAction::RunNextQuery,
                ),
                ProposalResolution::MissingQuery => (t, RoundAction::Stop { reason: StopReason::PlannerProtocolFailure, trace: true }),
            }
        },
    }
}

/// A case never asks the planner more often than the repair limit allows on
/// one observation: a further invalid proposal stops it.
pub proof fn repairs_are_bounded(case: CaseSpec, s: RoundState, tokens: u64, attempts: u32)
    requires
        s.repair_attempt >= MAX_ACTION_REPAIRS_PER_OBSERVATION,
        sat_u64(s.model_tokens, tokens) <= MAX_MODEL_TOKENS,
    ensures
        round_step_spec(
            case,
            s,
            RoundEvent::PlannerProposed { tokens, attempts, resolution: ProposalResolution::Invalid },
        ).1 == (RoundAction::Stop { reason: StopReason::PlannerActionRepairExhausted, trace: true }),
{
}

} // verus!
