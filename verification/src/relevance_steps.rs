//! The model calls of one evidence-relevance stage (the binding proposal or
//! the local qualification) as a state machine: the primary call, the
//! strict-JSON text fallback when it is permitted, and the failure each dead
//! end is classed as. Only the provider calls and the parsing of their text
//! stay outside.
use vstd::prelude::*;
use crate::evidence_relevance::{ModelUsage, UsageSummary};
use crate::evidence_relevance;

verus! {

/// Where a stage's calls stand.
#[derive(Debug, Clone, Copy, PartialEq, Eq, Structural)]
pub enum CallPhase {
    NotStarted,
    Primary,
    Fallback(FallbackReason),
    Finished,
}

/// Which stage calls the model.
#[derive(Debug, Clone, Copy, PartialEq, Eq, Structural)]
pub enum Stage {
    /// The binding proposal.
    Proposal,
    /// The local qualification.
    LocalQualification,
}

/// What a stage has spent so far, and how it may call.
#[derive(Debug, Clone, Copy, PartialEq, Eq, Structural)]
pub struct CallState {
    pub stage: Stage,
    /// The provider's primary transport is already strict-JSON text (Groq's).
    pub text_primary: bool,
    /// A strict-JSON text request can be built from the stage's request.
    pub text_request_available: bool,
    pub max_model_calls: u32,
    pub phase: CallPhase,
    pub model_calls: u32,
    pub provider_attempts: u32,
    pub usage: UsageSummary,
}

/// How a stage's call came back.
#[derive(Debug, Clone, Copy, PartialEq, Eq, Structural)]
pub enum CallEvent {
    /// The stage begins.
    Begin,
    /// A call answered: its attempts and usage, and whether its text parsed.
    Responded { attempts: u32, usage: ModelUsage, parsed: bool },
    /// A call failed: whether the provider refused the requested capability,
    /// with the attempts the error reports.
    Failed { unsupported_capability: bool, error_attempts: u32 },
}

/// Why the fallback is tried.
#[derive(Debug, Clone, Copy, PartialEq, Eq, Structural)]
pub enum FallbackReason {
    PrimaryParseFailed,
    CapabilityUnsupported,
}

/// Why a stage failed without a provider error of its own to report.
#[derive(Debug, Clone, Copy, PartialEq, Eq, Structural)]
pub enum StageFailure {
    /// The model-call budget is zero (class `attempt_budget`).
    ZeroBudget,
    /// A text primary transport cannot be built (class `protocol`).
    TextPrimaryUnavailable,
    /// The text primary's answer did not parse (class `protocol`).
    TextPrimaryParseFailed,
    /// The structured answer did not parse and no fallback exists (class
    /// `protocol`), as the binding proposal reports it.
    NoFallback,
    /// The fallback cannot be built (class `protocol`), as the local
    /// qualification reports it once the budget permits the fallback.
    FallbackUnavailable(FallbackReason),
    /// The fallback would exceed the model-call budget (class `attempt_budget`).
    FallbackBlocked(FallbackReason),
    /// The fallback's answer did not parse (class `protocol`).
    FallbackParseFailed(FallbackReason),
}

/// What to do next.
#[derive(Debug, Clone, Copy, PartialEq, Eq, Structural)]
pub enum CallAction {
    /// Make the primary call.
    CallPrimary,
    /// Make the strict-JSON text fallback call.
    CallFallback(FallbackReason),
    /// The stage succeeded with the last answer; whether it came from the fallback.
    Succeed { used_structured_fallback: bool },
    /// The stage failed as described, with the counts of the state.
    Fail { failure: StageFailure, used_structured_fallback: bool },
    /// The provider error ends the stage: report it as a model failure.
    FailWithModelError { used_structured_fallback: bool },
    /// The call failed otherwise: report it as an adapter-call failure.
    FailWithCallError { used_structured_fallback: bool },
}

/// The class of a stage failure.
pub open spec fn stage_failure_class(f: StageFailure) -> Seq<char> {
    match f {
        StageFailure::ZeroBudget => "attempt_budget"@,
        StageFailure::FallbackBlocked(_) => "attempt_budget"@,
        _ => "protocol"@,
    }
}

/// The class of a stage failure.
pub fn stage_failure_class_name(f: StageFailure) -> (r: &'static str)
    ensures
        r@ == stage_failure_class(f),
{
    match f {
        StageFailure::ZeroBudget => "attempt_budget",
        StageFailure::FallbackBlocked(_) => "attempt_budget",
        _ => "protocol",
    }
}

/// What a stage's failure message says of the primary call before the
/// fallback's outcome.
pub open spec fn fallback_context(stage: Stage, reason: FallbackReason, primary_error: Seq<char>) -> Seq<char> {
    match (stage, reason) {
        (Stage::Proposal, FallbackReason::PrimaryParseFailed) => "primary structured proposal parse failed: "@
            + primary_error,
        (Stage::Proposal, FallbackReason::CapabilityUnsupported) => "primary JSON-Schema capability unsupported"@,
        (Stage::LocalQualification, FallbackReason::PrimaryParseFailed) =>
            "primary structured local qualification parse failed: "@ + primary_error,
        (Stage::LocalQualification, FallbackReason::CapabilityUnsupported) =>
            "primary local qualification JSON-Schema capability unsupported"@,
    }
}

/// The message of a stage failure, given the parse error of the primary
/// answer and that of the fallback answer, where they failed to parse.
pub open spec fn stage_failure_message_spec(
    stage: Stage,
    f: StageFailure,
    primary_error: Seq<char>,
    fallback_error: Seq<char>,
) -> Seq<char> {
    let proposal = stage == Stage::Proposal;
    match f {
        StageFailure::ZeroBudget => if proposal {
            "model-call budget is zero"@
        } else {
            "local qualification model-call budget is zero"@
        },
        StageFailure::TextPrimaryUnavailable => if proposal {
            "Groq strict-JSON Text primary transport unavailable"@
        } else {
            "Groq strict-JSON Text primary local qualification transport unavailable"@
        },
        StageFailure::TextPrimaryParseFailed => if proposal {
            "Groq strict-JSON Text primary proposal parse failed: "@ + primary_error
        } else {
            "Groq strict-JSON Text primary local qualification parse failed: "@ + primary_error
        },
        StageFailure::NoFallback => "primary structured proposal parse failed and no fallback exists: "@ + primary_error,
        StageFailure::FallbackUnavailable(r) => fallback_context(stage, r, primary_error)
            + "; structured fallback unavailable"@,
        StageFailure::FallbackBlocked(r) => fallback_context(stage, r, primary_error)
            + "; strict-JSON text fallback blocked by model-call budget"@,
        StageFailure::FallbackParseFailed(r) => fallback_context(stage, r, primary_error) + if proposal {
            "; strict-JSON text fallback proposal parse failed: "@
        } else {
            "; strict-JSON text fallback local qualification parse failed: "@
        } + fallback_error,
    }
}

/// What a stage's failure message says of the primary call before the
/// fallback's outcome.
pub fn fallback_context_message(stage: Stage, reason: FallbackReason, primary_error: &str) -> (r: String)
    ensures
        r@ == fallback_context(stage, reason, primary_error@),
{
    match (stage, reason) {
        (Stage::Proposal, FallbackReason::PrimaryParseFailed) => {
            let mut m = String::from_str("primary structured proposal parse failed: ");
            m.append(primary_error);
            m
        },
        (Stage::Proposal, FallbackReason::CapabilityUnsupported) => String::from_str(
            "primary JSON-Schema capability unsupported",
        ),
        (Stage::LocalQualification, FallbackReason::PrimaryParseFailed) => {
            let mut m = String::from_str("primary structured local qualification parse failed: ");
            m.append(primary_error);
            m
        },
        (Stage::LocalQualification, FallbackReason::CapabilityUnsupported) => String::from_str(
            "primary local qualification JSON-Schema capability unsupported",
        ),
    }
}

/// The message of a stage failure, given the parse error of the primary
/// answer and that of the fallback answer, where they failed to parse.
pub fn stage_failure_message(stage: Stage, f: StageFailure, primary_error: &str, fallback_error: &str) -> (r: String)
    ensures
        r@ == stage_failure_message_spec(stage, f, primary_error@, fallback_error@),
{
    let proposal = match stage {
        Stage::Proposal => true,
        Stage::LocalQualification => false,
    };
    match f {
        StageFailure::ZeroBudget => if proposal {
            String::from_str("model-call budget is zero")
        } else {
            String::from_str("local qualification model-call budget is zero")
        },
        StageFailure::TextPrimaryUnavailable => if proposal {
            String::from_str("Groq strict-JSON Text primary transport unavailable")
        } else {
            String::from_str("Groq strict-JSON Text primary local qualification transport unavailable")
        },
        StageFailure::TextPrimaryParseFailed => {
            let mut m = if proposal {
                String::from_str("Groq strict-JSON Text primary proposal parse failed: ")
            } else {
                String::from_str("Groq strict-JSON Text primary local qualification parse failed: ")
            };
            m.append(primary_error);
            m
        },
        StageFailure::NoFallback => {
            let mut m = String::from_str("primary structured proposal parse failed and no fallback exists: ");
            m.append(primary_error);
            m
        },
        StageFailure::FallbackUnavailable(r) => {
            let mut m = fallback_context_message(stage, r, primary_error);
            m.append("; structured fallback unavailable");
            m
        },
        StageFailure::FallbackBlocked(r) => {
            let mut m = fallback_context_message(stage, r, primary_error);
            m.append("; strict-JSON text fallback blocked by model-call budget");
            m
        },
        StageFailure::FallbackParseFailed(r) => {
            let mut m = fallback_context_message(stage, r, primary_error);
            if proposal {
                m.append("; strict-JSON text fallback proposal parse failed: ");
            } else {
                m.append("; strict-JSON text fallback local qualification parse failed: ");
            }
            m.append(fallback_error);
            m
        },
    }
}

/// The message of a fallback call that failed otherwise: the primary
/// call's context, then the failure's own message.
pub fn fallback_call_failure_message(stage: Stage, reason: FallbackReason, primary_error: &str, failure_message: &str) -> (r: String)
    ensures
        r@ == fallback_context(stage, reason, primary_error@) + "; fallback failed: "@ + failure_message@,
{
    let mut m = fallback_context_message(stage, reason, primary_error);
    m.append("; fallback failed: ");
    m.append(failure_message);
    m
}

/// `a + b`, held at the largest `u32`.
pub open spec fn sat32(a: u32, b: u32) -> u32 {
    if a + b > u32::MAX { u32::MAX } else { (a + b) as u32 }
}

/// A summary with a call's reported usage added, unknown counts as zero,
/// each total held at the largest `u64`.
pub open spec fn usage_plus(u: UsageSummary, m: ModelUsage) -> UsageSummary {
    UsageSummary {
        input_tokens: evidence_relevance::saturating_add_u64(u.input_tokens, evidence_relevance::known_or_zero(m.input_tokens)),
        output_tokens: evidence_relevance::saturating_add_u64(u.output_tokens, evidence_relevance::known_or_zero(m.output_tokens)),
        total_tokens: evidence_relevance::saturating_add_u64(u.total_tokens, evidence_relevance::known_or_zero(m.total_tokens)),
    }
}

/// A fresh stage.
pub open spec fn initial_call_state(stage: Stage, text_primary: bool, text_request_available: bool, max_model_calls: u32) -> CallState {
    CallState {
        stage,
        text_primary,
        text_request_available,
        max_model_calls,
        phase: CallPhase::NotStarted,
        model_calls: 0,
        provider_attempts: 0,
        usage: UsageSummary { input_tokens: 0, output_tokens: 0, total_tokens: 0 },
    }
}

/// Tries the fallback: blocked once the stage has made its permitted calls,
/// unavailable when no strict-JSON text request can be built, otherwise made
/// as one more call.
pub open spec fn try_fallback(s: CallState, reason: FallbackReason) -> (CallState, CallAction) {
    if s.model_calls >= s.max_model_calls {
        (
            CallState { phase: CallPhase::Finished, ..s },
            CallAction::Fail { failure: StageFailure::FallbackBlocked(reason), used_structured_fallback: false },
        )
    } else if !s.text_request_available {
        (
            CallState { phase: CallPhase::Finished, ..s },
            CallAction::Fail { failure: StageFailure::FallbackUnavailable(reason), used_structured_fallback: false },
        )
    } else {
        (CallState { phase: CallPhase::Fallback(reason), model_calls: (s.model_calls + 1) as u32, ..s }, CallAction::CallFallback(reason))
    }
}

/// One step of a stage.
/// - It begins with the primary call, unless its budget is zero or a text
///   primary cannot be built.
/// - A parsed answer ends it successfully. A text primary's unparsed answer
///   fails it; a structured primary's unparsed answer tries the fallback,
///   the binding proposal first checking that one exists.
/// - A structured primary refused for an unsupported capability adds the
///   error's attempts and tries the fallback; the binding proposal reports
///   the provider error instead when no fallback exists. Any other failed
///   call is an adapter-call failure.
/// - A fallback's unparsed answer fails the stage as a protocol failure.
/// - Attempts and usage add up, held at their largest values.
pub open spec fn call_step_spec(s: CallState, e: CallEvent) -> (CallState, CallAction) {
    let finished = CallState { phase: CallPhase::Finished, ..s };
    match (s.phase, e) {
        (CallPhase::NotStarted, CallEvent::Begin) => if s.max_model_calls == 0 {
            (finished, CallAction::Fail { failure: StageFailure::ZeroBudget, used_structured_fallback: false })
        } else if s.text_primary && !s.text_request_available {
            (finished, CallAction::Fail { failure: StageFailure::TextPrimaryUnavailable, used_structured_fallback: false })
        } else {
            (CallState { phase: CallPhase::Primary, model_calls: sat32(s.model_calls, 1), ..s }, CallAction::CallPrimary)
        },
        (CallPhase::Primary, CallEvent::Responded { attempts, usage, parsed }) => {
            let t = CallState {
                provider_attempts: sat32(s.provider_attempts, attempts),
                usage: usage_plus(s.usage, usage),
                ..s
            };
            let t_finished = CallState { phase: CallPhase::Finished, ..t };
            if parsed {
                (t_finished, CallAction::Succeed { used_structured_fallback: false })
            } else if s.text_primary {
                (t_finished, CallAction::Fail { failure: StageFailure::TextPrimaryParseFailed, used_structured_fallback: false })
            } else if !s.text_request_available && s.stage == Stage::Proposal {
                (t_finished, CallAction::Fail { failure: StageFailure::NoFallback, used_structured_fallback: false })
            } else {
                try_fallback(t, FallbackReason::PrimaryParseFailed)
            }
        },
        (CallPhase::Primary, CallEvent::Failed { unsupported_capability, error_attempts }) => {
            if unsupported_capability && !s.text_primary {
                let t = CallState { provider_attempts: sat32(s.provider_attempts, error_attempts), ..s };
                if !s.text_request_available && s.stage == Stage::Proposal {
                    (CallState { phase: CallPhase::Finished, ..t }, CallAction::FailWithModelError { used_structured_fallback: false })
                } else {
                    try_fallback(t, FallbackReason::CapabilityUnsupported)
                }
            } else {
                (finished, CallAction::FailWithCallError { used_structured_fallback: false })
            }
        },
        (CallPhase::Fallback(reason), CallEvent::Responded { attempts, usage, parsed }) => {
            let t = CallState {
                phase: CallPhase::Finished,
                provider_attempts: sat32(s.provider_attempts, attempts),
                usage: usage_plus(s.usage, usage),
                ..s
            };
            if parsed {
                (t, CallAction::Succeed { used_structured_fallback: true })
            } else {
                (t, CallAction::Fail { failure: StageFailure::FallbackParseFailed(reason), used_structured_fallback: true })
            }
        },
        (CallPhase::Fallback(_), CallEvent::Failed { .. }) => (
            finished,
            CallAction::FailWithCallError { used_structured_fallback: true },
        ),
        _ => (s, CallAction::FailWithCallError { used_structured_fallback: false }),
    }
}

/// Whether an event can happen in a phase: the stage begins once, and calls
/// come back only while one is made.
pub open spec fn event_fits(phase: CallPhase, e: CallEvent) -> bool {
    match phase {
        CallPhase::NotStarted => e == CallEvent::Begin,
        CallPhase::Primary => e != CallEvent::Begin,
        CallPhase::Fallback(_) => e != CallEvent::Begin,
        CallPhase::Finished => false,
    }
}

/// A fresh stage.
pub fn new_call_state(stage: Stage, text_primary: bool, text_request_available: bool, max_model_calls: u32) -> (r: CallState)
    ensures
        r == initial_call_state(stage, text_primary, text_request_available, max_model_calls),
{
    CallState {
        stage,
        text_primary,
        text_request_available,
        max_model_calls,
        phase: CallPhase::NotStarted,
        model_calls: 0,
        provider_attempts: 0,
        usage: UsageSummary { input_tokens: 0, output_tokens: 0, total_tokens: 0 },
    }
}

fn add_usage(u: UsageSummary, m: ModelUsage) -> (r: UsageSummary)
    ensures
        r == usage_plus(u, m),
{
    let input = match m.input_tokens {
        Some(n) => n,
        None => 0,
    };
    let output = match m.output_tokens {
        Some(n) => n,
        None => 0,
    };
    let total = match m.total_tokens {
        Some(n) => n,
        None => 0,
    };
    UsageSummary {
        input_tokens: u.input_tokens.saturating_add(input),
        output_tokens: u.output_tokens.saturating_add(output),
        total_tokens: u.total_tokens.saturating_add(total),
    }
}

fn fallback_step(s: CallState, reason: FallbackReason) -> (r: (CallState, CallAction))
    ensures
        r == try_fallback(s, reason),
{
    if s.model_calls >= s.max_model_calls {
        (
            CallState { phase: CallPhase::Finished, ..s },
            CallAction::Fail { failure: StageFailure::FallbackBlocked(reason), used_structured_fallback: false },
        )
    } else if !s.text_request_available {
        (
            CallState { phase: CallPhase::Finished, ..s },
            CallAction::Fail { failure: StageFailure::FallbackUnavailable(reason), used_structured_fallback: false },
        )
    } else {
        (CallState { phase: CallPhase::Fallback(reason), model_calls: s.model_calls + 1, ..s }, CallAction::CallFallback(reason))
    }
}

/// Moves a stage on by one event.
pub fn call_step(s: CallState, e: CallEvent) -> (r: (CallState, CallAction))
    requires
        event_fits(s.phase, e),
    ensures
        r == call_step_spec(s, e),
{
    let finished = CallState { phase: CallPhase::Finished, ..s };
    match (s.phase, e) {
        (CallPhase::NotStarted, CallEvent::Begin) => if s.max_model_calls == 0 {
            (finished, CallAction::Fail { failure: StageFailure::ZeroBudget, used_structured_fallback: false })
        } else if s.text_primary && !s.text_request_available {
            (finished, CallAction::Fail { failure: StageFailure::TextPrimaryUnavailable, used_structured_fallback: false })
        } else {
            (CallState { phase: CallPhase::Primary, model_calls: s.model_calls.saturating_add(1), ..s }, CallAction::CallPrimary)
        },
        (CallPhase::Primary, CallEvent::Responded { attempts, usage, parsed }) => {
            let t = CallState {
                provider_attempts: s.provider_attempts.saturating_add(attempts),
                usage: add_usage(s.usage, usage),
                ..s
            };
            let t_finished = CallState { phase: CallPhase::Finished, ..t };
            if parsed {
                (t_finished, CallAction::Succeed { used_structured_fallback: false })
            } else if s.text_primary {
                (t_finished, CallAction::Fail { failure: StageFailure::TextPrimaryParseFailed, used_structured_fallback: false })
            } else if !s.text_request_available && s.stage == Stage::Proposal {
                (t_finished, CallAction::Fail { failure: StageFailure::NoFallback, used_structured_fallback: false })
            } else {
                fallback_step(t, FallbackReason::PrimaryParseFailed)
            }
        },
        (CallPhase::Primary, CallEvent::Failed { unsupported_capability, error_attempts }) => {
            if unsupported_capability && !s.text_primary {
                let t = CallState { provider_attempts: s.provider_attempts.saturating_add(error_attempts), ..s };
                if !s.text_request_available && s.stage == Stage::Proposal {
                    (CallState { phase: CallPhase::Finished, ..t }, CallAction::FailWithModelError { used_structured_fallback: false })
                } else {
                    fallback_step(t, FallbackReason::CapabilityUnsupported)
                }
            } else {
                (finished, CallAction::FailWithCallError { used_structured_fallback: false })
            }
        },
        (CallPhase::Fallback(reason), CallEvent::Responded { attempts, usage, parsed }) => {
            let t = CallState {
                phase: CallPhase::Finished,
                provider_attempts: s.provider_attempts.saturating_add(attempts),
                usage: add_usage(s.usage, usage),
                ..s
            };
            if parsed {
                (t, CallAction::Succeed { used_structured_fallback: true })
            } else {
                (t, CallAction::Fail { failure: StageFailure::FallbackParseFailed(reason), used_structured_fallback: true })
            }
        },
        (CallPhase::Fallback(_), CallEvent::Failed { .. }) => (
            finished,
            CallAction::FailWithCallError { used_structured_fallback: true },
        ),
        _ => (s, CallAction::FailWithCallError { used_structured_fallback: false }),
    }
}

/// The fallback is made only when the budget permits one more call, and a
/// stage never makes more calls than its budget allows.
pub proof fn fallback_respects_budget(s: CallState, e: CallEvent)
    requires
        event_fits(s.phase, e),
        s.model_calls <= s.max_model_calls,
        s.phase == CallPhase::NotStarted ==> s.model_calls == 0,
    ensures
        call_step_spec(s, e).1 is CallFallback ==> s.model_calls < s.max_model_calls,
        call_step_spec(s, e).0.model_calls <= s.max_model_calls,
{
}

// ---------------------------------------------------------------------------
// The study's run over its cases.
// ---------------------------------------------------------------------------

/// Why the provider arm was latched, suppressing every later external call.
#[derive(Debug, Clone, Copy, PartialEq, Eq, Structural)]
pub enum LatchReason {
    /// A typed quota failure.
    ConfirmedQuotaFailure,
    /// Too many consecutive capacity failures with cases left.
    CapacityBudgetExhausted,
}

/// How a study run stands.
#[derive(Debug, Clone, Copy, PartialEq, Eq, Structural)]
pub struct StudyState {
    pub planned_cases: usize,
    pub done_cases: usize,
    pub max_consecutive_operational_failures: usize,
    pub max_consecutive_capacity_failures: usize,
    pub continue_after_operational_failures: bool,
    pub operational_streak: usize,
    pub capacity_streak: usize,
    pub latch: Option<LatchReason>,
    pub suppressed_cases: usize,
    pub failed_cases: usize,
    pub aborted: bool,
}

/// What happened since the last step.
#[derive(Debug, Clone, Copy, PartialEq, Eq)]
pub enum StudyEvent<'a> {
    /// The study is ready for its next case.
    NextCase,
    /// The case just run ended, with the class of its failure if it failed.
    CaseObserved { failure_class: Option<&'a str> },
}

/// What to do next.
#[derive(Debug, Clone, Copy, PartialEq, Eq, Structural)]
pub enum StudyAction {
    /// Run the case at this position.
    RunCase { index: usize },
    /// Record the case at this position as suppressed by the latch, without
    /// calling the provider.
    SuppressCase { index: usize, reason: LatchReason },
    /// Go on to the next case, after the pause between cases when
    /// `pause` (there is a next case).
    Continue { pause: bool },
    /// Stop: the operational failure budget is spent with cases left.
    Abort,
    /// Every case is done.
    Finish,
}

/// How a run checks its arguments before any case: a validation run stops
/// before the failure budgets are checked, and each budget must be at least 1.
pub open spec fn study_start_spec(validate_only: bool, max_operational: usize, max_capacity: usize) -> Result<bool, Seq<char>> {
    if validate_only {
        Ok(true)
    } else if max_operational == 0 {
        Err("--max-consecutive-operational-failures must be at least 1"@)
    } else if max_capacity == 0 {
        Err("--max-consecutive-capacity-failures must be at least 1"@)
    } else {
        Ok(false)
    }
}

/// Checks a run's arguments: `Ok(true)` for a validation run, `Ok(false)`
/// for a run over the cases.
pub fn study_start(validate_only: bool, max_operational: usize, max_capacity: usize) -> (r: Result<bool, String>)
    ensures
        match r {
            Ok(b) => study_start_spec(validate_only, max_operational, max_capacity) == Ok::<bool, Seq<char>>(b),
            Err(m) => study_start_spec(validate_only, max_operational, max_capacity) == Err::<bool, Seq<char>>(m@),
        },
{
    if validate_only {
        Ok(true)
    } else if max_operational == 0 {
        Err(String::from_str("--max-consecutive-operational-failures must be at least 1"))
    } else if max_capacity == 0 {
        Err(String::from_str("--max-consecutive-capacity-failures must be at least 1"))
    } else {
        Ok(false)
    }
}

/// A run over `planned_cases` cases with these failure budgets, before its first case.
pub open spec fn initial_study_state(planned_cases: usize, max_operational: usize, max_capacity: usize, continue_after: bool) -> StudyState {
    StudyState {
        planned_cases,
        done_cases: 0,
        max_consecutive_operational_failures: max_operational,
        max_consecutive_capacity_failures: max_capacity,
        continue_after_operational_failures: continue_after,
        operational_streak: 0,
        capacity_streak: 0,
        latch: None,
        suppressed_cases: 0,
        failed_cases: 0,
        aborted: false,
    }
}

/// A run before its first case.
pub fn new_study_state(planned_cases: usize, max_operational: usize, max_capacity: usize, continue_after: bool) -> (r: StudyState)
    ensures
        r == initial_study_state(planned_cases, max_operational, max_capacity, continue_after),
{
    StudyState {
        planned_cases,
        done_cases: 0,
        max_consecutive_operational_failures: max_operational,
        max_consecutive_capacity_failures: max_capacity,
        continue_after_operational_failures: continue_after,
        operational_streak: 0,
        capacity_streak: 0,
        latch: None,
        suppressed_cases: 0,
        failed_cases: 0,
        aborted: false,
    }
}

/// One step of a run.
/// - Before a case: finish when every case is done; with the arm latched the
///   case is suppressed (a failed case); otherwise it is run.
/// - After a case: the streaks follow `next_operational_failure_streak` and
///   `next_capacity_failure_streak`; an unlatched arm latches on a quota
///   failure, or once the capacity streak reaches its budget with cases left;
///   the run aborts when `should_abort_after_operational_failure` says so,
///   and otherwise goes on.
pub open spec fn study_step_spec(s: StudyState, e: StudyEvent) -> (StudyState, StudyAction) {
    match e {
        StudyEvent::NextCase => if s.done_cases >= s.planned_cases {
            (s, StudyAction::Finish)
        } else {
            match s.latch {
                Some(reason) => (
                    StudyState {
                        done_cases: (s.done_cases + 1) as usize,
                        suppressed_cases: if s.suppressed_cases == usize::MAX { s.suppressed_cases } else { (s.suppressed_cases + 1) as usize },
                        failed_cases: if s.failed_cases == usize::MAX { s.failed_cases } else { (s.failed_cases + 1) as usize },
                        ..s
                    },
                    StudyAction::SuppressCase { index: s.done_cases, reason },
                ),
                None => (s, StudyAction::RunCase { index: s.done_cases }),
            }
        },
        StudyEvent::CaseObserved { failure_class } => {
            let class: Option<Seq<char>> = match failure_class {
                Some(c) => Some(c@),
                None => None,
            };
            let remaining = s.done_cases + 1 < s.planned_cases;
            let op = if class is Some && crate::failures::operational_class(class->0) {
                crate::failures::saturating_succ(s.operational_streak)
            } else {
                0
            };
            let cap = if class is Some && crate::failures::capacity_class(class->0) {
                crate::failures::saturating_succ(s.capacity_streak)
            } else {
                0
            };
            let latch = if s.latch is Some {
                s.latch
            } else if class == Some("quota"@) {
                Some(LatchReason::ConfirmedQuotaFailure)
            } else if cap >= s.max_consecutive_capacity_failures && remaining {
                Some(LatchReason::CapacityBudgetExhausted)
            } else {
                None
            };
            let abort = !s.continue_after_operational_failures && remaining && op >= s.max_consecutive_operational_failures;
            let t = StudyState {
                done_cases: if s.done_cases == usize::MAX { s.done_cases } else { (s.done_cases + 1) as usize },
                operational_streak: op,
                capacity_streak: cap,
                latch,
                failed_cases: if class is Some {
                    if s.failed_cases == usize::MAX { s.failed_cases } else { (s.failed_cases + 1) as usize }
                } else {
                    s.failed_cases
                },
                aborted: abort,
                ..s
            };
            (t, if abort { StudyAction::Abort } else { StudyAction::Continue { pause: remaining } })
        },
    }
}

/// Moves a run on by one event.
pub fn study_step(s: StudyState, e: StudyEvent) -> (r: (StudyState, StudyAction))
    ensures
        r == study_step_spec(s, e),
{
    match e {
        StudyEvent::NextCase => {
            if s.done_cases >= s.planned_cases {
                return (s, StudyAction::Finish);
            }
            match s.latch {
                Some(reason) => (
                    StudyState {
                        done_cases: s.done_cases + 1,
                        suppressed_cases: s.suppressed_cases.saturating_add(1),
                        failed_cases: s.failed_cases.saturating_add(1),
                        ..s
                    },
                    StudyAction::SuppressCase { index: s.done_cases, reason },
                ),
                None => (s, StudyAction::RunCase { index: s.done_cases }),
            }
        },
        StudyEvent::CaseObserved { failure_class } => {
            let remaining = s.done_cases < s.planned_cases && s.done_cases + 1 < s.planned_cases;
            let op = crate::failures::next_operational_failure_streak(s.operational_streak, failure_class);
            let cap = crate::failures::next_capacity_failure_streak(s.capacity_streak, failure_class);
            let is_quota = match failure_class {
                Some(c) => crate::text::str_eq(c, "quota"),
                None => false,
            };
            let latch = if s.latch.is_some() {
                s.latch
            } else if is_quota {
                Some(LatchReason::ConfirmedQuotaFailure)
            } else if cap >= s.max_consecutive_capacity_failures && remaining {
                Some(LatchReason::CapacityBudgetExhausted)
            } else {
                None
            };
            let abort = crate::failures::should_abort_after_operational_failure(
                s.continue_after_operational_failures,
                op,
                s.max_consecutive_operational_failures,
                remaining,
            );
            let t = StudyState {
                done_cases: s.done_cases.saturating_add(1),
                operational_streak: op,
                capacity_streak: cap,
                latch,
                failed_cases: if failure_class.is_some() { s.failed_cases.saturating_add(1) } else { s.failed_cases },
                aborted: abort,
                ..s
            };
            (t, if abort { StudyAction::Abort } else { StudyAction::Continue { pause: remaining } })
        },
    }
}

/// Whether a finished run can be scored: the canonical full calibration,
/// not aborted, with every planned case observed without a failure.
pub fn study_scorability(canonical_full_calibration: bool, s: StudyState, observed_cases: usize) -> (r: &'static str)
    ensures
        r@ == (if canonical_full_calibration && !s.aborted && observed_cases == s.planned_cases && s.failed_cases == 0 {
            "complete_calibration_observation"@
        } else {
            "non_canonical_or_operationally_incomplete"@
        }),
{
    if canonical_full_calibration && !s.aborted && observed_cases == s.planned_cases && s.failed_cases == 0 {
        "complete_calibration_observation"
    } else {
        "non_canonical_or_operationally_incomplete"
    }
}

/// Full diagnostic mode never aborts a run, and a run never aborts on its
/// last case.
pub proof fn diagnostic_runs_never_abort(s: StudyState, e: StudyEvent)
    requires
        s.continue_after_operational_failures || s.done_cases + 1 >= s.planned_cases,
    ensures
        study_step_spec(s, e).1 != StudyAction::Abort,
{
}

} // verus!
