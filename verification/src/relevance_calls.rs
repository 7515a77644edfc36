//! The evidence-relevance study's provider calls: the execution a call spent
//! against the case budget, the accounting of a failed call, the steps from a
//! primary call to its strict-JSON text fallback, the merging of the proposal
//! and qualification stages, and the observation each case ends with.
use vstd::prelude::*;
use crate::evidence_relevance::{saturating_add_u64, Disposition, ExecutionSummary, UsageSummary};
use crate::failures::{model_error_class, model_error_class_spec, sanitize_provider_failure_message, sanitized_message, ModelErrorKind};
use crate::relevance_metrics::{LocalQualification, Observation};
use crate::text;
use crate::text::starts_with;

verus! {

/// `a + b`, held at the largest `u32`.
pub open spec fn saturating_add_u32(a: u32, b: u32) -> u32 {
    if a + b > u32::MAX { u32::MAX } else { (a + b) as u32 }
}

/// `x`, held at the largest `u32`.
pub open spec fn clamp_u32(x: u64) -> u32 {
    if x > u32::MAX { u32::MAX } else { x as u32 }
}

fn clamp_to_u32(x: u64) -> (r: u32)
    ensures
        r == clamp_u32(x),
{
    if x > 4294967295u64 {
        4294967295u32
    } else {
        x as u32
    }
}

// ---------------------------------------------------------------------------
// Execution of one call.
// ---------------------------------------------------------------------------

/// The execution a call is charged with: the provider's telemetry delta when
/// it reports one, otherwise the attempts of the call's result, all of its
/// elapsed time counted as active; in both cases active time is at least the
/// elapsed time less the waits. Also whether it overran the active budget left.
pub open spec fn charged_execution(
    telemetry: Option<ExecutionSummary>,
    result_attempts: u64,
    call_elapsed_ms: u64,
    remaining_active_ms: u64,
) -> (ExecutionSummary, bool) {
    let base = match telemetry {
        Some(t) => t,
        None => ExecutionSummary {
            provider_attempts_started: result_attempts,
            provider_attempts_completed: result_attempts,
            active_ms: call_elapsed_ms,
            wait_ms: 0,
            pacing_wait_ms: 0,
            retry_wait_ms: 0,
        },
    };
    let inferred: u64 = if call_elapsed_ms >= base.wait_ms { (call_elapsed_ms - base.wait_ms) as u64 } else { 0 };
    let active: u64 = if base.active_ms >= inferred { base.active_ms } else { inferred };
    (ExecutionSummary { active_ms: active, ..base }, active > remaining_active_ms)
}

/// The execution recorded for a whole case: the telemetry's difference over
/// the case where the provider reports telemetry, otherwise the case's
/// attempts (counted as completed only when their count is complete) and its
/// elapsed time as active time, held at the largest `u64`.
pub open spec fn case_execution_spec(
    telemetry_delta: Option<ExecutionSummary>,
    provider_attempts: u32,
    attempts_complete: bool,
    elapsed_ms: u128,
) -> ExecutionSummary {
    match telemetry_delta {
        Some(d) => d,
        None => ExecutionSummary {
            provider_attempts_started: provider_attempts as u64,
            provider_attempts_completed: if attempts_complete { provider_attempts as u64 } else { 0 },
            active_ms: if elapsed_ms > u64::MAX as u128 { u64::MAX } else { elapsed_ms as u64 },
            wait_ms: 0,
            pacing_wait_ms: 0,
            retry_wait_ms: 0,
        },
    }
}

/// The execution recorded for a whole case.
pub fn case_execution(
    telemetry_delta: Option<ExecutionSummary>,
    provider_attempts: u32,
    attempts_complete: bool,
    elapsed_ms: u128,
) -> (r: ExecutionSummary)
    ensures
        r == case_execution_spec(telemetry_delta, provider_attempts, attempts_complete, elapsed_ms),
{
    match telemetry_delta {
        Some(d) => d,
        None => ExecutionSummary {
            provider_attempts_started: provider_attempts as u64,
            provider_attempts_completed: if attempts_complete { provider_attempts as u64 } else { 0 },
            active_ms: if elapsed_ms > u64::MAX as u128 { u64::MAX } else { elapsed_ms as u64 },
            wait_ms: 0,
            pacing_wait_ms: 0,
            retry_wait_ms: 0,
        },
    }
}

/// The execution a call is charged with, and whether it overran the active
/// budget left before it.
pub fn call_execution(
    telemetry: Option<ExecutionSummary>,
    result_attempts: u64,
    call_elapsed_ms: u64,
    remaining_active_ms: u64,
) -> (r: (ExecutionSummary, bool))
    ensures
        r == charged_execution(telemetry, result_attempts, call_elapsed_ms, remaining_active_ms),
{
    let base = match telemetry {
        Some(t) => t,
        None => ExecutionSummary {
            provider_attempts_started: result_attempts,
            provider_attempts_completed: result_attempts,
            active_ms: call_elapsed_ms,
            wait_ms: 0,
            pacing_wait_ms: 0,
            retry_wait_ms: 0,
        },
    };
    let inferred = call_elapsed_ms.saturating_sub(base.wait_ms);
    let active = if base.active_ms >= inferred { base.active_ms } else { inferred };
    (ExecutionSummary { active_ms: active, ..base }, active > remaining_active_ms)
}

// ---------------------------------------------------------------------------
// Failed calls.
// ---------------------------------------------------------------------------

/// Why a stage of a case failed.
#[derive(Debug)]
pub struct CallFailure {
    pub class: String,
    pub message: String,
    pub used_structured_fallback: bool,
    pub model_calls: u32,
    pub provider_attempts: u32,
    pub provider_attempts_complete: bool,
    pub usage: UsageSummary,
    pub provider_model: Option<String>,
    pub finish_reason: Option<String>,
}

/// A provider error: its kind, message and attempts.
#[derive(Debug)]
pub struct ProviderError {
    pub kind: ModelErrorKind,
    pub message: String,
    pub provider_attempts: u32,
}

/// The failure a provider error makes: classed by its kind, its message
/// sanitized, its attempt count complete.
pub fn model_failure(
    error: &ProviderError,
    used_structured_fallback: bool,
    model_calls: u32,
    provider_attempts: u32,
    usage: UsageSummary,
    provider_model: Option<String>,
    finish_reason: Option<String>,
) -> (r: CallFailure)
    ensures
        r.class@ == model_error_class_spec(error.kind),
        r.message@ == sanitized_message(error.kind, error.message@),
        r.used_structured_fallback == used_structured_fallback,
        r.model_calls == model_calls,
        r.provider_attempts == provider_attempts,
        r.provider_attempts_complete,
        r.usage == usage,
        r.provider_model == provider_model,
        r.finish_reason == finish_reason,
{
    CallFailure {
        class: model_error_class(error.kind).to_owned(),
        message: sanitize_provider_failure_message(error.kind, error.message.as_str()),
        used_structured_fallback,
        model_calls,
        provider_attempts,
        provider_attempts_complete: true,
        usage,
        provider_model,
        finish_reason,
    }
}

/// The class of a call that ran out of time: the case's absolute deadline or
/// the assessment's budget.
pub open spec fn timeout_class(absolute_timeout: bool) -> Seq<char> {
    if absolute_timeout { "case_absolute_timeout"@ } else { "assessment_timeout"@ }
}

/// The failure of a call that ran out of time, described by `context`: its
/// started attempts are added to the earlier ones and are not known to be
/// complete.
pub fn adapter_call_timeout_failure(
    execution: ExecutionSummary,
    absolute_timeout: bool,
    context: &str,
    used_structured_fallback: bool,
    model_calls: u32,
    prior_provider_attempts: u32,
    usage: UsageSummary,
    provider_model: Option<String>,
    finish_reason: Option<String>,
) -> (r: CallFailure)
    ensures
        r.class@ == timeout_class(absolute_timeout),
        r.message@ == context@ + "; "@ + timeout_class(absolute_timeout),
        r.used_structured_fallback == used_structured_fallback,
        r.model_calls == model_calls,
        r.provider_attempts == saturating_add_u32(prior_provider_attempts, clamp_u32(execution.provider_attempts_started)),
        !r.provider_attempts_complete,
        r.usage == usage,
        r.provider_model == provider_model,
        r.finish_reason == finish_reason,
{
    let started = clamp_to_u32(execution.provider_attempts_started);
    let class = if absolute_timeout { "case_absolute_timeout" } else { "assessment_timeout" };
    let mut message = String::from_str(context);
    message.append("; ");
    message.append(class);
    CallFailure {
        class: class.to_owned(),
        message,
        used_structured_fallback,
        model_calls,
        provider_attempts: prior_provider_attempts.saturating_add(started),
        provider_attempts_complete: false,
        usage,
        provider_model,
        finish_reason,
    }
}

/// The failure of a provider call: a provider error is a model failure whose
/// attempts are the larger of those started and those the error reports, and
/// whose count is complete when every started attempt completed; a call
/// without an error ran out of time.
pub fn adapter_call_model_failure(
    error: Option<&ProviderError>,
    execution: ExecutionSummary,
    absolute_timeout: bool,
    used_structured_fallback: bool,
    model_calls: u32,
    prior_provider_attempts: u32,
    usage: UsageSummary,
    provider_model: Option<String>,
    finish_reason: Option<String>,
) -> (r: CallFailure)
    ensures
        match error {
            Some(e) => {
                let started = clamp_u32(execution.provider_attempts_started);
                let attempts = if started >= e.provider_attempts { started } else { e.provider_attempts };
                &&& r.class@ == model_error_class_spec(e.kind)
                &&& r.message@ == sanitized_message(e.kind, e.message@)
                &&& r.provider_attempts == saturating_add_u32(prior_provider_attempts, attempts)
                &&& r.provider_attempts_complete == (started == clamp_u32(execution.provider_attempts_completed))
            },
            None => {
                &&& r.class@ == timeout_class(absolute_timeout)
                &&& r.message@ == "provider call exceeded bounded execution budget"@ + "; "@ + timeout_class(absolute_timeout)
                &&& r.provider_attempts == saturating_add_u32(prior_provider_attempts, clamp_u32(execution.provider_attempts_started))
                &&& !r.provider_attempts_complete
            },
        },
        r.used_structured_fallback == used_structured_fallback,
        r.model_calls == model_calls,
        r.usage == usage,
        r.provider_model == provider_model,
        r.finish_reason == finish_reason,
{
    match error {
        Some(e) => {
            let started = clamp_to_u32(execution.provider_attempts_started);
            let completed = clamp_to_u32(execution.provider_attempts_completed);
            let attempts = if started >= e.provider_attempts { started } else { e.provider_attempts };
            let mut result = model_failure(
                e,
                used_structured_fallback,
                model_calls,
                prior_provider_attempts.saturating_add(attempts),
                usage,
                provider_model,
                finish_reason,
            );
            result.provider_attempts_complete = started == completed;
            result
        },
        None => adapter_call_timeout_failure(
            execution,
            absolute_timeout,
            "provider call exceeded bounded execution budget",
            used_structured_fallback,
            model_calls,
            prior_provider_attempts,
            usage,
            provider_model,
            finish_reason,
        ),
    }
}

// ---------------------------------------------------------------------------
// From a primary call to its fallback.
// ---------------------------------------------------------------------------

/// How a primary call came back: a response whose content parsed or not, a
/// provider error that the requested capability is unsupported, or any other
/// failure.
#[derive(Debug, Clone, Copy, PartialEq, Eq, Structural)]
pub enum PrimaryResult {
    Parsed,
    ParseFailed,
    UnsupportedCapability,
    OtherFailure,
}

/// What a stage does after its primary call.
#[derive(Debug, Clone, Copy, PartialEq, Eq, Structural)]
pub enum PrimaryStep {
    /// The primary's content stands.
    Accept,
    /// The primary's content did not parse and no fallback applies.
    FailProtocol,
    /// The capability is unsupported and no fallback request exists.
    FailModel,
    /// The call failed otherwise.
    FailCall,
    /// Retry through the strict-JSON text fallback.
    Fallback,
}

/// The step after a primary call: a text primary (Groq's) has no fallback;
/// a parse failure or an unsupported capability falls back when a fallback
/// request exists.
pub open spec fn primary_step_spec(text_primary: bool, result: PrimaryResult, fallback_available: bool) -> PrimaryStep {
    match result {
        PrimaryResult::Parsed => PrimaryStep::Accept,
        PrimaryResult::ParseFailed => if text_primary || !fallback_available {
            PrimaryStep::FailProtocol
        } else {
            PrimaryStep::Fallback
        },
        PrimaryResult::UnsupportedCapability => if text_primary {
            PrimaryStep::FailCall
        } else if !fallback_available {
            PrimaryStep::FailModel
        } else {
            PrimaryStep::Fallback
        },
        PrimaryResult::OtherFailure => PrimaryStep::FailCall,
    }
}

/// The step after a primary call.
pub fn primary_step(text_primary: bool, result: PrimaryResult, fallback_available: bool) -> (r: PrimaryStep)
    ensures
        r == primary_step_spec(text_primary, result, fallback_available),
{
    match result {
        PrimaryResult::Parsed => PrimaryStep::Accept,
        PrimaryResult::ParseFailed => if text_primary || !fallback_available {
            PrimaryStep::FailProtocol
        } else {
            PrimaryStep::Fallback
        },
        PrimaryResult::UnsupportedCapability => if text_primary {
            PrimaryStep::FailCall
        } else if !fallback_available {
            PrimaryStep::FailModel
        } else {
            PrimaryStep::Fallback
        },
        PrimaryResult::OtherFailure => PrimaryStep::FailCall,
    }
}

/// Whether a fallback call fits the stage's model-call budget.
pub fn fallback_permitted(prior_model_calls: u32, max_model_calls: u32) -> (r: bool)
    ensures
        r == (prior_model_calls < max_model_calls),
{
    prior_model_calls < max_model_calls
}

/// A fallback runs only after a structured primary call whose content did not
/// parse or whose capability is unsupported, and only when a fallback exists.
pub proof fn fallback_follows_a_failed_primary(text_primary: bool, result: PrimaryResult, fallback_available: bool)
    ensures
        primary_step_spec(text_primary, result, fallback_available) == PrimaryStep::Fallback ==> !text_primary && fallback_available
            && result != PrimaryResult::Parsed && result != PrimaryResult::OtherFailure,
{
}

// ---------------------------------------------------------------------------
// Merging the stages of a case.
// ---------------------------------------------------------------------------

/// What the calls of a case have spent so far.
#[derive(Debug)]
pub struct CallTally {
    pub used_structured_fallback: bool,
    pub model_calls: u32,
    pub provider_attempts: u32,
    pub usage: UsageSummary,
    pub provider_model: Option<String>,
    pub finish_reason: Option<String>,
}

/// The proposal stage's tally with a successful qualification stage's added:
/// fallback use combined, calls and attempts added, usage summed, and the
/// later stage's model and finish reason where it reports them.
pub fn merge_qualification(prior: CallTally, stage: CallTally) -> (r: CallTally)
    ensures
        r.used_structured_fallback == (prior.used_structured_fallback || stage.used_structured_fallback),
        r.model_calls == saturating_add_u32(prior.model_calls, stage.model_calls),
        r.provider_attempts == saturating_add_u32(prior.provider_attempts, stage.provider_attempts),
        r.usage.input_tokens == saturating_add_u64(prior.usage.input_tokens, stage.usage.input_tokens),
        r.usage.output_tokens == saturating_add_u64(prior.usage.output_tokens, stage.usage.output_tokens),
        r.usage.total_tokens == saturating_add_u64(prior.usage.total_tokens, stage.usage.total_tokens),
        r.provider_model == (if stage.provider_model is Some { stage.provider_model } else { prior.provider_model }),
        r.finish_reason == (if stage.finish_reason is Some { stage.finish_reason } else { prior.finish_reason }),
{
    let mut usage = prior.usage;
    usage.add_summary(&stage.usage);
    CallTally {
        used_structured_fallback: prior.used_structured_fallback || stage.used_structured_fallback,
        model_calls: prior.model_calls.saturating_add(stage.model_calls),
        provider_attempts: prior.provider_attempts.saturating_add(stage.provider_attempts),
        usage,
        provider_model: if stage.provider_model.is_some() { stage.provider_model } else { prior.provider_model },
        finish_reason: if stage.finish_reason.is_some() { stage.finish_reason } else { prior.finish_reason },
    }
}

/// A failed qualification stage with the proposal stage's tally folded in:
/// the failure's own model and finish reason are kept where it reports them,
/// and its message says the local qualification failed.
pub fn merge_failed_qualification(prior: CallTally, failure: CallFailure) -> (r: CallFailure)
    ensures
        r.class == failure.class,
        r.message@ == "local qualification failed: "@ + failure.message@,
        r.used_structured_fallback == (failure.used_structured_fallback || prior.used_structured_fallback),
        r.model_calls == saturating_add_u32(failure.model_calls, prior.model_calls),
        r.provider_attempts == saturating_add_u32(failure.provider_attempts, prior.provider_attempts),
        r.provider_attempts_complete == failure.provider_attempts_complete,
        r.usage.input_tokens == saturating_add_u64(failure.usage.input_tokens, prior.usage.input_tokens),
        r.usage.output_tokens == saturating_add_u64(failure.usage.output_tokens, prior.usage.output_tokens),
        r.usage.total_tokens == saturating_add_u64(failure.usage.total_tokens, prior.usage.total_tokens),
        r.provider_model == (if failure.provider_model is Some { failure.provider_model } else { prior.provider_model }),
        r.finish_reason == (if failure.finish_reason is Some { failure.finish_reason } else { prior.finish_reason }),
{
    let mut usage = failure.usage;
    usage.add_summary(&prior.usage);
    let mut message = String::from_str("local qualification failed: ");
    message.append(failure.message.as_str());
    CallFailure {
        class: failure.class,
        message,
        used_structured_fallback: failure.used_structured_fallback || prior.used_structured_fallback,
        model_calls: failure.model_calls.saturating_add(prior.model_calls),
        provider_attempts: failure.provider_attempts.saturating_add(prior.provider_attempts),
        provider_attempts_complete: failure.provider_attempts_complete,
        usage,
        provider_model: if failure.provider_model.is_some() { failure.provider_model } else { prior.provider_model },
        finish_reason: if failure.finish_reason.is_some() { failure.finish_reason } else { prior.finish_reason },
    }
}

// ---------------------------------------------------------------------------
// The observation of a case.
// ---------------------------------------------------------------------------

/// A binding proposal: how the candidate binds to the target and to the
/// relation, each by the code of its variant.
#[derive(Debug, Clone, Copy, PartialEq, Eq, Structural)]
pub struct BindingProposal {
    pub target_binding: u8,
    pub relation_binding: u8,
}

/// What a case expects.
#[derive(Debug, Clone, Copy, PartialEq, Eq, Structural)]
pub struct CaseExpectation {
    pub proposal: BindingProposal,
    pub local_qualification: LocalQualification,
    pub disposition: Disposition,
}

/// Whether the deterministic guard overrode the model: the evidence was left
/// ambiguous while a binding or the effective qualification differs from the
/// expectation.
pub open spec fn guard_override(expected: CaseExpectation, observed: BindingProposal, effective: LocalQualification, materialized: Disposition) -> bool {
    materialized == Disposition::Ambiguous && (observed.target_binding != expected.proposal.target_binding
        || observed.relation_binding != expected.proposal.relation_binding || effective != expected.local_qualification)
}

/// The observation of a case whose stages all succeeded.
pub fn success_observation(
    expected: CaseExpectation,
    lexical_baseline: Disposition,
    observed: BindingProposal,
    observed_local_qualification: LocalQualification,
    effective_local_qualification: LocalQualification,
    materialized: Disposition,
    latency_ms: u128,
    tally: CallTally,
) -> (r: Observation)
    ensures
        !r.failed,
        r.proposal_match == Some(observed == expected.proposal),
        r.local_qualification_invoked,
        r.local_qualification_match == Some(observed_local_qualification == expected.local_qualification),
        r.expected_local_qualification == expected.local_qualification,
        r.observed_local_qualification == Some(observed_local_qualification),
        r.effective_local_qualification == Some(effective_local_qualification),
        r.effective_local_qualification_match == Some(effective_local_qualification == expected.local_qualification),
        r.effective_local_qualification_derived,
        r.expected_disposition == expected.disposition,
        r.materialized_disposition == Some(materialized),
        r.disposition_match == Some(materialized == expected.disposition),
        r.lexical_baseline == lexical_baseline,
        r.lexical_baseline_match == (lexical_baseline == expected.disposition),
        r.deterministic_guard_override == guard_override(expected, observed, effective_local_qualification, materialized),
        r.model_calls == tally.model_calls,
        r.provider_attempts == tally.provider_attempts,
        r.provider_attempts_complete,
        r.execution == (ExecutionSummary {
            provider_attempts_started: 0,
            provider_attempts_completed: 0,
            active_ms: 0,
            wait_ms: 0,
            pacing_wait_ms: 0,
            retry_wait_ms: 0,
        }),
        r.latency_ms == latency_ms,
        r.usage == tally.usage,
        r.failure_class is None,
{
    let guard = materialized == Disposition::Ambiguous && (observed.target_binding != expected.proposal.target_binding
        || observed.relation_binding != expected.proposal.relation_binding
        || effective_local_qualification != expected.local_qualification);
    Observation {
        failed: false,
        proposal_match: Some(observed == expected.proposal),
        local_qualification_invoked: true,
        local_qualification_match: Some(observed_local_qualification == expected.local_qualification),
        expected_local_qualification: expected.local_qualification,
        observed_local_qualification: Some(observed_local_qualification),
        effective_local_qualification: Some(effective_local_qualification),
        effective_local_qualification_match: Some(effective_local_qualification == expected.local_qualification),
        effective_local_qualification_derived: true,
        expected_disposition: expected.disposition,
        materialized_disposition: Some(materialized),
        disposition_match: Some(materialized == expected.disposition),
        lexical_baseline,
        lexical_baseline_match: lexical_baseline == expected.disposition,
        deterministic_guard_override: guard,
        model_calls: tally.model_calls,
        provider_attempts: tally.provider_attempts,
        provider_attempts_complete: true,
        execution: ExecutionSummary {
            provider_attempts_started: 0,
            provider_attempts_completed: 0,
            active_ms: 0,
            wait_ms: 0,
            pacing_wait_ms: 0,
            retry_wait_ms: 0,
        },
        latency_ms,
        usage: tally.usage,
        failure_class: None,
    }
}

/// The observation of a case whose stages failed: nothing observed, the
/// local qualification counted as invoked when the failure says it failed.
pub fn failure_observation(
    expected: CaseExpectation,
    lexical_baseline: Disposition,
    latency_ms: u128,
    failure: CallFailure,
) -> (r: Observation)
    ensures
        r.failed,
        r.proposal_match is None,
        r.local_qualification_invoked == text::has_prefix(failure.message@, "local qualification failed:"@),
        r.local_qualification_match is None,
        r.expected_local_qualification == expected.local_qualification,
        r.observed_local_qualification is None,
        r.effective_local_qualification is None,
        r.effective_local_qualification_match is None,
        !r.effective_local_qualification_derived,
        r.expected_disposition == expected.disposition,
        r.materialized_disposition is None,
        r.disposition_match is None,
        r.lexical_baseline == lexical_baseline,
        r.lexical_baseline_match == (lexical_baseline == expected.disposition),
        !r.deterministic_guard_override,
        r.model_calls == failure.model_calls,
        r.provider_attempts == failure.provider_attempts,
        r.provider_attempts_complete == failure.provider_attempts_complete,
        r.execution == (ExecutionSummary {
            provider_attempts_started: 0,
            provider_attempts_completed: 0,
            active_ms: 0,
            wait_ms: 0,
            pacing_wait_ms: 0,
            retry_wait_ms: 0,
        }),
        r.latency_ms == latency_ms,
        r.usage == failure.usage,
        r.failure_class == Some(failure.class),
{
    let invoked = starts_with(failure.message.as_str(), "local qualification failed:");
    Observation {
        failed: true,
        proposal_match: None,
        local_qualification_invoked: invoked,
        local_qualification_match: None,
        expected_local_qualification: expected.local_qualification,
        observed_local_qualification: None,
        effective_local_qualification: None,
        effective_local_qualification_match: None,
        effective_local_qualification_derived: false,
        expected_disposition: expected.disposition,
        materialized_disposition: None,
        disposition_match: None,
        lexical_baseline,
        lexical_baseline_match: lexical_baseline == expected.disposition,
        deterministic_guard_override: false,
        model_calls: failure.model_calls,
        provider_attempts: failure.provider_attempts,
        provider_attempts_complete: failure.provider_attempts_complete,
        execution: ExecutionSummary {
            provider_attempts_started: 0,
            provider_attempts_completed: 0,
            active_ms: 0,
            wait_ms: 0,
            pacing_wait_ms: 0,
            retry_wait_ms: 0,
        },
        latency_ms,
        usage: failure.usage,
        failure_class: Some(failure.class),
    }
}

} // verus!
