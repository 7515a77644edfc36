//! How the study tools classify model-provider failures: the class names written
//! into reports, finish-reason recognition, consecutive-failure circuit breaking
//! and the redaction applied before a provider message is persisted.
use vstd::prelude::*;
use crate::text;
use crate::text::{
    chars_eq, chars_eq_str, chars_of, contains_str, join_chars, split_whitespace, str_eq,
    to_ascii_lowercase, trim_str,
};

verus! {

/// The kind of a failed model call, as the provider adapters report it.
#[derive(Debug, Clone, Copy, PartialEq, Eq, Structural)]
pub enum ModelErrorKind {
    Credentials,
    Transport,
    Provider,
    RateLimit,
    Quota,
    ProviderUnavailable,
    Timeout,
    Protocol,
    UnsupportedCapability,
}

/// The report class of a model error kind, with `provider` for provider errors.
pub open spec fn model_error_class_spec(kind: ModelErrorKind) -> Seq<char> {
    match kind {
        ModelErrorKind::Credentials => "credentials"@,
        ModelErrorKind::Transport => "transport"@,
        ModelErrorKind::Provider => "provider"@,
        ModelErrorKind::RateLimit => "rate_limit"@,
        ModelErrorKind::Quota => "quota"@,
        ModelErrorKind::ProviderUnavailable => "provider_unavailable"@,
        ModelErrorKind::Timeout => "timeout"@,
        ModelErrorKind::Protocol => "protocol"@,
        ModelErrorKind::UnsupportedCapability => "unsupported_capability"@,
    }
}

/// The failure class recorded for a model error in the relevance study.
pub fn model_error_class(kind: ModelErrorKind) -> (r: &'static str)
    ensures
        r@ == model_error_class_spec(kind),
{
    match kind {
        ModelErrorKind::Credentials => "credentials",
        ModelErrorKind::Transport => "transport",
        ModelErrorKind::Provider => "provider",
        ModelErrorKind::RateLimit => "rate_limit",
        ModelErrorKind::Quota => "quota",
        ModelErrorKind::ProviderUnavailable => "provider_unavailable",
        ModelErrorKind::Timeout => "timeout",
        ModelErrorKind::Protocol => "protocol",
        ModelErrorKind::UnsupportedCapability => "unsupported_capability",
    }
}

/// The study-report class of an optional model error kind: provider errors are
/// `provider_error`, protocol errors `provider_protocol`, and the absence of a
/// model error is the caller's protocol default.
pub open spec fn study_failure_class_spec(kind: Option<ModelErrorKind>, protocol_default: Seq<char>) -> Seq<char> {
    match kind {
        Some(ModelErrorKind::Credentials) => "credentials"@,
        Some(ModelErrorKind::Transport) => "transport"@,
        Some(ModelErrorKind::Provider) => "provider_error"@,
        Some(ModelErrorKind::RateLimit) => "rate_limit"@,
        Some(ModelErrorKind::Quota) => "quota"@,
        Some(ModelErrorKind::ProviderUnavailable) => "provider_unavailable"@,
        Some(ModelErrorKind::Timeout) => "timeout"@,
        Some(ModelErrorKind::Protocol) => "provider_protocol"@,
        Some(ModelErrorKind::UnsupportedCapability) => "unsupported_capability"@,
        None => protocol_default,
    }
}

/// The class a study report gives a failure with an optional model error kind.
pub fn model_failure_class(kind: Option<ModelErrorKind>, protocol_default: &'static str) -> (r: &'static str)
    ensures
        r@ == study_failure_class_spec(kind, protocol_default@),
{
    match kind {
        Some(ModelErrorKind::Credentials) => "credentials",
        Some(ModelErrorKind::Transport) => "transport",
        Some(ModelErrorKind::Provider) => "provider_error",
        Some(ModelErrorKind::RateLimit) => "rate_limit",
        Some(ModelErrorKind::Quota) => "quota",
        Some(ModelErrorKind::ProviderUnavailable) => "provider_unavailable",
        Some(ModelErrorKind::Timeout) => "timeout",
        Some(ModelErrorKind::Protocol) => "provider_protocol",
        Some(ModelErrorKind::UnsupportedCapability) => "unsupported_capability",
        None => protocol_default,
    }
}

/// A finish reason that reports a cut-off generation: `length`, `max_tokens` or
/// `max_output_tokens`, ignoring surrounding whitespace and ASCII case.
pub open spec fn truncation_finish_reason(reason: Seq<char>) -> bool {
    let t = text::ascii_lowercase(text::trim(reason));
    t == "length"@ || t == "max_tokens"@ || t == "max_output_tokens"@
}

/// A finish reason of `error`, ignoring surrounding whitespace and ASCII case.
pub open spec fn generation_error_finish_reason(reason: Seq<char>) -> bool {
    text::ascii_lowercase(text::trim(reason)) == text::ascii_lowercase("error"@)
}

/// Whether a finish reason reports truncation.
pub fn is_truncation_finish_reason(reason: &str) -> (r: bool)
    ensures
        r == truncation_finish_reason(reason@),
{
    let t = to_ascii_lowercase(&trim_str(reason));
    chars_eq_str(&t, "length") || chars_eq_str(&t, "max_tokens") || chars_eq_str(&t, "max_output_tokens")
}

/// Whether a finish reason reports a provider-side generation error.
pub fn is_provider_generation_error_finish_reason(reason: &str) -> (r: bool)
    ensures
        r == generation_error_finish_reason(reason@),
{
    let t = to_ascii_lowercase(&trim_str(reason));
    let e = to_ascii_lowercase(&chars_of("error"));
    chars_eq(&t, &e)
}

/// What a failed study call exposes to its classification: whether it failed in
/// setup, the provider's finish reason, and the model error kind.
#[derive(Debug, PartialEq, Eq)]
pub struct JudgeFailure {
    pub setup: bool,
    pub finish_reason: Option<String>,
    pub model_error_kind: Option<ModelErrorKind>,
}

/// The class of a study failure: setup first, then truncation and generation
/// error finish reasons, then the model error kind with the given protocol default.
pub open spec fn judge_failure_class_spec(error: JudgeFailure, protocol_default: Seq<char>) -> Seq<char> {
    if error.setup {
        "study_setup"@
    } else if error.finish_reason is Some && truncation_finish_reason(error.finish_reason->0@) {
        "truncation_protocol"@
    } else if error.finish_reason is Some && generation_error_finish_reason(error.finish_reason->0@) {
        "provider_generation_error"@
    } else {
        study_failure_class_spec(error.model_error_kind, protocol_default)
    }
}

/// Classifies a failed materialization or representation call; the protocol
/// default is `materialization_protocol` or `representation_protocol`.
pub fn failure_class(error: &JudgeFailure, protocol_default: &'static str) -> (r: &'static str)
    ensures
        r@ == judge_failure_class_spec(*error, protocol_default@),
{
    if error.setup {
        return "study_setup";
    }
    if let Some(reason) = &error.finish_reason {
        if is_truncation_finish_reason(reason.as_str()) {
            return "truncation_protocol";
        }
        if is_provider_generation_error_finish_reason(reason.as_str()) {
            return "provider_generation_error";
        }
    }
    model_failure_class(error.model_error_kind, protocol_default)
}

// ---------------------------------------------------------------------------
// Consecutive-failure circuit breaking.
// ---------------------------------------------------------------------------

/// Failure classes that signal provider capacity trouble.
pub open spec fn capacity_class(class: Seq<char>) -> bool {
    class == "assessment_timeout"@ || class == "case_absolute_timeout"@
        || class == "provider_unavailable"@ || class == "rate_limit"@ || class == "timeout"@
        || class == "transport"@
}

/// Failure classes that count as operational provider failures.
pub open spec fn operational_class(class: Seq<char>) -> bool {
    class == "assessment_timeout"@ || class == "case_absolute_timeout"@
        || class == "provider_arm_latched"@ || class == "credentials"@ || class == "provider"@
        || class == "provider_unavailable"@ || class == "protocol"@ || class == "quota"@
        || class == "rate_limit"@ || class == "timeout"@ || class == "transport"@
}

/// `current + 1`, held at the largest `usize`.
pub open spec fn saturating_succ(current: usize) -> usize {
    if current == usize::MAX {
        current
    } else {
        (current + 1) as usize
    }
}

/// Whether a failure class signals provider capacity trouble.
pub fn is_capacity_failure_class(class: &str) -> (r: bool)
    ensures
        r == capacity_class(class@),
{
    str_eq(class, "assessment_timeout") || str_eq(class, "case_absolute_timeout")
        || str_eq(class, "provider_unavailable") || str_eq(class, "rate_limit")
        || str_eq(class, "timeout") || str_eq(class, "transport")
}

/// Whether a failure class is an operational provider failure.
pub fn is_operational_provider_failure_class(class: &str) -> (r: bool)
    ensures
        r == operational_class(class@),
{
    str_eq(class, "assessment_timeout") || str_eq(class, "case_absolute_timeout")
        || str_eq(class, "provider_arm_latched") || str_eq(class, "credentials")
        || str_eq(class, "provider") || str_eq(class, "provider_unavailable")
        || str_eq(class, "protocol") || str_eq(class, "quota") || str_eq(class, "rate_limit")
        || str_eq(class, "timeout") || str_eq(class, "transport")
}

/// The capacity-failure streak after a case: one more after a capacity
/// failure, back to zero after anything else.
pub fn next_capacity_failure_streak(current: usize, failure_class: Option<&str>) -> (r: usize)
    ensures
        r == (if failure_class is Some && capacity_class(failure_class->0@) {
            saturating_succ(current)
        } else {
            0
        }),
{
    let counts = match failure_class {
        Some(class) => is_capacity_failure_class(class),
        None => false,
    };
    if counts {
        current.saturating_add(1)
    } else {
        0
    }
}

/// The operational-failure streak after a case: one more after an operational
/// provider failure, back to zero after anything else.
pub fn next_operational_failure_streak(current: usize, failure_class: Option<&str>) -> (r: usize)
    ensures
        r == (if failure_class is Some && operational_class(failure_class->0@) {
            saturating_succ(current)
        } else {
            0
        }),
{
    let counts = match failure_class {
        Some(class) => is_operational_provider_failure_class(class),
        None => false,
    };
    if counts {
        current.saturating_add(1)
    } else {
        0
    }
}

/// Whether the study stops after an operational failure: never in full
/// diagnostic mode or on the last case, otherwise once the streak reaches the limit.
pub fn should_abort_after_operational_failure(
    continue_after_operational_failures: bool,
    consecutive_operational_failures: usize,
    max_consecutive_operational_failures: usize,
    has_remaining_cases: bool,
) -> (r: bool)
    ensures
        r == (!continue_after_operational_failures && has_remaining_cases
            && consecutive_operational_failures >= max_consecutive_operational_failures),
{
    !continue_after_operational_failures && has_remaining_cases
        && consecutive_operational_failures >= max_consecutive_operational_failures
}

/// Every capacity failure class is also an operational provider failure
/// class, so a capacity failure never resets the operational streak.
pub proof fn capacity_failure_is_operational(class: Seq<char>)
    requires
        capacity_class(class),
    ensures
        operational_class(class),
{
}

/// A failure counted by a streak raises it by exactly one below the `usize`
/// limit; any other outcome resets both streaks to zero.
pub proof fn streaks_step_or_reset(current: usize, class: Option<Seq<char>>)
    ensures
        class is Some && capacity_class(class->0) ==> operational_class(class->0),
        current < usize::MAX ==> saturating_succ(current) == current + 1,
        saturating_succ(current) >= current,
{
}

// ---------------------------------------------------------------------------
// Provider message redaction.
// ---------------------------------------------------------------------------

/// A token that may carry an endpoint or an account identity.
pub open spec fn sensitive_token(token: Seq<char>) -> bool {
    let lower = text::ascii_lowercase(token);
    text::contains_seq(lower, "http://"@) || text::contains_seq(lower, "https://"@) || text::contains_seq(lower, "org_"@)
        || text::contains_seq(lower, "organization_id"@) || text::contains_seq(lower, "project_id"@)
        || text::contains_seq(lower, "account_id"@)
}

/// A token as persisted: `<redacted>` in place of a sensitive token.
pub open spec fn redact_token(token: Seq<char>) -> Seq<char> {
    if sensitive_token(token) {
        "<redacted>"@
    } else {
        token
    }
}

/// A provider message as persisted: its whitespace-separated tokens, each
/// redacted, joined by single spaces.
pub open spec fn redacted_message(message: Seq<char>) -> Seq<char> {
    text::join(text::words(message).map_values(|w: Seq<char>| redact_token(w)), " "@)
}

/// A text without the character `c` holds no pattern that has `c`.
proof fn lemma_absent_char_blocks(hay: Seq<char>, needle: Seq<char>, j: int)
    requires
        0 <= j < needle.len(),
        !hay.contains(needle[j]),
    ensures
        !text::contains_seq(hay, needle),
{
    if text::contains_seq(hay, needle) {
        let i = choose|i: int| #[trigger] text::occurs_at(hay, needle, i);
        assert(hay.subrange(i, i + needle.len())[j] == hay[i + j]);
    }
}

/// The replacement token is itself no sensitive token.
proof fn lemma_replacement_not_sensitive()
    ensures
        !sensitive_token("<redacted>"@),
        text::is_word("<redacted>"@),
{
    reveal_strlit("<redacted>");
    reveal_strlit("http://");
    reveal_strlit("https://");
    reveal_strlit("org_");
    reveal_strlit("organization_id");
    reveal_strlit("project_id");
    reveal_strlit("account_id");
    let r = "<redacted>"@;
    let lower = text::ascii_lowercase(r);
    assert(lower =~= r);
    assert(!r.contains(':')) by {
        if r.contains(':') {
            let i = choose|i: int| 0 <= i < r.len() && r[i] == ':';
        }
    }
    assert(!r.contains('_')) by {
        if r.contains('_') {
            let i = choose|i: int| 0 <= i < r.len() && r[i] == '_';
        }
    }
    lemma_absent_char_blocks(lower, "http://"@, 4);
    lemma_absent_char_blocks(lower, "https://"@, 5);
    lemma_absent_char_blocks(lower, "org_"@, 3);
    lemma_absent_char_blocks(lower, "organization_id"@, 12);
    lemma_absent_char_blocks(lower, "project_id"@, 7);
    lemma_absent_char_blocks(lower, "account_id"@, 7);
}

/// Redacting an already redacted provider message changes nothing: the
/// persisted message is a fixed point of redaction.
pub proof fn redaction_is_idempotent(message: Seq<char>)
    ensures
        redacted_message(redacted_message(message)) == redacted_message(message),
{
    let ws = text::words(message);
    let rs = ws.map_values(|w: Seq<char>| redact_token(w));
    text::lemma_words_are_words(message);
    lemma_replacement_not_sensitive();
    assert forall|k: int| 0 <= k < rs.len() implies text::is_word(#[trigger] rs[k]) by {
        assert(text::is_word(ws[k]));
    }
    reveal_strlit(" ");
    assert(" "@ =~= seq![' ']);
    text::lemma_words_of_join(rs);
    assert(text::words(redacted_message(message)) == rs);
    assert(rs.map_values(|w: Seq<char>| redact_token(w)) =~= rs);
}

/// Redaction keeps the message's tokens in place and replaces exactly the
/// tokens whose ASCII lowercase contains, at any position, `http://`,
/// `https://`, `org_`, `organization_id`, `project_id` or `account_id`; every
/// other token is kept as it was.
pub proof fn redaction_replaces_exactly_the_marked_tokens(message: Seq<char>, k: int)
    requires
        0 <= k < text::words(message).len(),
    ensures
        text::words(redacted_message(message)).len() == text::words(message).len(),
        text::contains_seq(text::ascii_lowercase(text::words(message)[k]), "http://"@) || text::contains_seq(
            text::ascii_lowercase(text::words(message)[k]),
            "https://"@,
        ) || text::contains_seq(text::ascii_lowercase(text::words(message)[k]), "org_"@) || text::contains_seq(
            text::ascii_lowercase(text::words(message)[k]),
            "organization_id"@,
        ) || text::contains_seq(text::ascii_lowercase(text::words(message)[k]), "project_id"@)
            || text::contains_seq(text::ascii_lowercase(text::words(message)[k]), "account_id"@)
            ==> text::words(redacted_message(message))[k] == "<redacted>"@,
        !(text::contains_seq(text::ascii_lowercase(text::words(message)[k]), "http://"@) || text::contains_seq(
            text::ascii_lowercase(text::words(message)[k]),
            "https://"@,
        ) || text::contains_seq(text::ascii_lowercase(text::words(message)[k]), "org_"@) || text::contains_seq(
            text::ascii_lowercase(text::words(message)[k]),
            "organization_id"@,
        ) || text::contains_seq(text::ascii_lowercase(text::words(message)[k]), "project_id"@)
            || text::contains_seq(text::ascii_lowercase(text::words(message)[k]), "account_id"@))
            ==> text::words(redacted_message(message))[k] == text::words(message)[k],
{
    let ws = text::words(message);
    let rs = ws.map_values(|w: Seq<char>| redact_token(w));
    text::lemma_words_are_words(message);
    lemma_replacement_not_sensitive();
    assert forall|j: int| 0 <= j < rs.len() implies text::is_word(#[trigger] rs[j]) by {
        assert(text::is_word(ws[j]));
    }
    reveal_strlit(" ");
    assert(" "@ =~= seq![' ']);
    text::lemma_words_of_join(rs);
    assert(text::words(redacted_message(message)) == rs);
    assert(rs[k] == redact_token(ws[k]));
}

/// Whether a token may carry an endpoint or an account identity.
fn is_sensitive_token(token: &Vec<char>) -> (r: bool)
    ensures
        r == sensitive_token(token@),
{
    let lower = to_ascii_lowercase(token);
    contains_str(&lower, "http://") || contains_str(&lower, "https://") || contains_str(&lower, "org_")
        || contains_str(&lower, "organization_id") || contains_str(&lower, "project_id")
        || contains_str(&lower, "account_id")
}

/// Replaces each whitespace-separated token that may carry an endpoint or an
/// account identity with `<redacted>` and rejoins the tokens with single spaces.
pub fn redact_provider_message_tokens(message: &str) -> (r: String)
    ensures
        r@ == redacted_message(message@),
{
    let tokens = split_whitespace(&chars_of(message));
    let ghost ws = text::words(message@);
    let mut out: Vec<Vec<char>> = Vec::new();
    let mut i: usize = 0;
    while i < tokens.len()
        invariant
            i <= tokens.len(),
            tokens@.len() == ws.len(),
            forall|k: int| 0 <= k < tokens@.len() ==> #[trigger] tokens@[k]@ == ws[k],
            out@.len() == i,
            forall|k: int| 0 <= k < i ==> #[trigger] out@[k]@ == redact_token(ws[k]),
        decreases tokens.len() - i,
    {
        if is_sensitive_token(&tokens[i]) {
            out.push(chars_of("<redacted>"));
        } else {
            out.push(tokens[i].clone());
        }
        i = i + 1;
    }
    let joined = join_chars(&out, &chars_of(" "));
    assert(out@.map_values(|p: Vec<char>| p@) =~= ws.map_values(|w: Seq<char>| redact_token(w)));
    crate::text::string_of(&joined)
}

/// The scope named in a quota failure: `daily` when the lowercase message
/// mentions tokens per day.
pub open spec fn quota_scope(message: Seq<char>) -> Seq<char> {
    let lower = text::ascii_lowercase(message);
    if text::contains_seq(lower, "tokens per day"@) || text::contains_seq(lower, "tpd"@)
        || text::contains_seq(lower, "perday"@) || text::contains_seq(lower, "daily"@) {
        "daily"@
    } else {
        "unspecified"@
    }
}

/// The provider failure message persisted for a model error kind.
pub open spec fn sanitized_message(kind: ModelErrorKind, message: Seq<char>) -> Seq<char> {
    match kind {
        ModelErrorKind::Quota => "provider quota failure; scope="@ + quota_scope(message),
        ModelErrorKind::RateLimit => "provider rate-limit failure"@,
        ModelErrorKind::Credentials => "provider credential failure"@,
        _ => redacted_message(message),
    }
}

/// The message persisted for a provider failure: quota, rate-limit and
/// credential failures are replaced by fixed texts, others are token-redacted.
pub fn sanitize_provider_failure_message(kind: ModelErrorKind, message: &str) -> (r: String)
    ensures
        r@ == sanitized_message(kind, message@),
{
    match kind {
        ModelErrorKind::Quota => {
            let lower = to_ascii_lowercase(&chars_of(message));
            let daily = contains_str(&lower, "tokens per day") || contains_str(&lower, "tpd")
                || contains_str(&lower, "perday") || contains_str(&lower, "daily");
            let mut out = String::from_str("provider quota failure; scope=");
            if daily {
                out.append("daily");
            } else {
                out.append("unspecified");
            }
            out
        },
        ModelErrorKind::RateLimit => String::from_str("provider rate-limit failure"),
        ModelErrorKind::Credentials => String::from_str("provider credential failure"),
        _ => redact_provider_message_tokens(message),
    }
}

} // verus!
