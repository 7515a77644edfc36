use clap::{Arg, ArgAction, Command};
use reasoning_harness_cli::evidence_relevance::{
    DEFAULT_MAX_CONSECUTIVE_CAPACITY_FAILURES, DEFAULT_MAX_CONSECUTIVE_OPERATIONAL_FAILURES,
};
use reasoning_harness_cli::failures::{
    is_capacity_failure_class, is_operational_provider_failure_class, next_capacity_failure_streak,
    next_operational_failure_streak, redact_provider_message_tokens,
    sanitize_provider_failure_message, should_abort_after_operational_failure, ModelErrorKind,
};

#[test]
fn operational_failure_streak_counts_provider_failures_and_resets_on_response_failure() {
    assert_eq!(
        next_operational_failure_streak(0, Some("assessment_timeout")),
        1
    );
    assert_eq!(
        next_operational_failure_streak(1, Some("provider_unavailable")),
        2
    );
    assert_eq!(next_operational_failure_streak(1, Some("protocol")), 2);
    assert_eq!(next_operational_failure_streak(2, None), 0);
    assert!(is_operational_provider_failure_class("rate_limit"));
    assert!(is_operational_provider_failure_class("quota"));
    assert!(!is_operational_provider_failure_class("materialization"));
}

#[test]
fn full_diagnostic_mode_never_opens_operational_circuit() {
    assert!(!should_abort_after_operational_failure(true, 2, 2, true));
    assert!(!should_abort_after_operational_failure(true, 99, 2, true));
    assert!(should_abort_after_operational_failure(false, 2, 2, true));
    assert!(!should_abort_after_operational_failure(false, 1, 2, true));
    assert!(!should_abort_after_operational_failure(false, 2, 2, false));
}

#[test]
fn capacity_failure_streak_is_separate_from_protocol_and_quota() {
    assert_eq!(next_capacity_failure_streak(0, Some("rate_limit")), 1);
    assert_eq!(
        next_capacity_failure_streak(1, Some("provider_unavailable")),
        2
    );
    assert_eq!(next_capacity_failure_streak(2, Some("quota")), 0);
    assert_eq!(next_capacity_failure_streak(2, Some("protocol")), 0);
    assert!(is_capacity_failure_class("assessment_timeout"));
    assert!(is_capacity_failure_class("case_absolute_timeout"));
    assert!(!is_capacity_failure_class("quota"));
}

#[test]
fn persisted_provider_failures_redact_quota_identity_and_urls() {
    let raw = "Rate limit reached in organization org_01secret on tokens per day (TPD). Upgrade at https://console.example/settings/billing";
    let quota = sanitize_provider_failure_message(ModelErrorKind::Quota, raw);
    assert_eq!(quota, "provider quota failure; scope=daily");
    assert!(!quota.contains("org_01secret"));
    assert!(!quota.contains("https://"));

    let transport = redact_provider_message_tokens(
        "request failed at https://api.example for org_01secret",
    );
    assert!(!transport.contains("https://api.example"));
    assert!(!transport.contains("org_01secret"));
    assert!(transport.contains("<redacted>"));
}

#[test]
fn streaks_saturate_at_the_largest_count() {
    assert_eq!(next_operational_failure_streak(usize::MAX, Some("timeout")), usize::MAX);
    assert_eq!(next_capacity_failure_streak(usize::MAX, Some("transport")), usize::MAX);
    assert_eq!(next_capacity_failure_streak(7, None), 0);
    assert_eq!(next_operational_failure_streak(3, Some("provider_arm_latched")), 4);
}

#[test]
fn redaction_rejoins_tokens_with_single_spaces() {
    assert_eq!(
        redact_provider_message_tokens("  upstream\tHTTPS://x.example  failed\n"),
        "upstream <redacted> failed"
    );
    assert_eq!(redact_provider_message_tokens("Project_ID=7 ok"), "<redacted> ok");
    assert_eq!(redact_provider_message_tokens(""), "");
    assert_eq!(
        sanitize_provider_failure_message(ModelErrorKind::Quota, "monthly cap"),
        "provider quota failure; scope=unspecified"
    );
    assert_eq!(
        sanitize_provider_failure_message(ModelErrorKind::RateLimit, "org_1"),
        "provider rate-limit failure"
    );
    assert_eq!(
        sanitize_provider_failure_message(ModelErrorKind::Credentials, "bad key"),
        "provider credential failure"
    );
    assert_eq!(
        sanitize_provider_failure_message(ModelErrorKind::Timeout, "at http://h account_id:9"),
        "at <redacted> <redacted>"
    );
}

use reasoning_harness_cli::evidence_relevance::{
    normalized_tokens, percentile_latency, CaseExecutionBudget, ExecutionSummary, Provider,
    UsageSummary, GROQ_STRICT_JSON_TEXT_MAX_TOKENS,
};

#[test]
fn latency_percentiles_use_nearest_rank() {
    let values = [10, 20, 30, 40, 50, 60, 70, 80, 90, 100];
    assert_eq!(percentile_latency(&values, 50), Some(50));
    assert_eq!(percentile_latency(&values, 95), Some(100));
    assert_eq!(percentile_latency(&[42], 95), Some(42));
    assert_eq!(percentile_latency(&[], 95), None);
}

#[test]
fn percentiles_sort_and_clamp() {
    let values = [90, 10, 50, 70, 30];
    assert_eq!(percentile_latency(&values, 0), Some(10));
    assert_eq!(percentile_latency(&values, 1), Some(10));
    assert_eq!(percentile_latency(&values, 40), Some(30));
    assert_eq!(percentile_latency(&values, 41), Some(50));
    assert_eq!(percentile_latency(&values, 1000), Some(90));
}

#[test]
fn lexical_tokens_are_lowercase_alphanumeric_runs() {
    assert_eq!(normalized_tokens("Acme-Cloud, Inc."), vec!["acme", "cloud", "inc"]);
    assert_eq!(normalized_tokens("  "), Vec::<String>::new());
    assert_eq!(normalized_tokens("ÉCOLE 42"), vec!["école", "42"]);
}

#[test]
fn budgets_and_usage_totals() {
    let mut budget = CaseExecutionBudget::new(1000);
    assert_eq!(budget.provider_budget().max_single_wait_ms, 30000);
    budget.consume(ExecutionSummary {
        provider_attempts_started: 1,
        provider_attempts_completed: 1,
        active_ms: 1500,
        wait_ms: 20000,
        pacing_wait_ms: 0,
        retry_wait_ms: 0,
    });
    assert_eq!(budget.remaining_active_ms, 0);
    assert_eq!(budget.remaining_wait_ms, 25000);
    assert_eq!(budget.provider_budget().max_single_wait_ms, 25000);
    let mut total = UsageSummary { input_tokens: u64::MAX - 1, output_tokens: 1, total_tokens: 2 };
    total.add_summary(&UsageSummary { input_tokens: 5, output_tokens: 2, total_tokens: 3 });
    assert_eq!(total.input_tokens, u64::MAX);
    assert_eq!(total.output_tokens, 3);
    assert_eq!(Provider::Groq.name(), "groq");
    assert_eq!(GROQ_STRICT_JSON_TEXT_MAX_TOKENS, 512);
}

fn study_command() -> clap::Command {
    Command::new("reason-evidence-relevance-study")
        .arg(Arg::new("target").required(true))
        .arg(Arg::new("provider").long("provider").required(true))
        .arg(Arg::new("model").long("model").required(true))
        .arg(
            Arg::new("max-consecutive-operational-failures")
                .long("max-consecutive-operational-failures"),
        )
        .arg(
            Arg::new("max-consecutive-capacity-failures")
                .long("max-consecutive-capacity-failures"),
        )
        .arg(
            Arg::new("continue-after-operational-failures")
                .long("continue-after-operational-failures")
                .action(ArgAction::SetTrue),
        )
}

#[test]
fn full_diagnostic_mode_can_disable_operational_circuit_break() {
    let args = study_command()
        .try_get_matches_from([
            "reason-evidence-relevance-study",
            "fixtures/evidence-relevance-calibration-v19",
            "--provider",
            "groq",
            "--model",
            "openai/gpt-oss-120b",
            "--continue-after-operational-failures",
        ])
        .expect("parse args");
    let continue_after = args.get_flag("continue-after-operational-failures");
    let max_operational: usize = args
        .get_one::<String>("max-consecutive-operational-failures")
        .map_or(DEFAULT_MAX_CONSECUTIVE_OPERATIONAL_FAILURES, |v| v.parse().unwrap());
    let max_capacity: usize = args
        .get_one::<String>("max-consecutive-capacity-failures")
        .map_or(DEFAULT_MAX_CONSECUTIVE_CAPACITY_FAILURES, |v| v.parse().unwrap());
    assert!(continue_after);
    assert_eq!(max_operational, 2);
    assert_eq!(max_capacity, 2);
    assert!(!should_abort_after_operational_failure(continue_after, 5, max_operational, true));
}

#[test]
fn redacting_a_redacted_message_changes_nothing() {
    for message in [
        "quota exceeded for organization_id org_123 see https://example.test/x",
        "  plain   words\tonly\n",
        "Account_ID=7 HTTP://Upper.case",
        "",
    ] {
        let once = redact_provider_message_tokens(message);
        assert_eq!(redact_provider_message_tokens(&once), once);
    }
    assert_eq!(
        redact_provider_message_tokens("quota exceeded for organization_id org_123 see https://example.test/x"),
        "quota exceeded for <redacted> <redacted> see <redacted>"
    );
}
