use reasoning_harness_cli::acceptance::{unix_seconds, unix_seconds_from_clock};
use reasoning_harness_cli::acceptance::{
    aggregate, case_report, cases, find_case, sum_optional, AcquisitionKind, CaseRun,
    ExpectedOutcome, ResolutionUsage, TerminalStatus, Verdict, REPORT_SCHEMA,
};

#[test]
fn declared_acceptance_set_covers_required_failure_shapes() {
    let specs = cases();
    assert!(specs
        .iter()
        .any(|case| matches!(case.acquisition, AcquisitionKind::FreshFact)));
    assert!(specs.iter().any(
        |case| matches!(case.acquisition, AcquisitionKind::Opaque) && case.trusted_verifier
    ));
    assert!(specs
        .iter()
        .any(|case| matches!(case.acquisition, AcquisitionKind::Stale)));
    assert!(specs
        .iter()
        .any(|case| matches!(case.acquisition, AcquisitionKind::WrongScope)));
    assert!(specs
        .iter()
        .any(|case| matches!(case.acquisition, AcquisitionKind::Irrelevant)));
    assert!(specs
        .iter()
        .any(|case| matches!(case.acquisition, AcquisitionKind::OperationalFailure)));
    assert!(specs
        .iter()
        .any(|case| matches!(case.acquisition, AcquisitionKind::BudgetExhaustion)));
}

#[test]
fn report_contract_is_not_a_frozen_research_identity() {
    assert_eq!(REPORT_SCHEMA, "reason-external-resolution-acceptance-v1");
    assert!(!REPORT_SCHEMA.contains("stage-c"));
    assert!(!REPORT_SCHEMA.contains("rsd"));
}

#[test]
fn cases_are_found_by_id() {
    let case = find_case("opaque_data_then_trusted_verifier").unwrap();
    assert!(case.trusted_verifier);
    assert_eq!(case.target_key, "policy.signature_valid");
    assert!(find_case("unknown").is_none());
    assert_eq!(find_case("external_budget_exhaustion").unwrap().expected, ExpectedOutcome::Unknown);
}

#[test]
fn optional_costs_add_with_unknowns_as_zero() {
    assert_eq!(sum_optional(None, None), None);
    assert_eq!(sum_optional(Some(3), None), Some(3));
    assert_eq!(sum_optional(None, Some(4)), Some(4));
    assert_eq!(sum_optional(Some(3), Some(4)), Some(7));
    assert_eq!(sum_optional(Some(u64::MAX), Some(4)), Some(u64::MAX));
}

fn usage(calls: u64, cost: Option<u64>) -> ResolutionUsage {
    ResolutionUsage { calls, elapsed_ms: 10, added_tokens: 5, cost_microusd: cost }
}

fn run(final_verdict: Verdict, grounded: bool, authorized: bool, terminal: TerminalStatus) -> CaseRun {
    CaseRun {
        acquisition_initial_verdict: Verdict::Unknown,
        acquisition_terminal: terminal,
        acquisition_success: true,
        acquisition_usage: usage(1, Some(2)),
        verifier_terminal: None,
        verification_success: false,
        verifier_usage: usage(0, None),
        final_initial_verdict: Verdict::Unknown,
        final_verdict,
        grounded_target: grounded,
        unsupported_grounded_claims: 0,
        authorized_target: authorized,
    }
}

#[test]
fn case_judgement_checks_verdict_and_authority() {
    let all = cases();
    let fresh = all[0];
    let ok = case_report(fresh, run(Verdict::Accept, true, true, TerminalStatus::Settled)).unwrap();
    assert_eq!(ok.false_abstention, 0);
    assert_eq!(ok.calls, 1);
    assert_eq!(ok.cost_microusd, Some(2));
    assert_eq!(
        case_report(fresh, run(Verdict::Unknown, false, false, TerminalStatus::Settled)).unwrap_err(),
        "fresh_external_fact_recovery final verdict Unknown, expected Accept"
    );
    assert_eq!(
        case_report(fresh, run(Verdict::Accept, true, false, TerminalStatus::Settled)).unwrap_err(),
        "fresh_external_fact_recovery accepted without target authority"
    );
    let mut started = run(Verdict::Accept, true, true, TerminalStatus::Settled);
    started.acquisition_initial_verdict = Verdict::Accept;
    started.final_initial_verdict = Verdict::Reject;
    assert_eq!(case_report(fresh, started).unwrap_err(), "fresh_external_fact_recovery did not begin unsupported");
    let failing = all[6];
    let typed = case_report(failing, run(Verdict::Unknown, false, false, TerminalStatus::OperationalFailure)).unwrap();
    assert!(typed.typed_operational_failure);
    assert_eq!(typed.missed_target_insufficiency, 0);
}

#[test]
fn acceptance_gate_needs_a_recovery_and_every_abstention() {
    let all = cases();
    let fresh = case_report(all[0], run(Verdict::Accept, true, true, TerminalStatus::Settled)).unwrap();
    let stale = case_report(all[2], run(Verdict::Unknown, false, false, TerminalStatus::Settled)).unwrap();
    let passed = aggregate(&[fresh, stale]);
    assert!(passed.acceptance_passed);
    assert_eq!(passed.verified_recoveries, 1);
    assert_eq!(passed.correct_abstentions, 1);
    assert_eq!(passed.cost_microusd, Some(4));
    let leaked = case_report(all[2], run(Verdict::Unknown, true, false, TerminalStatus::Settled)).unwrap();
    assert_eq!(leaked.missed_target_insufficiency, 1);
    assert!(!aggregate(&[fresh, leaked]).acceptance_passed);
    assert!(!aggregate(&[stale]).acceptance_passed);
}

#[test]
fn clock_readings_become_unix_seconds_or_their_failure() {
    assert_eq!(unix_seconds_from_clock(Ok(1_700_000_000)), Ok(1_700_000_000));
    assert_eq!(unix_seconds_from_clock(Ok(u64::MAX)), Err("current time exceeds i64".to_string()));
    assert_eq!(unix_seconds_from_clock(Err("clock before epoch".into())), Err("clock before epoch".to_string()));
    assert!(unix_seconds().unwrap() > 1_600_000_000);
}
