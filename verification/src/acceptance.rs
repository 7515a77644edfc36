//! The deterministic external-resolution acceptance suite: its declared cases,
//! how one case's resolution outcome is judged, and the pass condition over all cases.
use vstd::prelude::*;
use crate::counting;

verus! {

/// The identity of the acceptance report's schema.
pub const REPORT_SCHEMA: &'static str = "reason-external-resolution-acceptance-v1";

/// The verdict a case should end with.
#[derive(Debug, Clone, Copy, PartialEq, Eq, Structural)]
pub enum ExpectedOutcome {
    Accept,
    Reject,
    Unknown,
}

/// What the scripted external source hands back for a case.
#[derive(Debug, Clone, Copy, PartialEq, Eq, Structural)]
pub enum AcquisitionKind {
    FreshFact,
    Opaque,
    Stale,
    WrongScope,
    Irrelevant,
    Conflict,
    OperationalFailure,
    BudgetExhaustion,
}

/// One declared acceptance case.
#[derive(Debug, Clone, Copy)]
pub struct CaseSpec {
    pub id: &'static str,
    pub workload_class: &'static str,
    pub target_key: &'static str,
    pub target_value: &'static str,
    pub expected: ExpectedOutcome,
    pub acquisition: AcquisitionKind,
    pub trusted_verifier: bool,
}

/// A case by its contents.
pub open spec fn case_view(c: CaseSpec) -> (Seq<char>, Seq<char>, Seq<char>, Seq<char>, ExpectedOutcome, AcquisitionKind, bool) {
    (c.id@, c.workload_class@, c.target_key@, c.target_value@, c.expected, c.acquisition, c.trusted_verifier)
}

/// The declared cases, in order.
pub open spec fn case_table() -> Seq<(Seq<char>, Seq<char>, Seq<char>, Seq<char>, ExpectedOutcome, AcquisitionKind, bool)> {
    seq![
        ("fresh_external_fact_recovery"@, "fresh_public_style_fact"@, "service.region"@, "eu-west-1"@, ExpectedOutcome::Accept, AcquisitionKind::FreshFact, false),
        ("opaque_data_then_trusted_verifier"@, "acquisition_then_independent_verification"@, "policy.signature_valid"@, "true"@, ExpectedOutcome::Accept, AcquisitionKind::Opaque, true),
        ("stale_external_evidence"@, "freshness_rejection"@, "service.region"@, "eu-west-1"@, ExpectedOutcome::Unknown, AcquisitionKind::Stale, false),
        ("wrong_scope_external_evidence"@, "scope_rejection"@, "service.region"@, "eu-west-1"@, ExpectedOutcome::Unknown, AcquisitionKind::WrongScope, false),
        ("irrelevant_external_data"@, "insufficient_acquisition"@, "service.region"@, "eu-west-1"@, ExpectedOutcome::Unknown, AcquisitionKind::Irrelevant, false),
        ("conflicting_external_evidence"@, "trusted_contradiction"@, "service.region"@, "eu-west-1"@, ExpectedOutcome::Reject, AcquisitionKind::Conflict, false),
        ("external_transport_failure"@, "operational_failure"@, "service.region"@, "eu-west-1"@, ExpectedOutcome::Unknown, AcquisitionKind::OperationalFailure, false),
        ("external_budget_exhaustion"@, "budget_exhaustion"@, "service.region"@, "eu-west-1"@, ExpectedOutcome::Unknown, AcquisitionKind::BudgetExhaustion, false),
    ]
}

/// The declared acceptance cases.
pub fn cases() -> (r: [CaseSpec; 8])
    ensures
        r@.len() == 8,
        forall|i: int| 0 <= i < 8 ==> case_view(#[trigger] r@[i]) == case_table()[i],
{
    let r = [
        CaseSpec {
            id: "fresh_external_fact_recovery",
            workload_class: "fresh_public_style_fact",
            target_key: "service.region",
            target_value: "eu-west-1",
            expected: ExpectedOutcome::Accept,
            acquisition: AcquisitionKind::FreshFact,
            trusted_verifier: false,
        },
        CaseSpec {
            id: "opaque_data_then_trusted_verifier",
            workload_class: "acquisition_then_independent_verification",
            target_key: "policy.signature_valid",
            target_value: "true",
            expected: ExpectedOutcome::Accept,
            acquisition: AcquisitionKind::Opaque,
            trusted_verifier: true,
        },
        CaseSpec {
            id: "stale_external_evidence",
            workload_class: "freshness_rejection",
            target_key: "service.region",
            target_value: "eu-west-1",
            expected: ExpectedOutcome::Unknown,
            acquisition: AcquisitionKind::Stale,
            trusted_verifier: false,
        },
        CaseSpec {
            id: "wrong_scope_external_evidence",
            workload_class: "scope_rejection",
            target_key: "service.region",
            target_value: "eu-west-1",
            expected: ExpectedOutcome::Unknown,
            acquisition: AcquisitionKind::WrongScope,
            trusted_verifier: false,
        },
        CaseSpec {
            id: "irrelevant_external_data",
            workload_class: "insufficient_acquisition",
            target_key: "service.region",
            target_value: "eu-west-1",
            expected: ExpectedOutcome::Unknown,
            acquisition: AcquisitionKind::Irrelevant,
            trusted_verifier: false,
        },
        CaseSpec {
            id: "conflicting_external_evidence",
            workload_class: "trusted_contradiction",
            target_key: "service.region",
            target_value: "eu-west-1",
            expected: ExpectedOutcome::Reject,
            acquisition: AcquisitionKind::Conflict,
            trusted_verifier: false,
        },
        CaseSpec {
            id: "external_transport_failure",
            workload_class: "operational_failure",
            target_key: "service.region",
            target_value: "eu-west-1",
            expected: ExpectedOutcome::Unknown,
            acquisition: AcquisitionKind::OperationalFailure,
            trusted_verifier: false,
        },
        CaseSpec {
            id: "external_budget_exhaustion",
            workload_class: "budget_exhaustion",
            target_key: "service.region",
            target_value: "eu-west-1",
            expected: ExpectedOutcome::Unknown,
            acquisition: AcquisitionKind::BudgetExhaustion,
            trusted_verifier: false,
        },
    ];
    assert(r@.len() == 8);
    r
}

/// Every failure shape the suite promises is declared: fresh data, opaque data
/// behind a trusted verifier, stale, wrong-scope and irrelevant data, and
/// operational failure and budget exhaustion.
pub proof fn declared_cases_cover_failure_shapes()
    ensures
        exists|i: int| 0 <= i < 8 && #[trigger] case_table()[i].5 == AcquisitionKind::FreshFact,
        exists|i: int| 0 <= i < 8 && #[trigger] case_table()[i].5 == AcquisitionKind::Opaque && case_table()[i].6,
        exists|i: int| 0 <= i < 8 && #[trigger] case_table()[i].5 == AcquisitionKind::Stale,
        exists|i: int| 0 <= i < 8 && #[trigger] case_table()[i].5 == AcquisitionKind::WrongScope,
        exists|i: int| 0 <= i < 8 && #[trigger] case_table()[i].5 == AcquisitionKind::Irrelevant,
        exists|i: int| 0 <= i < 8 && #[trigger] case_table()[i].5 == AcquisitionKind::OperationalFailure,
        exists|i: int| 0 <= i < 8 && #[trigger] case_table()[i].5 == AcquisitionKind::BudgetExhaustion,
{
    assert(case_table()[0].5 == AcquisitionKind::FreshFact);
    assert(case_table()[1].5 == AcquisitionKind::Opaque);
    assert(case_table()[2].5 == AcquisitionKind::Stale);
    assert(case_table()[3].5 == AcquisitionKind::WrongScope);
    assert(case_table()[4].5 == AcquisitionKind::Irrelevant);
    assert(case_table()[6].5 == AcquisitionKind::OperationalFailure);
    assert(case_table()[7].5 == AcquisitionKind::BudgetExhaustion);
}

/// The position of the first declared case with the given id.
pub open spec fn first_case_with_id(id: Seq<char>, k: int) -> bool {
    0 <= k < 8 && case_table()[k].0 == id && forall|j: int| 0 <= j < k ==> case_table()[j].0 != id
}

/// The declared case with the given id.
pub fn find_case(id: &str) -> (r: Option<CaseSpec>)
    ensures
        r is None <==> forall|k: int| 0 <= k < 8 ==> case_table()[k].0 != id@,
        r is Some ==> exists|k: int| first_case_with_id(id@, k) && case_view(r->0) == case_table()[k],
{
    let all = cases();
    let mut i: usize = 0;
    while i < 8
        invariant
            i <= 8,
            all@.len() == 8,
            forall|k: int| 0 <= k < 8 ==> case_view(#[trigger] all@[k]) == case_table()[k],
            forall|j: int| 0 <= j < i ==> case_table()[j].0 != id@,
        decreases 8 - i,
    {
        let c = all[i];
        if crate::text::str_eq(c.id, id) {
            proof {
                assert(case_view(all@[i as int]) == case_table()[i as int]);
                assert(first_case_with_id(id@, i as int));
            }
            return Some(c);
        }
        proof {
            assert(case_view(all@[i as int]) == case_table()[i as int]);
        }
        i = i + 1;
    }
    None
}

/// The sum of two optional costs: unknown only when both are unknown, an
/// unknown side counting as zero, held at the largest `u64`.
pub open spec fn sum_optional_spec(left: Option<u64>, right: Option<u64>) -> Option<u64> {
    match (left, right) {
        (None, None) => None,
        _ => {
            let l: int = match left { Some(x) => x as int, None => 0 };
            let r: int = match right { Some(x) => x as int, None => 0 };
            Some(if l + r > u64::MAX { u64::MAX } else { (l + r) as u64 })
        },
    }
}

/// Adds two optional costs.
pub fn sum_optional(left: Option<u64>, right: Option<u64>) -> (r: Option<u64>)
    ensures
        r == sum_optional_spec(left, right),
{
    match (left, right) {
        (None, None) => None,
        (l, r) => {
            let a = match l {
                Some(x) => x,
                None => 0,
            };
            let b = match r {
                Some(x) => x,
                None => 0,
            };
            Some(a.saturating_add(b))
        },
    }
}

/// Costs add the same in either order.
pub proof fn sum_optional_commutes(left: Option<u64>, right: Option<u64>)
    ensures
        sum_optional_spec(left, right) == sum_optional_spec(right, left),
{
}

/// Calls `SystemTime::now().duration_since(UNIX_EPOCH)`. The clock's reading is
/// not stated; only that a failure is reported as its message.
#[verifier::external_body]
pub(crate) fn system_clock_seconds() -> (r: Result<u64, String>)
{
    match std::time::SystemTime::now().duration_since(std::time::UNIX_EPOCH) {
        Ok(elapsed) => Ok(elapsed.as_secs()),
        Err(error) => Err(error.to_string()),
    }
}

/// The current Unix time in seconds, or why it cannot be had: a clock before
/// the epoch, or a time past the largest `i64`.
pub fn unix_seconds() -> (r: Result<i64, String>)
    ensures
        r is Ok ==> r->Ok_0 >= 0,
{
    unix_seconds_from_clock(system_clock_seconds())
}

/// The Unix time in seconds from a reading of the system clock: the clock's
/// failure stays its message, and a time past the largest `i64` is refused.
pub fn unix_seconds_from_clock(clock: Result<u64, String>) -> (r: Result<i64, String>)
    ensures
        match clock {
            Ok(seconds) => if seconds <= i64::MAX {
                r == Ok::<i64, String>(seconds as i64)
            } else {
                r is Err && r->Err_0@ == "current time exceeds i64"@
            },
            Err(error) => r == Err::<i64, String>(error),
        },
{
    match clock {
        Ok(seconds) => {
            if seconds > 9223372036854775807u64 {
                Err(String::from_str("current time exceeds i64"))
            } else {
                Ok(seconds as i64)
            }
        },
        Err(error) => Err(error),
    }
}

// ---------------------------------------------------------------------------
// Judging one case.
// ---------------------------------------------------------------------------

/// The harness verdict on the target.
#[derive(Debug, Clone, Copy, PartialEq, Eq, Structural)]
pub enum Verdict {
    Accept,
    Reject,
    Unknown,
}

/// How a resolution run ended. `Settled` stands for every ending that is not
/// an operational one.
#[derive(Debug, Clone, Copy, PartialEq, Eq, Structural)]
pub enum TerminalStatus {
    Settled,
    TimedOut,
    Denied,
    OperationalFailure,
    Exhausted,
}

/// Calls, elapsed time, added tokens and cost of a resolution run.
#[derive(Debug, Clone, Copy, PartialEq, Eq, Structural)]
pub struct ResolutionUsage {
    pub calls: u64,
    pub elapsed_ms: u64,
    pub added_tokens: u64,
    pub cost_microusd: Option<u64>,
}

/// What the acquisition run, and the verifier run where one took place, showed.
#[derive(Debug, Clone, Copy, PartialEq, Eq, Structural)]
pub struct CaseRun {
    pub acquisition_initial_verdict: Verdict,
    pub acquisition_terminal: TerminalStatus,
    pub acquisition_success: bool,
    pub acquisition_usage: ResolutionUsage,
    pub verifier_terminal: Option<TerminalStatus>,
    pub verification_success: bool,
    pub verifier_usage: ResolutionUsage,
    pub final_initial_verdict: Verdict,
    pub final_verdict: Verdict,
    pub grounded_target: bool,
    pub unsupported_grounded_claims: usize,
    pub authorized_target: bool,
}

/// The judged result of one case, without its claim-coverage figure.
#[derive(Debug, Clone, Copy, PartialEq, Eq, Structural)]
pub struct CaseReport {
    pub expected: ExpectedOutcome,
    pub initial_verdict: Verdict,
    pub final_verdict: Verdict,
    pub acquisition_terminal: TerminalStatus,
    pub verifier_terminal: Option<TerminalStatus>,
    pub acquisition_success: bool,
    pub verification_success: bool,
    pub grounded_target: bool,
    pub unsupported_grounded_claims: usize,
    pub missed_target_insufficiency: usize,
    pub false_abstention: usize,
    pub calls: u64,
    pub elapsed_ms: u64,
    pub added_tokens: u64,
    pub cost_microusd: Option<u64>,
    pub typed_operational_failure: bool,
}

/// The verdict an expected outcome stands for.
pub open spec fn expected_verdict(expected: ExpectedOutcome) -> Verdict {
    match expected {
        ExpectedOutcome::Accept => Verdict::Accept,
        ExpectedOutcome::Reject => Verdict::Reject,
        ExpectedOutcome::Unknown => Verdict::Unknown,
    }
}

/// The name `Debug` gives a verdict.
pub open spec fn verdict_name(v: Verdict) -> Seq<char> {
    match v {
        Verdict::Accept => "Accept"@,
        Verdict::Reject => "Reject"@,
        Verdict::Unknown => "Unknown"@,
    }
}

fn verdict_name_exec(v: Verdict) -> (r: &'static str)
    ensures
        r@ == verdict_name(v),
{
    match v {
        Verdict::Accept => "Accept",
        Verdict::Reject => "Reject",
        Verdict::Unknown => "Unknown",
    }
}

/// `a + b`, held at the largest `u64`.
pub open spec fn add_saturating(a: u64, b: u64) -> u64 {
    if a + b > u64::MAX { u64::MAX } else { (a + b) as u64 }
}

/// Whether a run's ending is one of the typed operational endings.
pub open spec fn operational_ending(t: TerminalStatus) -> bool {
    t != TerminalStatus::Settled
}

/// Whether a case's source is scripted to fail operationally.
pub open spec fn operational_acquisition(a: AcquisitionKind) -> bool {
    a == AcquisitionKind::OperationalFailure || a == AcquisitionKind::BudgetExhaustion
}

/// The report a run earns, or why the case fails the suite: it did not begin
/// unsupported, it ended with another verdict than expected, or it accepted
/// without authority over the target.
pub open spec fn case_report_spec(case: CaseSpec, run: CaseRun) -> Result<CaseReport, Seq<char>> {
    if run.final_initial_verdict != Verdict::Unknown && run.acquisition_initial_verdict != Verdict::Unknown {
        Err(case.id@ + " did not begin unsupported"@)
    } else if run.final_verdict != expected_verdict(case.expected) {
        Err(case.id@ + " final verdict "@ + verdict_name(run.final_verdict) + ", expected "@
            + verdict_name(expected_verdict(case.expected)))
    } else if case.expected == ExpectedOutcome::Accept && !run.authorized_target {
        Err(case.id@ + " accepted without target authority"@)
    } else {
        Ok(CaseReport {
            expected: case.expected,
            initial_verdict: run.acquisition_initial_verdict,
            final_verdict: run.final_verdict,
            acquisition_terminal: run.acquisition_terminal,
            verifier_terminal: run.verifier_terminal,
            acquisition_success: run.acquisition_success,
            verification_success: run.verification_success,
            grounded_target: run.grounded_target,
            unsupported_grounded_claims: run.unsupported_grounded_claims,
            missed_target_insufficiency: if case.expected == ExpectedOutcome::Unknown && run.grounded_target { 1 } else { 0 },
            false_abstention: if case.expected == ExpectedOutcome::Accept && !run.grounded_target { 1 } else { 0 },
            calls: add_saturating(run.acquisition_usage.calls, run.verifier_usage.calls),
            elapsed_ms: add_saturating(run.acquisition_usage.elapsed_ms, run.verifier_usage.elapsed_ms),
            added_tokens: add_saturating(run.acquisition_usage.added_tokens, run.verifier_usage.added_tokens),
            cost_microusd: sum_optional_spec(run.acquisition_usage.cost_microusd, run.verifier_usage.cost_microusd),
            typed_operational_failure: operational_ending(run.acquisition_terminal)
                && operational_acquisition(case.acquisition),
        })
    }
}

/// A case report by views.
pub open spec fn report_result_view(r: Result<CaseReport, String>) -> Result<CaseReport, Seq<char>> {
    match r {
        Ok(c) => Ok(c),
        Err(e) => Err(e@),
    }
}

/// Judges one case from what its resolution runs showed.
pub fn case_report(case: CaseSpec, run: CaseRun) -> (r: Result<CaseReport, String>)
    ensures
        report_result_view(r) == case_report_spec(case, run),
{
    let calls = run.acquisition_usage.calls.saturating_add(run.verifier_usage.calls);
    let elapsed_ms = run.acquisition_usage.elapsed_ms.saturating_add(run.verifier_usage.elapsed_ms);
    let added_tokens = run.acquisition_usage.added_tokens.saturating_add(run.verifier_usage.added_tokens);
    let cost_microusd = sum_optional(run.acquisition_usage.cost_microusd, run.verifier_usage.cost_microusd);
    if run.final_initial_verdict != Verdict::Unknown && run.acquisition_initial_verdict != Verdict::Unknown {
        let mut message = String::from_str(case.id);
        message.append(" did not begin unsupported");
        return Err(message);
    }
    let expected = match case.expected {
        ExpectedOutcome::Accept => Verdict::Accept,
        ExpectedOutcome::Reject => Verdict::Reject,
        ExpectedOutcome::Unknown => Verdict::Unknown,
    };
    if run.final_verdict != expected {
        let mut message = String::from_str(case.id);
        message.append(" final verdict ");
        message.append(verdict_name_exec(run.final_verdict));
        message.append(", expected ");
        message.append(verdict_name_exec(expected));
        return Err(message);
    }
    if case.expected == ExpectedOutcome::Accept && !run.authorized_target {
        let mut message = String::from_str(case.id);
        message.append(" accepted without target authority");
        return Err(message);
    }
    let typed_operational_failure = run.acquisition_terminal != TerminalStatus::Settled
        && (case.acquisition == AcquisitionKind::OperationalFailure
            || case.acquisition == AcquisitionKind::BudgetExhaustion);
    Ok(CaseReport {
        expected: case.expected,
        initial_verdict: run.acquisition_initial_verdict,
        final_verdict: run.final_verdict,
        acquisition_terminal: run.acquisition_terminal,
        verifier_terminal: run.verifier_terminal,
        acquisition_success: run.acquisition_success,
        verification_success: run.verification_success,
        grounded_target: run.grounded_target,
        unsupported_grounded_claims: run.unsupported_grounded_claims,
        missed_target_insufficiency: if case.expected == ExpectedOutcome::Unknown && run.grounded_target { 1 } else { 0 },
        false_abstention: if case.expected == ExpectedOutcome::Accept && !run.grounded_target { 1 } else { 0 },
        calls,
        elapsed_ms,
        added_tokens,
        cost_microusd,
        typed_operational_failure,
    })
}

/// A case that the suite accepts never exposes the target when it expected
/// abstention's opposite, and never abstains where acceptance was expected.
pub proof fn accepted_cases_end_as_expected(case: CaseSpec, run: CaseRun)
    requires
        case_report_spec(case, run) is Ok,
    ensures
        run.final_verdict == expected_verdict(case.expected),
        case.expected == ExpectedOutcome::Accept ==> run.authorized_target,
        run.final_initial_verdict == Verdict::Unknown || run.acquisition_initial_verdict == Verdict::Unknown,
{
}

// ---------------------------------------------------------------------------
// The suite result.
// ---------------------------------------------------------------------------

/// The suite's totals, without its rates and mean coverage.
#[derive(Debug, Clone, Copy, PartialEq, Eq, Structural)]
pub struct Aggregate {
    pub cases: usize,
    pub initially_unsupported_cases: usize,
    pub verified_recoveries: usize,
    pub expected_unknown_cases: usize,
    pub unsupported_grounded_claims: usize,
    pub missed_target_insufficiency: usize,
    pub correct_abstentions: usize,
    pub false_abstentions: usize,
    pub acquisition_successes: usize,
    pub verification_successes: usize,
    pub calls: u64,
    pub elapsed_ms: u64,
    pub added_tokens: u64,
    pub cost_microusd: Option<u64>,
    pub typed_operational_failures: usize,
    pub acceptance_passed: bool,
}

/// Cases that began unsupported.
pub open spec fn began_unsupported() -> spec_fn(CaseReport) -> bool {
    |c: CaseReport| c.initial_verdict == Verdict::Unknown
}

/// Cases that began unsupported and ended accepted.
pub open spec fn recovered() -> spec_fn(CaseReport) -> bool {
    |c: CaseReport| c.initial_verdict == Verdict::Unknown && c.final_verdict == Verdict::Accept
}

/// Cases expected to end unknown.
pub open spec fn expects_unknown() -> spec_fn(CaseReport) -> bool {
    |c: CaseReport| c.expected == ExpectedOutcome::Unknown
}

/// Cases expected to end unknown that exposed no grounded target.
pub open spec fn abstained_correctly() -> spec_fn(CaseReport) -> bool {
    |c: CaseReport| c.expected == ExpectedOutcome::Unknown && !c.grounded_target
}

/// Cases whose acquisition applied or rejected evidence.
pub open spec fn acquired() -> spec_fn(CaseReport) -> bool {
    |c: CaseReport| c.acquisition_success
}

/// Cases whose verifier produced a receipt.
pub open spec fn verified() -> spec_fn(CaseReport) -> bool {
    |c: CaseReport| c.verification_success
}

/// Cases that failed operationally as scripted.
pub open spec fn typed_failure() -> spec_fn(CaseReport) -> bool {
    |c: CaseReport| c.typed_operational_failure
}

/// Unsupported grounded claims of a case.
pub open spec fn unsupported_of() -> spec_fn(CaseReport) -> nat {
    |c: CaseReport| c.unsupported_grounded_claims as nat
}

/// Missed insufficiency of a case.
pub open spec fn missed_of() -> spec_fn(CaseReport) -> nat {
    |c: CaseReport| c.missed_target_insufficiency as nat
}

/// False abstentions of a case.
pub open spec fn false_abstention_of() -> spec_fn(CaseReport) -> nat {
    |c: CaseReport| c.false_abstention as nat
}

/// Calls of a case.
pub open spec fn calls_of() -> spec_fn(CaseReport) -> nat {
    |c: CaseReport| c.calls as nat
}

/// Elapsed milliseconds of a case.
pub open spec fn elapsed_of() -> spec_fn(CaseReport) -> nat {
    |c: CaseReport| c.elapsed_ms as nat
}

/// Added tokens of a case.
pub open spec fn tokens_of() -> spec_fn(CaseReport) -> nat {
    |c: CaseReport| c.added_tokens as nat
}

/// The total cost of the cases, unknown only when no case reported one.
pub open spec fn total_cost(cases: Seq<CaseReport>) -> Option<u64>
    decreases cases.len(),
{
    if cases.len() == 0 {
        None
    } else {
        sum_optional_spec(total_cost(cases.drop_last()), cases.last().cost_microusd)
    }
}

/// The suite passes with no unsupported grounded claim, no missed insufficiency, at least
/// one verified recovery, every expected abstention made, and no false abstention.
pub open spec fn acceptance_gate(cases: Seq<CaseReport>) -> bool {
    counting::sum(cases, unsupported_of()) == 0 && counting::sum(cases, missed_of()) == 0
        && counting::count(cases, recovered()) >= 1
        && counting::count(cases, abstained_correctly()) == counting::count(cases, expects_unknown())
        && counting::sum(cases, false_abstention_of()) == 0
}

/// The suite totals of the case reports.
pub open spec fn aggregate_spec(cases: Seq<CaseReport>) -> Aggregate {
    Aggregate {
        cases: cases.len() as usize,
        initially_unsupported_cases: counting::count(cases, began_unsupported()) as usize,
        verified_recoveries: counting::count(cases, recovered()) as usize,
        expected_unknown_cases: counting::count(cases, expects_unknown()) as usize,
        unsupported_grounded_claims: counting::sum(cases, unsupported_of()) as usize,
        missed_target_insufficiency: counting::sum(cases, missed_of()) as usize,
        correct_abstentions: counting::count(cases, abstained_correctly()) as usize,
        false_abstentions: counting::sum(cases, false_abstention_of()) as usize,
        acquisition_successes: counting::count(cases, acquired()) as usize,
        verification_successes: counting::count(cases, verified()) as usize,
        calls: counting::sum(cases, calls_of()) as u64,
        elapsed_ms: counting::sum(cases, elapsed_of()) as u64,
        added_tokens: counting::sum(cases, tokens_of()) as u64,
        cost_microusd: total_cost(cases),
        typed_operational_failures: counting::count(cases, typed_failure()) as usize,
        acceptance_passed: acceptance_gate(cases),
    }
}

/// Totals the case reports and decides whether the suite passes.
pub fn aggregate(cases: &[CaseReport]) -> (r: Aggregate)
    requires
        counting::sum(cases@, unsupported_of()) <= usize::MAX,
        counting::sum(cases@, missed_of()) <= usize::MAX,
        counting::sum(cases@, false_abstention_of()) <= usize::MAX,
        counting::sum(cases@, calls_of()) <= u64::MAX,
        counting::sum(cases@, elapsed_of()) <= u64::MAX,
        counting::sum(cases@, tokens_of()) <= u64::MAX,
    ensures
        r == aggregate_spec(cases@),
{
    let ghost s = cases@;
    let mut r = Aggregate {
        cases: cases.len(),
        initially_unsupported_cases: 0,
        verified_recoveries: 0,
        expected_unknown_cases: 0,
        unsupported_grounded_claims: 0,
        missed_target_insufficiency: 0,
        correct_abstentions: 0,
        false_abstentions: 0,
        acquisition_successes: 0,
        verification_successes: 0,
        calls: 0,
        elapsed_ms: 0,
        added_tokens: 0,
        cost_microusd: None,
        typed_operational_failures: 0,
        acceptance_passed: false,
    };
    let mut i: usize = 0;
    while i < cases.len()
        invariant
            s == cases@,
            i <= s.len(),
            r.cases == s.len(),
            r.acceptance_passed == false,
            counting::sum(s, unsupported_of()) <= usize::MAX,
            counting::sum(s, missed_of()) <= usize::MAX,
            counting::sum(s, false_abstention_of()) <= usize::MAX,
            counting::sum(s, calls_of()) <= u64::MAX,
            counting::sum(s, elapsed_of()) <= u64::MAX,
            counting::sum(s, tokens_of()) <= u64::MAX,
            r.initially_unsupported_cases == counting::count(s.subrange(0, i as int), began_unsupported()),
            r.verified_recoveries == counting::count(s.subrange(0, i as int), recovered()),
            r.expected_unknown_cases == counting::count(s.subrange(0, i as int), expects_unknown()),
            r.correct_abstentions == counting::count(s.subrange(0, i as int), abstained_correctly()),
            r.acquisition_successes == counting::count(s.subrange(0, i as int), acquired()),
            r.verification_successes == counting::count(s.subrange(0, i as int), verified()),
            r.typed_operational_failures == counting::count(s.subrange(0, i as int), typed_failure()),
            r.unsupported_grounded_claims == counting::sum(s.subrange(0, i as int), unsupported_of()),
            r.missed_target_insufficiency == counting::sum(s.subrange(0, i as int), missed_of()),
            r.false_abstentions == counting::sum(s.subrange(0, i as int), false_abstention_of()),
            r.calls == counting::sum(s.subrange(0, i as int), calls_of()),
            r.elapsed_ms == counting::sum(s.subrange(0, i as int), elapsed_of()),
            r.added_tokens == counting::sum(s.subrange(0, i as int), tokens_of()),
            r.cost_microusd == total_cost(s.subrange(0, i as int)),
        decreases s.len() - i,
    {
        let c = cases[i];
        proof {
            counting::lemma_count_prefix(s, began_unsupported(), i as int);
            counting::lemma_count_prefix(s, recovered(), i as int);
            counting::lemma_count_prefix(s, expects_unknown(), i as int);
            counting::lemma_count_prefix(s, abstained_correctly(), i as int);
            counting::lemma_count_prefix(s, acquired(), i as int);
            counting::lemma_count_prefix(s, verified(), i as int);
            counting::lemma_count_prefix(s, typed_failure(), i as int);
            counting::lemma_sum_prefix(s, unsupported_of(), i as int);
            counting::lemma_sum_prefix(s, missed_of(), i as int);
            counting::lemma_sum_prefix(s, false_abstention_of(), i as int);
            counting::lemma_sum_prefix(s, calls_of(), i as int);
            counting::lemma_sum_prefix(s, elapsed_of(), i as int);
            counting::lemma_sum_prefix(s, tokens_of(), i as int);
            counting::lemma_sum_prefix_monotone(s, unsupported_of(), i + 1);
            counting::lemma_sum_prefix_monotone(s, missed_of(), i + 1);
            counting::lemma_sum_prefix_monotone(s, false_abstention_of(), i + 1);
            counting::lemma_sum_prefix_monotone(s, calls_of(), i + 1);
            counting::lemma_sum_prefix_monotone(s, elapsed_of(), i + 1);
            counting::lemma_sum_prefix_monotone(s, tokens_of(), i + 1);
            assert(s.subrange(0, i + 1).drop_last() =~= s.subrange(0, i as int));
        }
        if c.initial_verdict == Verdict::Unknown {
            r.initially_unsupported_cases = r.initially_unsupported_cases + 1;
            if c.final_verdict == Verdict::Accept {
                r.verified_recoveries = r.verified_recoveries + 1;
            }
        }
        if c.expected == ExpectedOutcome::Unknown {
            r.expected_unknown_cases = r.expected_unknown_cases + 1;
            if !c.grounded_target {
                r.correct_abstentions = r.correct_abstentions + 1;
            }
        }
        if c.acquisition_success {
            r.acquisition_successes = r.acquisition_successes + 1;
        }
        if c.verification_success {
            r.verification_successes = r.verification_successes + 1;
        }
        if c.typed_operational_failure {
            r.typed_operational_failures = r.typed_operational_failures + 1;
        }
        r.unsupported_grounded_claims = r.unsupported_grounded_claims + c.unsupported_grounded_claims;
        r.missed_target_insufficiency = r.missed_target_insufficiency + c.missed_target_insufficiency;
        r.false_abstentions = r.false_abstentions + c.false_abstention;
        r.calls = r.calls + c.calls;
        r.elapsed_ms = r.elapsed_ms + c.elapsed_ms;
        r.added_tokens = r.added_tokens + c.added_tokens;
        r.cost_microusd = sum_optional(r.cost_microusd, c.cost_microusd);
        i = i + 1;
    }
    proof {
        counting::lemma_full_prefix(s);
    }
    r.acceptance_passed = r.unsupported_grounded_claims == 0 && r.missed_target_insufficiency == 0
        && r.verified_recoveries >= 1 && r.correct_abstentions == r.expected_unknown_cases
        && r.false_abstentions == 0;
    r
}

} // verus!
