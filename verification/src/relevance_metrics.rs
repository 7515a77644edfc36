//! The evidence-relevance calibration metrics: how each observed case
//! compared with its expectations, the totals of its provider work, latency
//! percentiles and the tally of failure classes.
use vstd::prelude::*;
use crate::counting;
use crate::evidence_relevance::{percentile_latency, Disposition, ExecutionSummary, UsageSummary};
use crate::evidence_relevance;
use crate::order;
use crate::tally;

verus! {

/// The parts of a local qualification the metrics compare, each by the code
/// of its variant; a scope risk is absent when no blocking reason applies.
#[derive(Debug, Clone, Copy, PartialEq, Eq, Structural)]
pub struct LocalQualification {
    pub scope_risk: Option<u8>,
    pub identity_scope: u8,
    pub relation_scope: u8,
}

/// What the metrics read of one observed case.
#[derive(Debug)]
pub struct Observation {
    pub failed: bool,
    pub proposal_match: Option<bool>,
    pub local_qualification_invoked: bool,
    pub local_qualification_match: Option<bool>,
    pub expected_local_qualification: LocalQualification,
    pub observed_local_qualification: Option<LocalQualification>,
    pub effective_local_qualification: Option<LocalQualification>,
    pub effective_local_qualification_match: Option<bool>,
    pub effective_local_qualification_derived: bool,
    pub expected_disposition: Disposition,
    pub materialized_disposition: Option<Disposition>,
    pub disposition_match: Option<bool>,
    pub lexical_baseline: Disposition,
    pub lexical_baseline_match: bool,
    pub deterministic_guard_override: bool,
    pub model_calls: u32,
    pub provider_attempts: u32,
    pub provider_attempts_complete: bool,
    pub execution: ExecutionSummary,
    pub latency_ms: u128,
    pub usage: UsageSummary,
    pub failure_class: Option<String>,
}

/// An expected scope risk that the qualification reports otherwise.
pub open spec fn scope_risk_miss(expected: LocalQualification, observed: Option<LocalQualification>) -> bool {
    &&& expected.scope_risk is Some
    &&& observed matches Some(q) && q.scope_risk != expected.scope_risk
}

/// A scope risk the qualification raises where none was expected.
pub open spec fn spurious_scope_risk(expected: LocalQualification, observed: Option<LocalQualification>) -> bool {
    &&& expected.scope_risk is None
    &&& observed matches Some(q) && q.scope_risk is Some
}

/// An identity scope the qualification reports otherwise than expected.
pub open spec fn identity_scope_miss(expected: LocalQualification, observed: Option<LocalQualification>) -> bool {
    observed matches Some(q) && q.identity_scope != expected.identity_scope
}

/// A relation scope the qualification reports otherwise than expected.
pub open spec fn relation_scope_miss(expected: LocalQualification, observed: Option<LocalQualification>) -> bool {
    observed matches Some(q) && q.relation_scope != expected.relation_scope
}

/// A successful observation materialized otherwise than expected, without
/// keeping a wrong target as relevant.
pub open spec fn utility_miss(o: Observation) -> bool {
    &&& !o.failed
    &&& o.materialized_disposition is Some
    &&& o.materialized_disposition != Some(o.expected_disposition)
    &&& !(o.materialized_disposition == Some(Disposition::Relevant) && o.expected_disposition != Disposition::Relevant)
}

fn same_risk(a: Option<u8>, b: Option<u8>) -> (r: bool)
    ensures
        r == (a == b),
{
    match (a, b) {
        (None, None) => true,
        (Some(x), Some(y)) => x == y,
        _ => false,
    }
}

fn matches_true(m: Option<bool>) -> (r: bool)
    ensures
        r == (m == Some(true)),
{
    match m {
        Some(b) => b,
        None => false,
    }
}

fn is_disposition(m: Option<Disposition>, d: Disposition) -> (r: bool)
    ensures
        r == (m == Some(d)),
{
    match m {
        Some(x) => x == d,
        None => false,
    }
}

fn is_scope_risk_miss(expected: &LocalQualification, observed: &Option<LocalQualification>) -> (r: bool)
    ensures
        r == scope_risk_miss(*expected, *observed),
{
    match observed {
        Some(q) => expected.scope_risk.is_some() && !same_risk(q.scope_risk, expected.scope_risk),
        None => false,
    }
}

fn is_spurious_scope_risk(expected: &LocalQualification, observed: &Option<LocalQualification>) -> (r: bool)
    ensures
        r == spurious_scope_risk(*expected, *observed),
{
    match observed {
        Some(q) => expected.scope_risk.is_none() && q.scope_risk.is_some(),
        None => false,
    }
}

fn is_identity_scope_miss(expected: &LocalQualification, observed: &Option<LocalQualification>) -> (r: bool)
    ensures
        r == identity_scope_miss(*expected, *observed),
{
    match observed {
        Some(q) => q.identity_scope != expected.identity_scope,
        None => false,
    }
}

fn is_relation_scope_miss(expected: &LocalQualification, observed: &Option<LocalQualification>) -> (r: bool)
    ensures
        r == relation_scope_miss(*expected, *observed),
{
    match observed {
        Some(q) => q.relation_scope != expected.relation_scope,
        None => false,
    }
}

fn is_utility_miss(o: &Observation) -> (r: bool)
    ensures
        r == utility_miss(*o),
{
    match o.materialized_disposition {
        Some(m) => !o.failed && m != o.expected_disposition && !(m == Disposition::Relevant
            && o.expected_disposition != Disposition::Relevant),
        None => false,
    }
}

/// How the local qualifications compared with the expected ones.
#[derive(Debug, Clone, Copy, PartialEq, Eq, Structural)]
pub struct QualificationCounts {
    pub local_qualification_invocations: usize,
    pub local_qualification_exact_matches: usize,
    pub qualification_scope_risk_misses: usize,
    pub qualification_spurious_scope_risks: usize,
    pub qualification_identity_scope_misses: usize,
    pub qualification_relation_scope_misses: usize,
    pub effective_local_qualification_derivations: usize,
    pub effective_local_qualification_exact_matches: usize,
    pub effective_qualification_scope_risk_misses: usize,
    pub effective_qualification_spurious_scope_risks: usize,
    pub effective_qualification_identity_scope_misses: usize,
    pub effective_qualification_relation_scope_misses: usize,
}

/// Observations that invoked local qualification.
pub open spec fn invoked_qualification() -> spec_fn(Observation) -> bool {
    |o: Observation| o.local_qualification_invoked
}

/// Observations whose local qualification matched.
pub open spec fn qualification_matched() -> spec_fn(Observation) -> bool {
    |o: Observation| o.local_qualification_match == Some(true)
}

/// Expected scope risks that the observed qualification got wrong.
pub open spec fn observed_scope_risk_missed() -> spec_fn(Observation) -> bool {
    |o: Observation| scope_risk_miss(o.expected_local_qualification, o.observed_local_qualification)
}

/// Scope risks the observed qualification raised where none was expected.
pub open spec fn observed_scope_risk_spurious() -> spec_fn(Observation) -> bool {
    |o: Observation| spurious_scope_risk(o.expected_local_qualification, o.observed_local_qualification)
}

/// Observed identity scopes that differ from the expected one.
pub open spec fn observed_identity_scope_missed() -> spec_fn(Observation) -> bool {
    |o: Observation| identity_scope_miss(o.expected_local_qualification, o.observed_local_qualification)
}

/// Observed relation scopes that differ from the expected one.
pub open spec fn observed_relation_scope_missed() -> spec_fn(Observation) -> bool {
    |o: Observation| relation_scope_miss(o.expected_local_qualification, o.observed_local_qualification)
}

/// Observations whose effective qualification was derived.
pub open spec fn derived_effective() -> spec_fn(Observation) -> bool {
    |o: Observation| o.effective_local_qualification_derived
}

/// Observations whose effective qualification matched.
pub open spec fn effective_matched() -> spec_fn(Observation) -> bool {
    |o: Observation| o.effective_local_qualification_match == Some(true)
}

/// Expected scope risks that the effective qualification got wrong.
pub open spec fn effective_scope_risk_missed() -> spec_fn(Observation) -> bool {
    |o: Observation| scope_risk_miss(o.expected_local_qualification, o.effective_local_qualification)
}

/// Scope risks the effective qualification raised where none was expected.
pub open spec fn effective_scope_risk_spurious() -> spec_fn(Observation) -> bool {
    |o: Observation| spurious_scope_risk(o.expected_local_qualification, o.effective_local_qualification)
}

/// Effective identity scopes that differ from the expected one.
pub open spec fn effective_identity_scope_missed() -> spec_fn(Observation) -> bool {
    |o: Observation| identity_scope_miss(o.expected_local_qualification, o.effective_local_qualification)
}

/// Effective relation scopes that differ from the expected one.
pub open spec fn effective_relation_scope_missed() -> spec_fn(Observation) -> bool {
    |o: Observation| relation_scope_miss(o.expected_local_qualification, o.effective_local_qualification)
}

/// The qualification counts of the observations.
pub open spec fn qualification_counts(s: Seq<Observation>) -> QualificationCounts {
    QualificationCounts {
        local_qualification_invocations: counting::count(s, invoked_qualification()) as usize,
        local_qualification_exact_matches: counting::count(s, qualification_matched()) as usize,
        qualification_scope_risk_misses: counting::count(s, observed_scope_risk_missed()) as usize,
        qualification_spurious_scope_risks: counting::count(s, observed_scope_risk_spurious()) as usize,
        qualification_identity_scope_misses: counting::count(s, observed_identity_scope_missed()) as usize,
        qualification_relation_scope_misses: counting::count(s, observed_relation_scope_missed()) as usize,
        effective_local_qualification_derivations: counting::count(s, derived_effective()) as usize,
        effective_local_qualification_exact_matches: counting::count(s, effective_matched()) as usize,
        effective_qualification_scope_risk_misses: counting::count(s, effective_scope_risk_missed()) as usize,
        effective_qualification_spurious_scope_risks: counting::count(s, effective_scope_risk_spurious()) as usize,
        effective_qualification_identity_scope_misses: counting::count(s, effective_identity_scope_missed()) as usize,
        effective_qualification_relation_scope_misses: counting::count(s, effective_relation_scope_missed()) as usize,
    }
}

/// One more observation added to the qualification counts.
pub open spec fn qualification_step(r: QualificationCounts, o: Observation) -> QualificationCounts {
    QualificationCounts {
        local_qualification_invocations: (r.local_qualification_invocations + if invoked_qualification()(o) { 1int } else { 0int }) as usize,
        local_qualification_exact_matches: (r.local_qualification_exact_matches + if qualification_matched()(o) { 1int } else { 0int }) as usize,
        qualification_scope_risk_misses: (r.qualification_scope_risk_misses + if observed_scope_risk_missed()(o) { 1int } else { 0int }) as usize,
        qualification_spurious_scope_risks: (r.qualification_spurious_scope_risks + if observed_scope_risk_spurious()(o) { 1int } else { 0int }) as usize,
        qualification_identity_scope_misses: (r.qualification_identity_scope_misses + if observed_identity_scope_missed()(o) { 1int } else { 0int }) as usize,
        qualification_relation_scope_misses: (r.qualification_relation_scope_misses + if observed_relation_scope_missed()(o) { 1int } else { 0int }) as usize,
        effective_local_qualification_derivations: (r.effective_local_qualification_derivations + if derived_effective()(o) { 1int } else { 0int }) as usize,
        effective_local_qualification_exact_matches: (r.effective_local_qualification_exact_matches + if effective_matched()(o) { 1int } else { 0int }) as usize,
        effective_qualification_scope_risk_misses: (r.effective_qualification_scope_risk_misses + if effective_scope_risk_missed()(o) { 1int } else { 0int }) as usize,
        effective_qualification_spurious_scope_risks: (r.effective_qualification_spurious_scope_risks + if effective_scope_risk_spurious()(o) { 1int } else { 0int }) as usize,
        effective_qualification_identity_scope_misses: (r.effective_qualification_identity_scope_misses + if effective_identity_scope_missed()(o) { 1int } else { 0int }) as usize,
        effective_qualification_relation_scope_misses: (r.effective_qualification_relation_scope_misses + if effective_relation_scope_missed()(o) { 1int } else { 0int }) as usize,
    }
}

/// Every count is at most `n`.
pub open spec fn qualification_at_most(r: QualificationCounts, n: int) -> bool {
    &&& r.local_qualification_invocations <= n
    &&& r.local_qualification_exact_matches <= n
    &&& r.qualification_scope_risk_misses <= n
    &&& r.qualification_spurious_scope_risks <= n
    &&& r.qualification_identity_scope_misses <= n
    &&& r.qualification_relation_scope_misses <= n
    &&& r.effective_local_qualification_derivations <= n
    &&& r.effective_local_qualification_exact_matches <= n
    &&& r.effective_qualification_scope_risk_misses <= n
    &&& r.effective_qualification_spurious_scope_risks <= n
    &&& r.effective_qualification_identity_scope_misses <= n
    &&& r.effective_qualification_relation_scope_misses <= n
}

proof fn lemma_qualification_prefix(s: Seq<Observation>, i: int)
    requires
        0 <= i < s.len(),
        s.len() <= usize::MAX,
    ensures
        qualification_counts(s.subrange(0, i + 1)) == qualification_step(qualification_counts(s.subrange(0, i)), s[i]),
        qualification_at_most(qualification_counts(s.subrange(0, i)), i),
{
    counting::lemma_count_prefix(s, invoked_qualification(), i);
    counting::lemma_count_prefix(s, qualification_matched(), i);
    counting::lemma_count_prefix(s, observed_scope_risk_missed(), i);
    counting::lemma_count_prefix(s, observed_scope_risk_spurious(), i);
    counting::lemma_count_prefix(s, observed_identity_scope_missed(), i);
    counting::lemma_count_prefix(s, observed_relation_scope_missed(), i);
    counting::lemma_count_prefix(s, derived_effective(), i);
    counting::lemma_count_prefix(s, effective_matched(), i);
    counting::lemma_count_prefix(s, effective_scope_risk_missed(), i);
    counting::lemma_count_prefix(s, effective_scope_risk_spurious(), i);
    counting::lemma_count_prefix(s, effective_identity_scope_missed(), i);
    counting::lemma_count_prefix(s, effective_relation_scope_missed(), i);
}

fn add_qualification(r: QualificationCounts, o: &Observation) -> (n: QualificationCounts)
    requires
        qualification_at_most(r, usize::MAX - 1),
    ensures
        n == qualification_step(r, *o),
{
    let mut n = r;
    if o.local_qualification_invoked {
        n.local_qualification_invocations = n.local_qualification_invocations + 1;
    }
    if matches_true(o.local_qualification_match) {
        n.local_qualification_exact_matches = n.local_qualification_exact_matches + 1;
    }
    if is_scope_risk_miss(&o.expected_local_qualification, &o.observed_local_qualification) {
        n.qualification_scope_risk_misses = n.qualification_scope_risk_misses + 1;
    }
    if is_spurious_scope_risk(&o.expected_local_qualification, &o.observed_local_qualification) {
        n.qualification_spurious_scope_risks = n.qualification_spurious_scope_risks + 1;
    }
    if is_identity_scope_miss(&o.expected_local_qualification, &o.observed_local_qualification) {
        n.qualification_identity_scope_misses = n.qualification_identity_scope_misses + 1;
    }
    if is_relation_scope_miss(&o.expected_local_qualification, &o.observed_local_qualification) {
        n.qualification_relation_scope_misses = n.qualification_relation_scope_misses + 1;
    }
    if o.effective_local_qualification_derived {
        n.effective_local_qualification_derivations = n.effective_local_qualification_derivations + 1;
    }
    if matches_true(o.effective_local_qualification_match) {
        n.effective_local_qualification_exact_matches = n.effective_local_qualification_exact_matches + 1;
    }
    if is_scope_risk_miss(&o.expected_local_qualification, &o.effective_local_qualification) {
        n.effective_qualification_scope_risk_misses = n.effective_qualification_scope_risk_misses + 1;
    }
    if is_spurious_scope_risk(&o.expected_local_qualification, &o.effective_local_qualification) {
        n.effective_qualification_spurious_scope_risks = n.effective_qualification_spurious_scope_risks + 1;
    }
    if is_identity_scope_miss(&o.expected_local_qualification, &o.effective_local_qualification) {
        n.effective_qualification_identity_scope_misses = n.effective_qualification_identity_scope_misses + 1;
    }
    if is_relation_scope_miss(&o.expected_local_qualification, &o.effective_local_qualification) {
        n.effective_qualification_relation_scope_misses = n.effective_qualification_relation_scope_misses + 1;
    }
    n
}

/// Counts the qualification counts of the observations.
pub fn count_qualifications(observations: &[Observation]) -> (r: QualificationCounts)
    requires
        observations.len() < usize::MAX,
    ensures
        r == qualification_counts(observations@),
{
    let ghost s = observations@;
    let mut r = QualificationCounts {
        local_qualification_invocations: 0,
        local_qualification_exact_matches: 0,
        qualification_scope_risk_misses: 0,
        qualification_spurious_scope_risks: 0,
        qualification_identity_scope_misses: 0,
        qualification_relation_scope_misses: 0,
        effective_local_qualification_derivations: 0,
        effective_local_qualification_exact_matches: 0,
        effective_qualification_scope_risk_misses: 0,
        effective_qualification_spurious_scope_risks: 0,
        effective_qualification_identity_scope_misses: 0,
        effective_qualification_relation_scope_misses: 0,
    };
    assert(r == qualification_counts(s.subrange(0, 0)));
    let mut i: usize = 0;
    while i < observations.len()
        invariant
            s == observations@,
            i <= s.len(),
            s.len() < usize::MAX,
            r == qualification_counts(s.subrange(0, i as int)),
        decreases s.len() - i,
    {
        proof {
            lemma_qualification_prefix(s, i as int);
        }
        r = add_qualification(r, &observations[i]);
        i = i + 1;
    }
    proof {
        counting::lemma_full_prefix(s);
    }
    r
}

/// How the provider calls, proposals and dispositions came out.
#[derive(Debug, Clone, Copy, PartialEq, Eq, Structural)]
pub struct DispositionCounts {
    pub successful_provider_cases: usize,
    pub proposal_exact_matches: usize,
    pub materialized_exact_matches: usize,
    pub correctness_wrong_target_relevance_retention: usize,
    pub false_relevance_rejections: usize,
    pub relevant_left_ambiguous: usize,
    pub utility_misses: usize,
    pub ambiguous_dispositions: usize,
    pub deterministic_guard_overrides: usize,
    pub lexical_exact_matches: usize,
    pub lexical_wrong_target_relevance_retention: usize,
    pub lexical_expected_relevant_misses: usize,
    pub provider_attempts_incomplete_observations: usize,
}

/// Observations without a provider failure.
pub open spec fn succeeded() -> spec_fn(Observation) -> bool {
    |o: Observation| !o.failed
}

/// Observations whose binding proposal matched.
pub open spec fn proposal_matched() -> spec_fn(Observation) -> bool {
    |o: Observation| o.proposal_match == Some(true)
}

/// Observations whose materialized disposition matched.
pub open spec fn disposition_matched() -> spec_fn(Observation) -> bool {
    |o: Observation| o.disposition_match == Some(true)
}

/// Wrong targets materialized as relevant.
pub open spec fn retained_wrong_target() -> spec_fn(Observation) -> bool {
    |o: Observation| o.materialized_disposition == Some(Disposition::Relevant) && o.expected_disposition != Disposition::Relevant
}

/// Relevant evidence materialized as irrelevant.
pub open spec fn rejected_relevant() -> spec_fn(Observation) -> bool {
    |o: Observation| o.expected_disposition == Disposition::Relevant && o.materialized_disposition == Some(Disposition::Irrelevant)
}

/// Relevant evidence left ambiguous.
pub open spec fn left_relevant_ambiguous() -> spec_fn(Observation) -> bool {
    |o: Observation| o.expected_disposition == Disposition::Relevant && o.materialized_disposition == Some(Disposition::Ambiguous)
}

/// Successful observations materialized otherwise than expected, short of a wrong-target retention.
pub open spec fn missed_utility() -> spec_fn(Observation) -> bool {
    |o: Observation| utility_miss(o)
}

/// Observations materialized as ambiguous.
pub open spec fn materialized_ambiguous() -> spec_fn(Observation) -> bool {
    |o: Observation| o.materialized_disposition == Some(Disposition::Ambiguous)
}

/// Observations where the deterministic guard overrode the model.
pub open spec fn guard_overrode() -> spec_fn(Observation) -> bool {
    |o: Observation| o.deterministic_guard_override
}

/// Observations the lexical baseline got right.
pub open spec fn lexical_matched() -> spec_fn(Observation) -> bool {
    |o: Observation| o.lexical_baseline_match
}

/// Wrong targets the lexical baseline kept as relevant.
pub open spec fn lexical_retained_wrong_target() -> spec_fn(Observation) -> bool {
    |o: Observation| o.lexical_baseline == Disposition::Relevant && o.expected_disposition != Disposition::Relevant
}

/// Relevant evidence the lexical baseline missed.
pub open spec fn lexical_missed_relevant() -> spec_fn(Observation) -> bool {
    |o: Observation| o.expected_disposition == Disposition::Relevant && o.lexical_baseline != Disposition::Relevant
}

/// Observations whose provider attempt count is incomplete.
pub open spec fn attempts_incomplete() -> spec_fn(Observation) -> bool {
    |o: Observation| !o.provider_attempts_complete
}

/// The disposition counts of the observations.
pub open spec fn disposition_counts(s: Seq<Observation>) -> DispositionCounts {
    DispositionCounts {
        successful_provider_cases: counting::count(s, succeeded()) as usize,
        proposal_exact_matches: counting::count(s, proposal_matched()) as usize,
        materialized_exact_matches: counting::count(s, disposition_matched()) as usize,
        correctness_wrong_target_relevance_retention: counting::count(s, retained_wrong_target()) as usize,
        false_relevance_rejections: counting::count(s, rejected_relevant()) as usize,
        relevant_left_ambiguous: counting::count(s, left_relevant_ambiguous()) as usize,
        utility_misses: counting::count(s, missed_utility()) as usize,
        ambiguous_dispositions: counting::count(s, materialized_ambiguous()) as usize,
        deterministic_guard_overrides: counting::count(s, guard_overrode()) as usize,
        lexical_exact_matches: counting::count(s, lexical_matched()) as usize,
        lexical_wrong_target_relevance_retention: counting::count(s, lexical_retained_wrong_target()) as usize,
        lexical_expected_relevant_misses: counting::count(s, lexical_missed_relevant()) as usize,
        provider_attempts_incomplete_observations: counting::count(s, attempts_incomplete()) as usize,
    }
}

/// One more observation added to the disposition counts.
pub open spec fn disposition_step(r: DispositionCounts, o: Observation) -> DispositionCounts {
    DispositionCounts {
        successful_provider_cases: (r.successful_provider_cases + if succeeded()(o) { 1int } else { 0int }) as usize,
        proposal_exact_matches: (r.proposal_exact_matches + if proposal_matched()(o) { 1int } else { 0int }) as usize,
        materialized_exact_matches: (r.materialized_exact_matches + if disposition_matched()(o) { 1int } else { 0int }) as usize,
        correctness_wrong_target_relevance_retention: (r.correctness_wrong_target_relevance_retention + if retained_wrong_target()(o) { 1int } else { 0int }) as usize,
        false_relevance_rejections: (r.false_relevance_rejections + if rejected_relevant()(o) { 1int } else { 0int }) as usize,
        relevant_left_ambiguous: (r.relevant_left_ambiguous + if left_relevant_ambiguous()(o) { 1int } else { 0int }) as usize,
        utility_misses: (r.utility_misses + if missed_utility()(o) { 1int } else { 0int }) as usize,
        ambiguous_dispositions: (r.ambiguous_dispositions + if materialized_ambiguous()(o) { 1int } else { 0int }) as usize,
        deterministic_guard_overrides: (r.deterministic_guard_overrides + if guard_overrode()(o) { 1int } else { 0int }) as usize,
        lexical_exact_matches: (r.lexical_exact_matches + if lexical_matched()(o) { 1int } else { 0int }) as usize,
        lexical_wrong_target_relevance_retention: (r.lexical_wrong_target_relevance_retention + if lexical_retained_wrong_target()(o) { 1int } else { 0int }) as usize,
        lexical_expected_relevant_misses: (r.lexical_expected_relevant_misses + if lexical_missed_relevant()(o) { 1int } else { 0int }) as usize,
        provider_attempts_incomplete_observations: (r.provider_attempts_incomplete_observations + if attempts_incomplete()(o) { 1int } else { 0int }) as usize,
    }
}

/// Every count is at most `n`.
pub open spec fn disposition_at_most(r: DispositionCounts, n: int) -> bool {
    &&& r.successful_provider_cases <= n
    &&& r.proposal_exact_matches <= n
    &&& r.materialized_exact_matches <= n
    &&& r.correctness_wrong_target_relevance_retention <= n
    &&& r.false_relevance_rejections <= n
    &&& r.relevant_left_ambiguous <= n
    &&& r.utility_misses <= n
    &&& r.ambiguous_dispositions <= n
    &&& r.deterministic_guard_overrides <= n
    &&& r.lexical_exact_matches <= n
    &&& r.lexical_wrong_target_relevance_retention <= n
    &&& r.lexical_expected_relevant_misses <= n
    &&& r.provider_attempts_incomplete_observations <= n
}

proof fn lemma_disposition_prefix(s: Seq<Observation>, i: int)
    requires
        0 <= i < s.len(),
        s.len() <= usize::MAX,
    ensures
        disposition_counts(s.subrange(0, i + 1)) == disposition_step(disposition_counts(s.subrange(0, i)), s[i]),
        disposition_at_most(disposition_counts(s.subrange(0, i)), i),
{
    counting::lemma_count_prefix(s, succeeded(), i);
    counting::lemma_count_prefix(s, proposal_matched(), i);
    counting::lemma_count_prefix(s, disposition_matched(), i);
    counting::lemma_count_prefix(s, retained_wrong_target(), i);
    counting::lemma_count_prefix(s, rejected_relevant(), i);
    counting::lemma_count_prefix(s, left_relevant_ambiguous(), i);
    counting::lemma_count_prefix(s, missed_utility(), i);
    counting::lemma_count_prefix(s, materialized_ambiguous(), i);
    counting::lemma_count_prefix(s, guard_overrode(), i);
    counting::lemma_count_prefix(s, lexical_matched(), i);
    counting::lemma_count_prefix(s, lexical_retained_wrong_target(), i);
    counting::lemma_count_prefix(s, lexical_missed_relevant(), i);
    counting::lemma_count_prefix(s, attempts_incomplete(), i);
}

#[verifier::rlimit(40)]
fn add_disposition(r: DispositionCounts, o: &Observation) -> (n: DispositionCounts)
    requires
        disposition_at_most(r, usize::MAX - 1),
    ensures
        n == disposition_step(r, *o),
{
    let mut n = r;
    if !o.failed {
        n.successful_provider_cases = n.successful_provider_cases + 1;
    }
    if matches_true(o.proposal_match) {
        n.proposal_exact_matches = n.proposal_exact_matches + 1;
    }
    if matches_true(o.disposition_match) {
        n.materialized_exact_matches = n.materialized_exact_matches + 1;
    }
    if is_disposition(o.materialized_disposition, Disposition::Relevant) && o.expected_disposition != Disposition::Relevant {
        n.correctness_wrong_target_relevance_retention = n.correctness_wrong_target_relevance_retention + 1;
    }
    if o.expected_disposition == Disposition::Relevant && is_disposition(o.materialized_disposition, Disposition::Irrelevant) {
        n.false_relevance_rejections = n.false_relevance_rejections + 1;
    }
    if o.expected_disposition == Disposition::Relevant && is_disposition(o.materialized_disposition, Disposition::Ambiguous) {
        n.relevant_left_ambiguous = n.relevant_left_ambiguous + 1;
    }
    if is_utility_miss(o) {
        n.utility_misses = n.utility_misses + 1;
    }
    if is_disposition(o.materialized_disposition, Disposition::Ambiguous) {
        n.ambiguous_dispositions = n.ambiguous_dispositions + 1;
    }
    if o.deterministic_guard_override {
        n.deterministic_guard_overrides = n.deterministic_guard_overrides + 1;
    }
    if o.lexical_baseline_match {
        n.lexical_exact_matches = n.lexical_exact_matches + 1;
    }
    if o.lexical_baseline == Disposition::Relevant && o.expected_disposition != Disposition::Relevant {
        n.lexical_wrong_target_relevance_retention = n.lexical_wrong_target_relevance_retention + 1;
    }
    if o.expected_disposition == Disposition::Relevant && o.lexical_baseline != Disposition::Relevant {
        n.lexical_expected_relevant_misses = n.lexical_expected_relevant_misses + 1;
    }
    if !o.provider_attempts_complete {
        n.provider_attempts_incomplete_observations = n.provider_attempts_incomplete_observations + 1;
    }
    n
}

/// Each disposition count counts observations one by one: none for no
/// observation, and one more observation adds one to a count exactly when it
/// is of that count's kind. A wrong target materialized as relevant is one
/// whose evidence was expected irrelevant or ambiguous; a utility miss is a
/// successful observation materialized otherwise than expected that is no
/// such retention.
pub proof fn disposition_counts_count_each_observation(s: Seq<Observation>, o: Observation)
    requires
        s.len() < usize::MAX,
    ensures
        disposition_counts(Seq::empty()).successful_provider_cases == 0,
        disposition_counts(Seq::empty()).correctness_wrong_target_relevance_retention == 0,
        disposition_counts(Seq::empty()).utility_misses == 0,
        disposition_counts(Seq::empty()).lexical_wrong_target_relevance_retention == 0,
        disposition_counts(s.push(o)).successful_provider_cases as int == disposition_counts(s).successful_provider_cases as int + if !o.failed {
            1int
        } else {
            0int
        },
        disposition_counts(s.push(o)).proposal_exact_matches as int == disposition_counts(s).proposal_exact_matches as int + if o.proposal_match == Some(true) {
            1int
        } else {
            0int
        },
        disposition_counts(s.push(o)).materialized_exact_matches as int == disposition_counts(s).materialized_exact_matches as int + if o.disposition_match == Some(true) {
            1int
        } else {
            0int
        },
        disposition_counts(s.push(o)).correctness_wrong_target_relevance_retention as int == disposition_counts(s).correctness_wrong_target_relevance_retention as int + if o.materialized_disposition == Some(Disposition::Relevant) && (o.expected_disposition == Disposition::Irrelevant || o.expected_disposition == Disposition::Ambiguous) {
            1int
        } else {
            0int
        },
        disposition_counts(s.push(o)).false_relevance_rejections as int == disposition_counts(s).false_relevance_rejections as int + if o.expected_disposition == Disposition::Relevant && o.materialized_disposition == Some(Disposition::Irrelevant) {
            1int
        } else {
            0int
        },
        disposition_counts(s.push(o)).relevant_left_ambiguous as int == disposition_counts(s).relevant_left_ambiguous as int + if o.expected_disposition == Disposition::Relevant && o.materialized_disposition == Some(Disposition::Ambiguous) {
            1int
        } else {
            0int
        },
        disposition_counts(s.push(o)).utility_misses as int == disposition_counts(s).utility_misses as int + if !o.failed && o.materialized_disposition is Some && o.materialized_disposition != Some(o.expected_disposition) && !(o.materialized_disposition == Some(Disposition::Relevant) && o.expected_disposition != Disposition::Relevant) {
            1int
        } else {
            0int
        },
        disposition_counts(s.push(o)).ambiguous_dispositions as int == disposition_counts(s).ambiguous_dispositions as int + if o.materialized_disposition == Some(Disposition::Ambiguous) {
            1int
        } else {
            0int
        },
        disposition_counts(s.push(o)).deterministic_guard_overrides as int == disposition_counts(s).deterministic_guard_overrides as int + if o.deterministic_guard_override {
            1int
        } else {
            0int
        },
        disposition_counts(s.push(o)).lexical_exact_matches as int == disposition_counts(s).lexical_exact_matches as int + if o.lexical_baseline_match {
            1int
        } else {
            0int
        },
        disposition_counts(s.push(o)).lexical_wrong_target_relevance_retention as int == disposition_counts(s).lexical_wrong_target_relevance_retention as int + if o.lexical_baseline == Disposition::Relevant && (o.expected_disposition == Disposition::Irrelevant || o.expected_disposition == Disposition::Ambiguous) {
            1int
        } else {
            0int
        },
        disposition_counts(s.push(o)).lexical_expected_relevant_misses as int == disposition_counts(s).lexical_expected_relevant_misses as int + if o.expected_disposition == Disposition::Relevant && o.lexical_baseline != Disposition::Relevant {
            1int
        } else {
            0int
        },
{
    assert(s.push(o).drop_last() =~= s);
    counting::lemma_count_bound(s, succeeded());
    counting::lemma_count_bound(s.push(o), succeeded());
    counting::lemma_count_bound(s, proposal_matched());
    counting::lemma_count_bound(s.push(o), proposal_matched());
    counting::lemma_count_bound(s, disposition_matched());
    counting::lemma_count_bound(s.push(o), disposition_matched());
    counting::lemma_count_bound(s, retained_wrong_target());
    counting::lemma_count_bound(s.push(o), retained_wrong_target());
    counting::lemma_count_bound(s, rejected_relevant());
    counting::lemma_count_bound(s.push(o), rejected_relevant());
    counting::lemma_count_bound(s, left_relevant_ambiguous());
    counting::lemma_count_bound(s.push(o), left_relevant_ambiguous());
    counting::lemma_count_bound(s, missed_utility());
    counting::lemma_count_bound(s.push(o), missed_utility());
    counting::lemma_count_bound(s, materialized_ambiguous());
    counting::lemma_count_bound(s.push(o), materialized_ambiguous());
    counting::lemma_count_bound(s, guard_overrode());
    counting::lemma_count_bound(s.push(o), guard_overrode());
    counting::lemma_count_bound(s, lexical_matched());
    counting::lemma_count_bound(s.push(o), lexical_matched());
    counting::lemma_count_bound(s, lexical_retained_wrong_target());
    counting::lemma_count_bound(s.push(o), lexical_retained_wrong_target());
    counting::lemma_count_bound(s, lexical_missed_relevant());
    counting::lemma_count_bound(s.push(o), lexical_missed_relevant());
}

/// Counts the disposition counts of the observations.
pub fn count_dispositions(observations: &[Observation]) -> (r: DispositionCounts)
    requires
        observations.len() < usize::MAX,
    ensures
        r == disposition_counts(observations@),
{
    let ghost s = observations@;
    let mut r = DispositionCounts {
        successful_provider_cases: 0,
        proposal_exact_matches: 0,
        materialized_exact_matches: 0,
        correctness_wrong_target_relevance_retention: 0,
        false_relevance_rejections: 0,
        relevant_left_ambiguous: 0,
        utility_misses: 0,
        ambiguous_dispositions: 0,
        deterministic_guard_overrides: 0,
        lexical_exact_matches: 0,
        lexical_wrong_target_relevance_retention: 0,
        lexical_expected_relevant_misses: 0,
        provider_attempts_incomplete_observations: 0,
    };
    assert(r == disposition_counts(s.subrange(0, 0)));
    let mut i: usize = 0;
    while i < observations.len()
        invariant
            s == observations@,
            i <= s.len(),
            s.len() < usize::MAX,
            r == disposition_counts(s.subrange(0, i as int)),
        decreases s.len() - i,
    {
        proof {
            lemma_disposition_prefix(s, i as int);
        }
        r = add_disposition(r, &observations[i]);
        i = i + 1;
    }
    proof {
        counting::lemma_full_prefix(s);
    }
    r
}

/// The totals of the per-observation measures.
#[derive(Debug, Clone, Copy, PartialEq, Eq, Structural)]
pub struct ObservationTotals {
    pub model_calls: u64,
    pub provider_attempts: u64,
    pub provider_attempts_started: u64,
    pub provider_attempts_completed: u64,
    pub active_execution_ms: u64,
    pub provider_wait_ms: u64,
    pub pacing_wait_ms: u64,
    pub retry_wait_ms: u64,
    pub input_tokens: u64,
    pub output_tokens: u64,
    pub total_tokens: u64,
    pub total_latency_ms: u128,
}

/// The `model_calls` measure of an observation.
pub open spec fn measure_model_calls() -> spec_fn(Observation) -> nat {
    |o: Observation| o.model_calls as nat
}

/// The `provider_attempts` measure of an observation.
pub open spec fn measure_provider_attempts() -> spec_fn(Observation) -> nat {
    |o: Observation| o.provider_attempts as nat
}

/// The `provider_attempts_started` measure of an observation.
pub open spec fn measure_provider_attempts_started() -> spec_fn(Observation) -> nat {
    |o: Observation| o.execution.provider_attempts_started as nat
}

/// The `provider_attempts_completed` measure of an observation.
pub open spec fn measure_provider_attempts_completed() -> spec_fn(Observation) -> nat {
    |o: Observation| o.execution.provider_attempts_completed as nat
}

/// The `active_execution_ms` measure of an observation.
pub open spec fn measure_active_execution_ms() -> spec_fn(Observation) -> nat {
    |o: Observation| o.execution.active_ms as nat
}

/// The `provider_wait_ms` measure of an observation.
pub open spec fn measure_provider_wait_ms() -> spec_fn(Observation) -> nat {
    |o: Observation| o.execution.wait_ms as nat
}

/// The `pacing_wait_ms` measure of an observation.
pub open spec fn measure_pacing_wait_ms() -> spec_fn(Observation) -> nat {
    |o: Observation| o.execution.pacing_wait_ms as nat
}

/// The `retry_wait_ms` measure of an observation.
pub open spec fn measure_retry_wait_ms() -> spec_fn(Observation) -> nat {
    |o: Observation| o.execution.retry_wait_ms as nat
}

/// The `input_tokens` measure of an observation.
pub open spec fn measure_input_tokens() -> spec_fn(Observation) -> nat {
    |o: Observation| o.usage.input_tokens as nat
}

/// The `output_tokens` measure of an observation.
pub open spec fn measure_output_tokens() -> spec_fn(Observation) -> nat {
    |o: Observation| o.usage.output_tokens as nat
}

/// The `total_tokens` measure of an observation.
pub open spec fn measure_total_tokens() -> spec_fn(Observation) -> nat {
    |o: Observation| o.usage.total_tokens as nat
}

/// The `total_latency_ms` measure of an observation.
pub open spec fn measure_total_latency_ms() -> spec_fn(Observation) -> nat {
    |o: Observation| o.latency_ms as nat
}

/// The totals of the observations.
pub open spec fn observation_totals(s: Seq<Observation>) -> ObservationTotals {
    ObservationTotals {
        model_calls: counting::sum(s, measure_model_calls()) as u64,
        provider_attempts: counting::sum(s, measure_provider_attempts()) as u64,
        provider_attempts_started: counting::sum(s, measure_provider_attempts_started()) as u64,
        provider_attempts_completed: counting::sum(s, measure_provider_attempts_completed()) as u64,
        active_execution_ms: counting::sum(s, measure_active_execution_ms()) as u64,
        provider_wait_ms: counting::sum(s, measure_provider_wait_ms()) as u64,
        pacing_wait_ms: counting::sum(s, measure_pacing_wait_ms()) as u64,
        retry_wait_ms: counting::sum(s, measure_retry_wait_ms()) as u64,
        input_tokens: counting::sum(s, measure_input_tokens()) as u64,
        output_tokens: counting::sum(s, measure_output_tokens()) as u64,
        total_tokens: counting::sum(s, measure_total_tokens()) as u64,
        total_latency_ms: counting::sum(s, measure_total_latency_ms()) as u128,
    }
}

/// Every total fits its field.
pub open spec fn totals_fit(s: Seq<Observation>) -> bool {
    &&& counting::sum(s, measure_model_calls()) <= u64::MAX
    &&& counting::sum(s, measure_provider_attempts()) <= u64::MAX
    &&& counting::sum(s, measure_provider_attempts_started()) <= u64::MAX
    &&& counting::sum(s, measure_provider_attempts_completed()) <= u64::MAX
    &&& counting::sum(s, measure_active_execution_ms()) <= u64::MAX
    &&& counting::sum(s, measure_provider_wait_ms()) <= u64::MAX
    &&& counting::sum(s, measure_pacing_wait_ms()) <= u64::MAX
    &&& counting::sum(s, measure_retry_wait_ms()) <= u64::MAX
    &&& counting::sum(s, measure_input_tokens()) <= u64::MAX
    &&& counting::sum(s, measure_output_tokens()) <= u64::MAX
    &&& counting::sum(s, measure_total_tokens()) <= u64::MAX
    &&& counting::sum(s, measure_total_latency_ms()) <= u128::MAX
}

/// Each total of `longer` is that of `shorter` plus the measure of `o`.
pub open spec fn totals_extend(shorter: Seq<Observation>, longer: Seq<Observation>, o: Observation) -> bool {
    &&& counting::sum(longer, measure_model_calls()) == counting::sum(shorter, measure_model_calls()) + (measure_model_calls())(o)
    &&& counting::sum(longer, measure_provider_attempts()) == counting::sum(shorter, measure_provider_attempts()) + (measure_provider_attempts())(o)
    &&& counting::sum(longer, measure_provider_attempts_started()) == counting::sum(shorter, measure_provider_attempts_started()) + (measure_provider_attempts_started())(o)
    &&& counting::sum(longer, measure_provider_attempts_completed()) == counting::sum(shorter, measure_provider_attempts_completed()) + (measure_provider_attempts_completed())(o)
    &&& counting::sum(longer, measure_active_execution_ms()) == counting::sum(shorter, measure_active_execution_ms()) + (measure_active_execution_ms())(o)
    &&& counting::sum(longer, measure_provider_wait_ms()) == counting::sum(shorter, measure_provider_wait_ms()) + (measure_provider_wait_ms())(o)
    &&& counting::sum(longer, measure_pacing_wait_ms()) == counting::sum(shorter, measure_pacing_wait_ms()) + (measure_pacing_wait_ms())(o)
    &&& counting::sum(longer, measure_retry_wait_ms()) == counting::sum(shorter, measure_retry_wait_ms()) + (measure_retry_wait_ms())(o)
    &&& counting::sum(longer, measure_input_tokens()) == counting::sum(shorter, measure_input_tokens()) + (measure_input_tokens())(o)
    &&& counting::sum(longer, measure_output_tokens()) == counting::sum(shorter, measure_output_tokens()) + (measure_output_tokens())(o)
    &&& counting::sum(longer, measure_total_tokens()) == counting::sum(shorter, measure_total_tokens()) + (measure_total_tokens())(o)
    &&& counting::sum(longer, measure_total_latency_ms()) == counting::sum(shorter, measure_total_latency_ms()) + (measure_total_latency_ms())(o)
}

proof fn lemma_totals_prefix(s: Seq<Observation>, i: int)
    requires
        0 <= i < s.len(),
        totals_fit(s),
    ensures
        totals_extend(s.subrange(0, i), s.subrange(0, i + 1), s[i]),
        totals_fit(s.subrange(0, i)),
        totals_fit(s.subrange(0, i + 1)),
{
    counting::lemma_sum_prefix(s, measure_model_calls(), i);
    counting::lemma_sum_prefix_monotone(s, measure_model_calls(), i);
    counting::lemma_sum_prefix_monotone(s, measure_model_calls(), i + 1);
    counting::lemma_sum_prefix(s, measure_provider_attempts(), i);
    counting::lemma_sum_prefix_monotone(s, measure_provider_attempts(), i);
    counting::lemma_sum_prefix_monotone(s, measure_provider_attempts(), i + 1);
    counting::lemma_sum_prefix(s, measure_provider_attempts_started(), i);
    counting::lemma_sum_prefix_monotone(s, measure_provider_attempts_started(), i);
    counting::lemma_sum_prefix_monotone(s, measure_provider_attempts_started(), i + 1);
    counting::lemma_sum_prefix(s, measure_provider_attempts_completed(), i);
    counting::lemma_sum_prefix_monotone(s, measure_provider_attempts_completed(), i);
    counting::lemma_sum_prefix_monotone(s, measure_provider_attempts_completed(), i + 1);
    counting::lemma_sum_prefix(s, measure_active_execution_ms(), i);
    counting::lemma_sum_prefix_monotone(s, measure_active_execution_ms(), i);
    counting::lemma_sum_prefix_monotone(s, measure_active_execution_ms(), i + 1);
    counting::lemma_sum_prefix(s, measure_provider_wait_ms(), i);
    counting::lemma_sum_prefix_monotone(s, measure_provider_wait_ms(), i);
    counting::lemma_sum_prefix_monotone(s, measure_provider_wait_ms(), i + 1);
    counting::lemma_sum_prefix(s, measure_pacing_wait_ms(), i);
    counting::lemma_sum_prefix_monotone(s, measure_pacing_wait_ms(), i);
    counting::lemma_sum_prefix_monotone(s, measure_pacing_wait_ms(), i + 1);
    counting::lemma_sum_prefix(s, measure_retry_wait_ms(), i);
    counting::lemma_sum_prefix_monotone(s, measure_retry_wait_ms(), i);
    counting::lemma_sum_prefix_monotone(s, measure_retry_wait_ms(), i + 1);
    counting::lemma_sum_prefix(s, measure_input_tokens(), i);
    counting::lemma_sum_prefix_monotone(s, measure_input_tokens(), i);
    counting::lemma_sum_prefix_monotone(s, measure_input_tokens(), i + 1);
    counting::lemma_sum_prefix(s, measure_output_tokens(), i);
    counting::lemma_sum_prefix_monotone(s, measure_output_tokens(), i);
    counting::lemma_sum_prefix_monotone(s, measure_output_tokens(), i + 1);
    counting::lemma_sum_prefix(s, measure_total_tokens(), i);
    counting::lemma_sum_prefix_monotone(s, measure_total_tokens(), i);
    counting::lemma_sum_prefix_monotone(s, measure_total_tokens(), i + 1);
    counting::lemma_sum_prefix(s, measure_total_latency_ms(), i);
    counting::lemma_sum_prefix_monotone(s, measure_total_latency_ms(), i);
    counting::lemma_sum_prefix_monotone(s, measure_total_latency_ms(), i + 1);
}

/// Totals the per-observation measures.
pub fn total_observations(observations: &[Observation]) -> (r: ObservationTotals)
    requires
        totals_fit(observations@),
    ensures
        r == observation_totals(observations@),
{
    let ghost s = observations@;
    let mut r = ObservationTotals {
        model_calls: 0,
        provider_attempts: 0,
        provider_attempts_started: 0,
        provider_attempts_completed: 0,
        active_execution_ms: 0,
        provider_wait_ms: 0,
        pacing_wait_ms: 0,
        retry_wait_ms: 0,
        input_tokens: 0,
        output_tokens: 0,
        total_tokens: 0,
        total_latency_ms: 0,
    };
    assert(r == observation_totals(s.subrange(0, 0)));
    let mut i: usize = 0;
    while i < observations.len()
        invariant
            s == observations@,
            i <= s.len(),
            totals_fit(s),
            totals_fit(s.subrange(0, i as int)),
            r == observation_totals(s.subrange(0, i as int)),
        decreases s.len() - i,
    {
        proof {
            lemma_totals_prefix(s, i as int);
        }
        let o = &observations[i];
        r.model_calls = r.model_calls + o.model_calls as u64;
        r.provider_attempts = r.provider_attempts + o.provider_attempts as u64;
        r.provider_attempts_started = r.provider_attempts_started + o.execution.provider_attempts_started;
        r.provider_attempts_completed = r.provider_attempts_completed + o.execution.provider_attempts_completed;
        r.active_execution_ms = r.active_execution_ms + o.execution.active_ms;
        r.provider_wait_ms = r.provider_wait_ms + o.execution.wait_ms;
        r.pacing_wait_ms = r.pacing_wait_ms + o.execution.pacing_wait_ms;
        r.retry_wait_ms = r.retry_wait_ms + o.execution.retry_wait_ms;
        r.input_tokens = r.input_tokens + o.usage.input_tokens;
        r.output_tokens = r.output_tokens + o.usage.output_tokens;
        r.total_tokens = r.total_tokens + o.usage.total_tokens;
        r.total_latency_ms = r.total_latency_ms + o.latency_ms;
        i = i + 1;
    }
    proof {
        counting::lemma_full_prefix(s);
    }
    r
}

/// Latency percentiles over all observations and over the successful ones.
#[derive(Debug, Clone, Copy, PartialEq, Eq, Structural)]
pub struct LatencySummary {
    pub latency_p50_ms: Option<u128>,
    pub latency_p95_ms: Option<u128>,
    pub latency_max_ms: Option<u128>,
    pub successful_latency_p50_ms: Option<u128>,
    pub successful_latency_p95_ms: Option<u128>,
    pub successful_latency_max_ms: Option<u128>,
}

/// The calibration metrics; accuracies and the mean latency are the
/// quotients of these counts and totals.
#[derive(Debug)]
pub struct CalibrationMetrics {
    pub cases: usize,
    pub failed_provider_cases: usize,
    pub dispositions: DispositionCounts,
    pub qualifications: QualificationCounts,
    pub totals: ObservationTotals,
    pub latency: LatencySummary,
    pub failure_counts: Vec<(String, usize)>,
}

/// The latencies of the observations, in order.
pub open spec fn latencies(s: Seq<Observation>) -> Seq<u128> {
    s.map_values(|o: Observation| o.latency_ms)
}

/// The latency of a successful observation.
pub open spec fn successful_latency() -> spec_fn(Observation) -> Option<u128> {
    |o: Observation| if !o.failed { Some(o.latency_ms) } else { None }
}

/// The latencies of the successful observations, in order.
pub open spec fn successful_latencies(s: Seq<Observation>) -> Seq<u128> {
    s.filter_map(successful_latency())
}

/// The failure class of an observation, if it failed with one.
pub open spec fn class_of(o: Observation) -> Option<Seq<char>> {
    match o.failure_class {
        Some(c) => Some(c@),
        None => None,
    }
}

/// The failure classes of the observations, in order.
pub open spec fn failure_classes(s: Seq<Observation>) -> Seq<Option<Seq<char>>> {
    s.map_values(|o: Observation| class_of(o))
}

/// The latency summary of the observations.
pub open spec fn latency_summary(s: Seq<Observation>) -> LatencySummary {
    LatencySummary {
        latency_p50_ms: evidence_relevance::percentile_latency_spec(latencies(s), 50),
        latency_p95_ms: evidence_relevance::percentile_latency_spec(latencies(s), 95),
        latency_max_ms: order::max_of_u128(latencies(s)),
        successful_latency_p50_ms: evidence_relevance::percentile_latency_spec(successful_latencies(s), 50),
        successful_latency_p95_ms: evidence_relevance::percentile_latency_spec(successful_latencies(s), 95),
        successful_latency_max_ms: order::max_of_u128(successful_latencies(s)),
    }
}

/// Summarizes the observed cases of a calibration run.
pub fn summarize_metrics(observations: &[Observation]) -> (r: CalibrationMetrics)
    requires
        observations.len() < usize::MAX,
        totals_fit(observations@),
    ensures
        r.cases == observations.len(),
        r.dispositions == disposition_counts(observations@),
        r.failed_provider_cases == observations.len() - r.dispositions.successful_provider_cases,
        r.qualifications == qualification_counts(observations@),
        r.totals == observation_totals(observations@),
        r.latency == latency_summary(observations@),
        tally::well_formed(r.failure_counts@),
        tally::tally_map(r.failure_counts@) == tally::tally_of(failure_classes(observations@)),
{
    let ghost s = observations@;
    let dispositions = count_dispositions(observations);
    let qualifications = count_qualifications(observations);
    let totals = total_observations(observations);
    proof {
        counting::lemma_count_bound(s, succeeded());
    }
    let failed_provider_cases = observations.len() - dispositions.successful_provider_cases;
    let mut all: Vec<u128> = Vec::new();
    let mut successful: Vec<u128> = Vec::new();
    let mut failure_counts: Vec<(String, usize)> = Vec::new();
    proof {
        assert(tally::labels(failure_counts@) =~= Seq::<Seq<char>>::empty());
        assert(tally::tally_map(failure_counts@) =~= Map::<Seq<char>, nat>::empty());
        assert(failure_classes(s.subrange(0, 0)) =~= Seq::<Option<Seq<char>>>::empty());
        assert(successful_latencies(s.subrange(0, 0)) =~= Seq::<u128>::empty());
    }
    let mut i: usize = 0;
    while i < observations.len()
        invariant
            s == observations@,
            i <= s.len(),
            s.len() < usize::MAX,
            all@ == latencies(s.subrange(0, i as int)),
            successful@ == successful_latencies(s.subrange(0, i as int)),
            tally::well_formed(failure_counts@),
            tally::tally_map(failure_counts@) == tally::tally_of(failure_classes(s.subrange(0, i as int))),
        decreases s.len() - i,
    {
        let o = &observations[i];
        let ghost prefix = s.subrange(0, i as int);
        let ghost next = s.subrange(0, i + 1);
        proof {
            assert(next.drop_last() =~= prefix);
            assert(failure_classes(next).drop_last() =~= failure_classes(prefix));
            tally::lemma_counts_bounded(failure_counts@, failure_classes(prefix));
        }
        all.push(o.latency_ms);
        if !o.failed {
            successful.push(o.latency_ms);
        }
        match &o.failure_class {
            Some(class) => {
                tally::tally_add(&mut failure_counts, class);
            },
            None => {},
        }
        i = i + 1;
        proof {
            assert(all@ =~= latencies(next));
            assert(successful@ =~= successful_latencies(next));
        }
    }
    proof {
        counting::lemma_full_prefix(s);
    }
    let latency = LatencySummary {
        latency_p50_ms: percentile_latency(all.as_slice(), 50),
        latency_p95_ms: percentile_latency(all.as_slice(), 95),
        latency_max_ms: order::max_u128(all.as_slice()),
        successful_latency_p50_ms: percentile_latency(successful.as_slice(), 50),
        successful_latency_p95_ms: percentile_latency(successful.as_slice(), 95),
        successful_latency_max_ms: order::max_u128(successful.as_slice()),
    };
    CalibrationMetrics {
        cases: observations.len(),
        failed_provider_cases,
        dispositions,
        qualifications,
        totals,
        latency,
        failure_counts,
    }
}

} // verus!
