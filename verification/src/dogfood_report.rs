//! The product dogfood report: how each arm treated its cases' claims, the
//! harness arms' resolution and recovery counts, the failure provenance of
//! missed grounded targets, and the report's workload and cost totals.
use vstd::prelude::*;
use crate::counting;
use crate::dogfood::{aggregate_target, aggregate_target_spec, ExpectedGroundedMissClass, ExpectedOutcome, TargetAggregate, TargetCase};
use crate::dogfood;
use crate::tally;
use crate::terms;

verus! {

/// What an arm's totals read of one case.
#[derive(Debug, Clone, Copy, PartialEq, Eq, Structural)]
pub struct ArmCase {
    pub grounded_claims: usize,
    pub unsupported_grounded_claims: usize,
    pub abstained: bool,
    pub target: TargetCase,
}

/// An arm's totals; its rates are quotients of these counts.
#[derive(Debug, Clone, Copy, PartialEq, Eq, Structural)]
pub struct ArmAggregate {
    pub cases: usize,
    pub grounded_claims: usize,
    pub unsupported_grounded_claims: usize,
    pub expected_unknown_cases: usize,
    pub correct_abstentions: usize,
    pub missed_insufficiency: usize,
    pub expected_grounded_cases: usize,
    pub false_abstentions: usize,
    pub target: TargetAggregate,
}

/// Grounded claims of a case.
pub open spec fn grounded_of() -> spec_fn(ArmCase) -> nat {
    |c: ArmCase| c.grounded_claims as nat
}

/// Unsupported grounded claims of a case.
pub open spec fn unsupported_of() -> spec_fn(ArmCase) -> nat {
    |c: ArmCase| c.unsupported_grounded_claims as nat
}

/// Cases expected to stay unknown.
pub open spec fn arm_expects_unknown() -> spec_fn(ArmCase) -> bool {
    |c: ArmCase| c.target.expected_outcome == ExpectedOutcome::Unknown
}

/// Unknown cases the arm abstained on.
pub open spec fn abstained_correctly() -> spec_fn(ArmCase) -> bool {
    |c: ArmCase| c.target.expected_outcome == ExpectedOutcome::Unknown && c.abstained
}

/// Cases expected to be grounded.
pub open spec fn arm_expects_grounded() -> spec_fn(ArmCase) -> bool {
    |c: ArmCase| c.target.expected_outcome.expects_grounded_spec()
}

/// Grounded cases the arm abstained on.
pub open spec fn abstained_falsely() -> spec_fn(ArmCase) -> bool {
    |c: ArmCase| c.target.expected_outcome.expects_grounded_spec() && c.abstained
}

/// The target observations of the cases.
pub open spec fn targets_of(s: Seq<ArmCase>) -> Seq<TargetCase> {
    s.map_values(|c: ArmCase| c.target)
}

/// The claim and target totals fit their counters.
pub open spec fn arm_totals_fit(s: Seq<ArmCase>) -> bool {
    &&& counting::sum(s, grounded_of()) <= usize::MAX
    &&& counting::sum(s, unsupported_of()) <= usize::MAX
    &&& counting::sum(targets_of(s), dogfood::targets_on_unknown()) <= usize::MAX
    &&& counting::sum(targets_of(s), dogfood::supported_on_unknown()) <= usize::MAX
}

/// An arm's totals over the cases.
pub open spec fn arm_aggregate(s: Seq<ArmCase>) -> ArmAggregate {
    let unknown = counting::count(s, arm_expects_unknown());
    let correct = counting::count(s, abstained_correctly());
    ArmAggregate {
        cases: s.len() as usize,
        grounded_claims: counting::sum(s, grounded_of()) as usize,
        unsupported_grounded_claims: counting::sum(s, unsupported_of()) as usize,
        expected_unknown_cases: unknown as usize,
        correct_abstentions: correct as usize,
        missed_insufficiency: if unknown >= correct { (unknown - correct) as usize } else { 0 },
        expected_grounded_cases: counting::count(s, arm_expects_grounded()) as usize,
        false_abstentions: counting::count(s, abstained_falsely()) as usize,
        target: aggregate_target_spec(targets_of(s)),
    }
}

/// Totals how an arm treated its cases.
pub fn aggregate_arm(cases: &[ArmCase]) -> (r: ArmAggregate)
    requires
        arm_totals_fit(cases@),
    ensures
        r == arm_aggregate(cases@),
{
    let ghost s = cases@;
    let mut grounded: usize = 0;
    let mut unsupported: usize = 0;
    let mut unknown: usize = 0;
    let mut correct: usize = 0;
    let mut expected_grounded: usize = 0;
    let mut false_abstentions: usize = 0;
    let mut targets: Vec<TargetCase> = Vec::new();
    let mut i: usize = 0;
    while i < cases.len()
        invariant
            s == cases@,
            i <= s.len(),
            arm_totals_fit(s),
            grounded == counting::sum(s.subrange(0, i as int), grounded_of()),
            unsupported == counting::sum(s.subrange(0, i as int), unsupported_of()),
            unknown == counting::count(s.subrange(0, i as int), arm_expects_unknown()),
            correct == counting::count(s.subrange(0, i as int), abstained_correctly()),
            expected_grounded == counting::count(s.subrange(0, i as int), arm_expects_grounded()),
            false_abstentions == counting::count(s.subrange(0, i as int), abstained_falsely()),
            targets@ == targets_of(s.subrange(0, i as int)),
        decreases s.len() - i,
    {
        proof {
            counting::lemma_sum_prefix(s, grounded_of(), i as int);
            counting::lemma_sum_prefix(s, unsupported_of(), i as int);
            counting::lemma_sum_prefix_monotone(s, grounded_of(), i + 1);
            counting::lemma_sum_prefix_monotone(s, unsupported_of(), i + 1);
            counting::lemma_count_prefix(s, arm_expects_unknown(), i as int);
            counting::lemma_count_prefix(s, abstained_correctly(), i as int);
            counting::lemma_count_prefix(s, arm_expects_grounded(), i as int);
            counting::lemma_count_prefix(s, abstained_falsely(), i as int);
        }
        let c = cases[i];
        grounded = grounded + c.grounded_claims;
        unsupported = unsupported + c.unsupported_grounded_claims;
        if c.target.expected_outcome == ExpectedOutcome::Unknown {
            unknown = unknown + 1;
            if c.abstained {
                correct = correct + 1;
            }
        }
        if c.target.expected_outcome.expects_grounded() {
            expected_grounded = expected_grounded + 1;
            if c.abstained {
                false_abstentions = false_abstentions + 1;
            }
        }
        targets.push(c.target);
        i = i + 1;
        assert(targets@ =~= targets_of(s.subrange(0, i as int)));
    }
    proof {
        counting::lemma_full_prefix(s);
    }
    ArmAggregate {
        cases: cases.len(),
        grounded_claims: grounded,
        unsupported_grounded_claims: unsupported,
        expected_unknown_cases: unknown,
        correct_abstentions: correct,
        missed_insufficiency: unknown.saturating_sub(correct),
        expected_grounded_cases: expected_grounded,
        false_abstentions,
        target: aggregate_target(targets.as_slice()),
    }
}

// ---------------------------------------------------------------------------
// Failure provenance.
// ---------------------------------------------------------------------------

/// What the provenance totals read of one expected target's trace.
#[derive(Debug, Clone, Copy, PartialEq, Eq, Structural)]
pub struct ProvenanceTrace {
    pub expected_grounded: bool,
    pub exposed_exact_grounded_target: bool,
    pub canonical_recovery_eligible: bool,
    pub miss_class: Option<ExpectedGroundedMissClass>,
}

/// The provenance totals of the missed grounded targets.
#[derive(Debug)]
pub struct FailureProvenanceAggregate {
    pub expected_grounded_targets: usize,
    pub missed_grounded_targets: usize,
    pub classified_misses: usize,
    pub canonical_recovery_eligible: usize,
    pub miss_classes: Vec<(String, usize)>,
}

/// Traces of targets expected to be grounded.
pub open spec fn trace_expected() -> spec_fn(ProvenanceTrace) -> bool {
    |t: ProvenanceTrace| t.expected_grounded
}

/// Expected grounded targets that were not exposed.
pub open spec fn trace_missed() -> spec_fn(ProvenanceTrace) -> bool {
    |t: ProvenanceTrace| t.expected_grounded && !t.exposed_exact_grounded_target
}

/// Missed targets with a miss class.
pub open spec fn trace_classified() -> spec_fn(ProvenanceTrace) -> bool {
    |t: ProvenanceTrace| t.expected_grounded && !t.exposed_exact_grounded_target && t.miss_class is Some
}

/// Missed targets eligible for canonical recovery.
pub open spec fn trace_recoverable() -> spec_fn(ProvenanceTrace) -> bool {
    |t: ProvenanceTrace| t.expected_grounded && !t.exposed_exact_grounded_target && t.canonical_recovery_eligible
}

/// The report name of a missed target's class, if it is a classified miss.
pub open spec fn missed_class_name(t: ProvenanceTrace) -> Option<Seq<char>> {
    if t.expected_grounded && !t.exposed_exact_grounded_target {
        match t.miss_class {
            Some(c) => Some(c.name_spec()),
            None => None,
        }
    } else {
        None
    }
}

/// The miss-class names of the traces, in order.
pub open spec fn missed_class_names(s: Seq<ProvenanceTrace>) -> Seq<Option<Seq<char>>> {
    s.map_values(|t: ProvenanceTrace| missed_class_name(t))
}

/// Totals the failure provenance of an arm's traces.
pub fn aggregate_failure_provenance(traces: &[ProvenanceTrace]) -> (r: FailureProvenanceAggregate)
    requires
        traces.len() < usize::MAX,
    ensures
        r.expected_grounded_targets == counting::count(traces@, trace_expected()),
        r.missed_grounded_targets == counting::count(traces@, trace_missed()),
        r.classified_misses == counting::count(traces@, trace_classified()),
        r.canonical_recovery_eligible == counting::count(traces@, trace_recoverable()),
        tally::well_formed(r.miss_classes@),
        tally::tally_map(r.miss_classes@) == tally::tally_of(missed_class_names(traces@)),
{
    let ghost s = traces@;
    let mut expected: usize = 0;
    let mut missed: usize = 0;
    let mut classified: usize = 0;
    let mut recoverable: usize = 0;
    let mut classes: Vec<(String, usize)> = Vec::new();
    proof {
        assert(tally::labels(classes@) =~= Seq::<Seq<char>>::empty());
        assert(tally::tally_map(classes@) =~= Map::<Seq<char>, nat>::empty());
        assert(missed_class_names(s.subrange(0, 0)) =~= Seq::<Option<Seq<char>>>::empty());
    }
    let mut i: usize = 0;
    while i < traces.len()
        invariant
            s == traces@,
            i <= s.len(),
            s.len() < usize::MAX,
            expected == counting::count(s.subrange(0, i as int), trace_expected()),
            missed == counting::count(s.subrange(0, i as int), trace_missed()),
            classified == counting::count(s.subrange(0, i as int), trace_classified()),
            recoverable == counting::count(s.subrange(0, i as int), trace_recoverable()),
            tally::well_formed(classes@),
            tally::tally_map(classes@) == tally::tally_of(missed_class_names(s.subrange(0, i as int))),
        decreases s.len() - i,
    {
        let ghost prefix = s.subrange(0, i as int);
        let ghost next = s.subrange(0, i + 1);
        proof {
            counting::lemma_count_prefix(s, trace_expected(), i as int);
            counting::lemma_count_prefix(s, trace_missed(), i as int);
            counting::lemma_count_prefix(s, trace_classified(), i as int);
            counting::lemma_count_prefix(s, trace_recoverable(), i as int);
            assert(missed_class_names(next).drop_last() =~= missed_class_names(prefix));
            tally::lemma_counts_bounded(classes@, missed_class_names(prefix));
        }
        let t = traces[i];
        if t.expected_grounded {
            expected = expected + 1;
            if !t.exposed_exact_grounded_target {
                missed = missed + 1;
                if t.canonical_recovery_eligible {
                    recoverable = recoverable + 1;
                }
                match t.miss_class {
                    Some(c) => {
                        classified = classified + 1;
                        let name = c.as_str().to_owned();
                        tally::tally_add(&mut classes, &name);
                    },
                    None => {},
                }
            }
        }
        i = i + 1;
    }
    proof {
        counting::lemma_full_prefix(s);
    }
    FailureProvenanceAggregate {
        expected_grounded_targets: expected,
        missed_grounded_targets: missed,
        classified_misses: classified,
        canonical_recovery_eligible: recoverable,
        miss_classes: classes,
    }
}

// ---------------------------------------------------------------------------
// Harness arms.
// ---------------------------------------------------------------------------

/// What a harness arm's totals read of one case.
#[derive(Debug, Clone, Copy, PartialEq, Eq, Structural)]
pub struct HarnessCase {
    pub arm: ArmCase,
    pub resolution_attempts: usize,
    pub resolution_succeeded: bool,
    pub canonical_recovery_used: bool,
    pub target_scoped_partial_used: bool,
}

/// A harness arm's totals, without its mean claim coverage and rates.
#[derive(Debug)]
pub struct HarnessAggregate {
    pub arm: ArmAggregate,
    pub resolution_attempted_cases: usize,
    pub resolution_success_cases: usize,
    pub canonical_recovery_cases: usize,
    pub target_scoped_partial_cases: usize,
    pub failure_provenance: FailureProvenanceAggregate,
}

/// Cases that attempted a resolution.
pub open spec fn resolution_attempted() -> spec_fn(HarnessCase) -> bool {
    |c: HarnessCase| c.resolution_attempts > 0
}

/// Cases whose resolution succeeded.
pub open spec fn resolution_succeeded() -> spec_fn(HarnessCase) -> bool {
    |c: HarnessCase| c.resolution_succeeded
}

/// Cases that used canonical recovery.
pub open spec fn recovery_used() -> spec_fn(HarnessCase) -> bool {
    |c: HarnessCase| c.canonical_recovery_used
}

/// Cases that used a target-scoped partial answer.
pub open spec fn partial_used() -> spec_fn(HarnessCase) -> bool {
    |c: HarnessCase| c.target_scoped_partial_used
}

/// The arm observations of the cases.
pub open spec fn arm_cases_of(s: Seq<HarnessCase>) -> Seq<ArmCase> {
    s.map_values(|c: HarnessCase| c.arm)
}

/// Totals a harness arm: its arm totals, resolution and recovery counts, and
/// the failure provenance of its traces (those of every case, in order).
pub fn aggregate_harness(cases: &[HarnessCase], traces: &[ProvenanceTrace]) -> (r: HarnessAggregate)
    requires
        arm_totals_fit(arm_cases_of(cases@)),
        traces.len() < usize::MAX,
    ensures
        r.arm == arm_aggregate(arm_cases_of(cases@)),
        r.resolution_attempted_cases == counting::count(cases@, resolution_attempted()),
        r.resolution_success_cases == counting::count(cases@, resolution_succeeded()),
        r.canonical_recovery_cases == counting::count(cases@, recovery_used()),
        r.target_scoped_partial_cases == counting::count(cases@, partial_used()),
        r.failure_provenance.expected_grounded_targets == counting::count(traces@, trace_expected()),
        r.failure_provenance.missed_grounded_targets == counting::count(traces@, trace_missed()),
        r.failure_provenance.classified_misses == counting::count(traces@, trace_classified()),
        r.failure_provenance.canonical_recovery_eligible == counting::count(traces@, trace_recoverable()),
        tally::well_formed(r.failure_provenance.miss_classes@),
        tally::tally_map(r.failure_provenance.miss_classes@) == tally::tally_of(missed_class_names(traces@)),
{
    let ghost s = cases@;
    let mut arms: Vec<ArmCase> = Vec::new();
    let mut attempted: usize = 0;
    let mut succeeded: usize = 0;
    let mut recovered: usize = 0;
    let mut partial: usize = 0;
    let mut i: usize = 0;
    while i < cases.len()
        invariant
            s == cases@,
            i <= s.len(),
            arms@ == arm_cases_of(s.subrange(0, i as int)),
            attempted == counting::count(s.subrange(0, i as int), resolution_attempted()),
            succeeded == counting::count(s.subrange(0, i as int), resolution_succeeded()),
            recovered == counting::count(s.subrange(0, i as int), recovery_used()),
            partial == counting::count(s.subrange(0, i as int), partial_used()),
        decreases s.len() - i,
    {
        proof {
            counting::lemma_count_prefix(s, resolution_attempted(), i as int);
            counting::lemma_count_prefix(s, resolution_succeeded(), i as int);
            counting::lemma_count_prefix(s, recovery_used(), i as int);
            counting::lemma_count_prefix(s, partial_used(), i as int);
        }
        let c = cases[i];
        if c.resolution_attempts > 0 {
            attempted = attempted + 1;
        }
        if c.resolution_succeeded {
            succeeded = succeeded + 1;
        }
        if c.canonical_recovery_used {
            recovered = recovered + 1;
        }
        if c.target_scoped_partial_used {
            partial = partial + 1;
        }
        arms.push(c.arm);
        i = i + 1;
        assert(arms@ =~= arm_cases_of(s.subrange(0, i as int)));
    }
    proof {
        counting::lemma_full_prefix(s);
    }
    HarnessAggregate {
        arm: aggregate_arm(arms.as_slice()),
        resolution_attempted_cases: attempted,
        resolution_success_cases: succeeded,
        canonical_recovery_cases: recovered,
        target_scoped_partial_cases: partial,
        failure_provenance: aggregate_failure_provenance(traces),
    }
}

// ---------------------------------------------------------------------------
// Workloads and costs.
// ---------------------------------------------------------------------------

/// What the report's workload and cost totals read of one case.
#[derive(Debug)]
pub struct ReportCase {
    pub workload_class: String,
    pub capability_family: String,
    pub raw_total_tokens: Option<u64>,
    pub harness_total_tokens: Option<u64>,
    pub sufficiency_total_tokens: Option<u64>,
    pub raw_latency_ms: u128,
    pub harness_latency_ms: u128,
    pub sufficiency_latency_ms: u128,
}

/// The report's workload classes, capability counts and cost totals; the
/// overhead ratios are their quotients.
#[derive(Debug)]
pub struct ReportTotals {
    pub workload_classes: Vec<String>,
    pub capability_case_counts: Vec<(String, usize)>,
    pub raw_total_tokens: u64,
    pub harness_total_tokens: u64,
    pub sufficiency_total_tokens: u64,
    pub raw_latency_ms: u128,
    pub harness_latency_ms: u128,
    pub sufficiency_latency_ms: u128,
}

/// A reported token count, zero when unknown.
pub open spec fn known(n: Option<u64>) -> nat {
    match n {
        Some(v) => v as nat,
        None => 0,
    }
}

/// Raw arm tokens of a case.
pub open spec fn raw_tokens() -> spec_fn(ReportCase) -> nat {
    |c: ReportCase| known(c.raw_total_tokens)
}

/// Harness arm tokens of a case.
pub open spec fn harness_tokens() -> spec_fn(ReportCase) -> nat {
    |c: ReportCase| known(c.harness_total_tokens)
}

/// Sufficiency arm tokens of a case.
pub open spec fn sufficiency_tokens() -> spec_fn(ReportCase) -> nat {
    |c: ReportCase| known(c.sufficiency_total_tokens)
}

/// Raw arm latency of a case.
pub open spec fn raw_latency() -> spec_fn(ReportCase) -> nat {
    |c: ReportCase| c.raw_latency_ms as nat
}

/// Harness arm latency of a case.
pub open spec fn harness_latency() -> spec_fn(ReportCase) -> nat {
    |c: ReportCase| c.harness_latency_ms as nat
}

/// Sufficiency arm latency of a case.
pub open spec fn sufficiency_latency() -> spec_fn(ReportCase) -> nat {
    |c: ReportCase| c.sufficiency_latency_ms as nat
}

/// Every cost total fits its counter.
pub open spec fn costs_fit(s: Seq<ReportCase>) -> bool {
    &&& counting::sum(s, raw_tokens()) <= u64::MAX
    &&& counting::sum(s, harness_tokens()) <= u64::MAX
    &&& counting::sum(s, sufficiency_tokens()) <= u64::MAX
    &&& counting::sum(s, raw_latency()) <= u128::MAX
    &&& counting::sum(s, harness_latency()) <= u128::MAX
    &&& counting::sum(s, sufficiency_latency()) <= u128::MAX
}

/// The workload classes of the cases.
pub open spec fn workload_classes_of(s: Seq<ReportCase>) -> Seq<Seq<char>> {
    s.map_values(|c: ReportCase| c.workload_class@)
}

/// The capability families of the cases, each present.
pub open spec fn families_of(s: Seq<ReportCase>) -> Seq<Option<Seq<char>>> {
    s.map_values(|c: ReportCase| Some(c.capability_family@))
}

/// The workload classes in ascending order, the number of cases of each
/// capability family, and the token and latency totals of each arm.
pub fn report_totals(cases: &[ReportCase]) -> (r: ReportTotals)
    requires
        cases.len() < usize::MAX,
        costs_fit(cases@),
    ensures
        terms::strictly_ascending(terms::strings_view(r.workload_classes@)),
        terms::strings_view(r.workload_classes@).to_set() == workload_classes_of(cases@).to_set(),
        tally::well_formed(r.capability_case_counts@),
        tally::tally_map(r.capability_case_counts@) == tally::tally_of(families_of(cases@)),
        r.raw_total_tokens == counting::sum(cases@, raw_tokens()),
        r.harness_total_tokens == counting::sum(cases@, harness_tokens()),
        r.sufficiency_total_tokens == counting::sum(cases@, sufficiency_tokens()),
        r.raw_latency_ms == counting::sum(cases@, raw_latency()),
        r.harness_latency_ms == counting::sum(cases@, harness_latency()),
        r.sufficiency_latency_ms == counting::sum(cases@, sufficiency_latency()),
{
    let ghost s = cases@;
    let mut classes: Vec<String> = Vec::new();
    let mut families: Vec<(String, usize)> = Vec::new();
    let mut t = ReportTotals {
        workload_classes: Vec::new(),
        capability_case_counts: Vec::new(),
        raw_total_tokens: 0,
        harness_total_tokens: 0,
        sufficiency_total_tokens: 0,
        raw_latency_ms: 0,
        harness_latency_ms: 0,
        sufficiency_latency_ms: 0,
    };
    proof {
        assert(terms::strings_view(classes@) =~= Seq::<Seq<char>>::empty());
        assert(workload_classes_of(s.subrange(0, 0)) =~= Seq::<Seq<char>>::empty());
        assert(terms::strings_view(classes@).to_set() =~= Set::<Seq<char>>::empty());
        assert(workload_classes_of(s.subrange(0, 0)).to_set() =~= Set::<Seq<char>>::empty());
        assert(tally::labels(families@) =~= Seq::<Seq<char>>::empty());
        assert(tally::tally_map(families@) =~= Map::<Seq<char>, nat>::empty());
        assert(families_of(s.subrange(0, 0)) =~= Seq::<Option<Seq<char>>>::empty());
    }
    let mut i: usize = 0;
    while i < cases.len()
        invariant
            s == cases@,
            i <= s.len(),
            s.len() < usize::MAX,
            costs_fit(s),
            terms::strictly_ascending(terms::strings_view(classes@)),
            terms::strings_view(classes@).to_set() == workload_classes_of(s.subrange(0, i as int)).to_set(),
            tally::well_formed(families@),
            tally::tally_map(families@) == tally::tally_of(families_of(s.subrange(0, i as int))),
            t.raw_total_tokens == counting::sum(s.subrange(0, i as int), raw_tokens()),
            t.harness_total_tokens == counting::sum(s.subrange(0, i as int), harness_tokens()),
            t.sufficiency_total_tokens == counting::sum(s.subrange(0, i as int), sufficiency_tokens()),
            t.raw_latency_ms == counting::sum(s.subrange(0, i as int), raw_latency()),
            t.harness_latency_ms == counting::sum(s.subrange(0, i as int), harness_latency()),
            t.sufficiency_latency_ms == counting::sum(s.subrange(0, i as int), sufficiency_latency()),
        decreases s.len() - i,
    {
        let ghost prefix = s.subrange(0, i as int);
        let ghost next = s.subrange(0, i + 1);
        proof {
            counting::lemma_sum_prefix(s, raw_tokens(), i as int);
            counting::lemma_sum_prefix(s, harness_tokens(), i as int);
            counting::lemma_sum_prefix(s, sufficiency_tokens(), i as int);
            counting::lemma_sum_prefix(s, raw_latency(), i as int);
            counting::lemma_sum_prefix(s, harness_latency(), i as int);
            counting::lemma_sum_prefix(s, sufficiency_latency(), i as int);
            counting::lemma_sum_prefix_monotone(s, raw_tokens(), i + 1);
            counting::lemma_sum_prefix_monotone(s, harness_tokens(), i + 1);
            counting::lemma_sum_prefix_monotone(s, sufficiency_tokens(), i + 1);
            counting::lemma_sum_prefix_monotone(s, raw_latency(), i + 1);
            counting::lemma_sum_prefix_monotone(s, harness_latency(), i + 1);
            counting::lemma_sum_prefix_monotone(s, sufficiency_latency(), i + 1);
            assert(families_of(next).drop_last() =~= families_of(prefix));
            tally::lemma_counts_bounded(families@, families_of(prefix));
            assert(workload_classes_of(next) =~= workload_classes_of(prefix).push(s[i as int].workload_class@));
            vstd::seq_lib::seq_to_set_distributes_over_add(workload_classes_of(prefix), seq![s[i as int].workload_class@]);
            assert(workload_classes_of(prefix).push(s[i as int].workload_class@) =~= workload_classes_of(prefix)
                + seq![s[i as int].workload_class@]);
            assert forall|y: Seq<char>| #[trigger] seq![s[i as int].workload_class@].to_set().contains(y)
                <==> y == s[i as int].workload_class@ by {
                if y == s[i as int].workload_class@ {
                    assert(seq![s[i as int].workload_class@][0] == y);
                }
            }
        }
        let c = &cases[i];
        terms::insert_sorted(&mut classes, c.workload_class.clone());
        tally::tally_add(&mut families, &c.capability_family);
        let raw = match c.raw_total_tokens {
            Some(n) => n,
            None => 0,
        };
        let harness = match c.harness_total_tokens {
            Some(n) => n,
            None => 0,
        };
        let sufficiency = match c.sufficiency_total_tokens {
            Some(n) => n,
            None => 0,
        };
        t.raw_total_tokens = t.raw_total_tokens + raw;
        t.harness_total_tokens = t.harness_total_tokens + harness;
        t.sufficiency_total_tokens = t.sufficiency_total_tokens + sufficiency;
        t.raw_latency_ms = t.raw_latency_ms + c.raw_latency_ms;
        t.harness_latency_ms = t.harness_latency_ms + c.harness_latency_ms;
        t.sufficiency_latency_ms = t.sufficiency_latency_ms + c.sufficiency_latency_ms;
        i = i + 1;
        proof {
            assert(workload_classes_of(s.subrange(0, i as int)).to_set() =~= workload_classes_of(prefix).to_set().insert(
                s[i - 1].workload_class@,
            ));
        }
    }
    proof {
        counting::lemma_full_prefix(s);
    }
    t.workload_classes = classes;
    t.capability_case_counts = families;
    t
}

} // verus!
