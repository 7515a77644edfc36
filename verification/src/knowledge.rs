//! The MCP knowledge benchmark: its typed-fact cases, how a sample passes, and
//! the benchmark totals.
use vstd::prelude::*;
use crate::counting;
use crate::order;

verus! {

/// The identity of the benchmark report's schema.
pub const REPORT_SCHEMA: &'static str = "reason-mcp-knowledge-benchmark-v1";

/// The harness verdict on a case's fact.
#[derive(Debug, Clone, Copy, PartialEq, Eq, Structural)]
pub enum Verdict {
    Accept,
    Reject,
    Unknown,
}

/// The verdict a case should end with.
#[derive(Debug, Clone, Copy, PartialEq, Eq, Structural)]
pub enum ExpectedOutcome {
    Accept,
    Reject,
    Unknown,
}

impl ExpectedOutcome {
    /// The verdict this outcome stands for.
    pub open spec fn verdict_spec(self) -> Verdict {
        match self {
            ExpectedOutcome::Accept => Verdict::Accept,
            ExpectedOutcome::Reject => Verdict::Reject,
            ExpectedOutcome::Unknown => Verdict::Unknown,
        }
    }

    /// The verdict this outcome stands for.
    pub fn verdict(self) -> (r: Verdict)
        ensures
            r == self.verdict_spec(),
    {
        match self {
            ExpectedOutcome::Accept => Verdict::Accept,
            ExpectedOutcome::Reject => Verdict::Reject,
            ExpectedOutcome::Unknown => Verdict::Unknown,
        }
    }
}

/// One benchmark case: a typed fact about a Wikidata entity.
#[derive(Debug, Clone, Copy)]
pub struct CaseSpec {
    pub id: &'static str,
    pub workload: &'static str,
    pub entity_id: &'static str,
    pub property_id: &'static str,
    pub value_kind: &'static str,
    pub fact_key: &'static str,
    pub target_value: &'static str,
    pub expected: ExpectedOutcome,
}

/// A case by its contents: id, workload, entity, property, value kind, fact
/// key, target value and expected outcome.
pub open spec fn case_view(c: CaseSpec) -> (
    Seq<char>,
    Seq<char>,
    Seq<char>,
    Seq<char>,
    Seq<char>,
    Seq<char>,
    Seq<char>,
    ExpectedOutcome,
) {
    (c.id@, c.workload@, c.entity_id@, c.property_id@, c.value_kind@, c.fact_key@, c.target_value@, c.expected)
}

/// Every field of each benchmark case, in order.
pub open spec fn case_table() -> Seq<
    (Seq<char>, Seq<char>, Seq<char>, Seq<char>, Seq<char>, Seq<char>, Seq<char>, ExpectedOutcome),
> {
    seq![
        ("tokyo_country"@, "entity_relation"@, "Q1490"@, "P17"@, "entity"@, "tokyo.country"@, "Q17"@, ExpectedOutcome::Accept),
        ("paris_country"@, "entity_relation"@, "Q90"@, "P17"@, "entity"@, "paris.country"@, "Q142"@, ExpectedOutcome::Accept),
        ("germany_capital"@, "entity_relation"@, "Q183"@, "P36"@, "entity"@, "germany.capital"@, "Q64"@, ExpectedOutcome::Accept),
        ("japan_continent"@, "entity_relation"@, "Q17"@, "P30"@, "entity"@, "japan.continent"@, "Q48"@, ExpectedOutcome::Accept),
        ("mount_fuji_elevation_source_value"@, "quantity"@, "Q39231"@, "P2044"@, "quantity"@, "mount_fuji.elevation_m"@, "3777.24"@, ExpectedOutcome::Accept),
        ("mount_fuji_elevation_disagreement"@, "quantity_contradiction"@, "Q39231"@, "P2044"@, "quantity"@, "mount_fuji.elevation_m"@, "3776"@, ExpectedOutcome::Reject),
        ("tokyo_wrong_country"@, "contradiction"@, "Q1490"@, "P17"@, "entity"@, "tokyo.country"@, "Q142"@, ExpectedOutcome::Reject),
        ("tokyo_missing_date_of_death"@, "missing_fact"@, "Q1490"@, "P570"@, "time"@, "tokyo.date_of_death"@, "+2020-01-01T00:00:00Z"@, ExpectedOutcome::Unknown),
    ]
}

/// The benchmark cases.
pub fn cases() -> (r: [CaseSpec; 8])
    ensures
        r@.len() == 8,
        forall|i: int| 0 <= i < 8 ==> case_view(#[trigger] r@[i]) == case_table()[i],
{
    let r = [
        CaseSpec { id: "tokyo_country", workload: "entity_relation", entity_id: "Q1490", property_id: "P17", value_kind: "entity", fact_key: "tokyo.country", target_value: "Q17", expected: ExpectedOutcome::Accept },
        CaseSpec { id: "paris_country", workload: "entity_relation", entity_id: "Q90", property_id: "P17", value_kind: "entity", fact_key: "paris.country", target_value: "Q142", expected: ExpectedOutcome::Accept },
        CaseSpec { id: "germany_capital", workload: "entity_relation", entity_id: "Q183", property_id: "P36", value_kind: "entity", fact_key: "germany.capital", target_value: "Q64", expected: ExpectedOutcome::Accept },
        CaseSpec { id: "japan_continent", workload: "entity_relation", entity_id: "Q17", property_id: "P30", value_kind: "entity", fact_key: "japan.continent", target_value: "Q48", expected: ExpectedOutcome::Accept },
        CaseSpec { id: "mount_fuji_elevation_source_value", workload: "quantity", entity_id: "Q39231", property_id: "P2044", value_kind: "quantity", fact_key: "mount_fuji.elevation_m", target_value: "3777.24", expected: ExpectedOutcome::Accept },
        CaseSpec { id: "mount_fuji_elevation_disagreement", workload: "quantity_contradiction", entity_id: "Q39231", property_id: "P2044", value_kind: "quantity", fact_key: "mount_fuji.elevation_m", target_value: "3776", expected: ExpectedOutcome::Reject },
        CaseSpec { id: "tokyo_wrong_country", workload: "contradiction", entity_id: "Q1490", property_id: "P17", value_kind: "entity", fact_key: "tokyo.country", target_value: "Q142", expected: ExpectedOutcome::Reject },
        CaseSpec { id: "tokyo_missing_date_of_death", workload: "missing_fact", entity_id: "Q1490", property_id: "P570", value_kind: "time", fact_key: "tokyo.date_of_death", target_value: "+2020-01-01T00:00:00Z", expected: ExpectedOutcome::Unknown },
    ];
    assert(r@.len() == 8);
    r
}

/// One benchmark sample: a case in a trial, with the verdicts it went through.
#[derive(Debug, Clone, Copy, PartialEq, Eq, Structural)]
pub struct Sample {
    pub expected: ExpectedOutcome,
    pub initial_verdict: Verdict,
    pub final_verdict: Verdict,
    pub calls: u64,
    pub elapsed_ms: u64,
}

/// A sample passes when it ends with the verdict its case expects.
pub fn passed(sample: &Sample) -> (r: bool)
    ensures
        r == (sample.final_verdict == sample.expected.verdict_spec()),
{
    sample.final_verdict == sample.expected.verdict()
}

/// The benchmark totals, without rates and the mean latency.
#[derive(Debug, Clone, Copy, PartialEq, Eq, Structural)]
pub struct Aggregate {
    pub samples: usize,
    pub passed_samples: usize,
    pub expected_accept_samples: usize,
    pub verified_recoveries: usize,
    pub correct_rejections: usize,
    pub correct_unknowns: usize,
    pub false_acceptances: usize,
    pub total_calls: u64,
    pub p50_elapsed_ms: u64,
    pub p95_elapsed_ms: u64,
    pub max_elapsed_ms: u64,
}

/// Samples that ended as expected.
pub open spec fn sample_passed() -> spec_fn(Sample) -> bool {
    |s: Sample| s.final_verdict == s.expected.verdict_spec()
}

/// Samples expected to be accepted.
pub open spec fn expects_accept() -> spec_fn(Sample) -> bool {
    |s: Sample| s.expected == ExpectedOutcome::Accept
}

/// Expected acceptances that began unknown and ended accepted.
pub open spec fn recovered() -> spec_fn(Sample) -> bool {
    |s: Sample| s.expected == ExpectedOutcome::Accept && s.initial_verdict == Verdict::Unknown && s.final_verdict == Verdict::Accept
}

/// Expected rejections that were rejected.
pub open spec fn rejected_correctly() -> spec_fn(Sample) -> bool {
    |s: Sample| s.expected == ExpectedOutcome::Reject && s.final_verdict == Verdict::Reject
}

/// Expected unknowns that stayed unknown.
pub open spec fn unknown_correctly() -> spec_fn(Sample) -> bool {
    |s: Sample| s.expected == ExpectedOutcome::Unknown && s.final_verdict == Verdict::Unknown
}

/// Samples accepted although acceptance was not expected.
pub open spec fn accepted_falsely() -> spec_fn(Sample) -> bool {
    |s: Sample| s.expected != ExpectedOutcome::Accept && s.final_verdict == Verdict::Accept
}

/// Calls of a sample.
pub open spec fn calls_of() -> spec_fn(Sample) -> nat {
    |s: Sample| s.calls as nat
}

/// The latencies of the samples, in order.
pub open spec fn latencies(samples: Seq<Sample>) -> Seq<u64> {
    samples.map_values(|s: Sample| s.elapsed_ms)
}

/// The benchmark totals of the samples.
pub open spec fn aggregate_spec(samples: Seq<Sample>) -> Aggregate {
    Aggregate {
        samples: samples.len() as usize,
        passed_samples: counting::count(samples, sample_passed()) as usize,
        expected_accept_samples: counting::count(samples, expects_accept()) as usize,
        verified_recoveries: counting::count(samples, recovered()) as usize,
        correct_rejections: counting::count(samples, rejected_correctly()) as usize,
        correct_unknowns: counting::count(samples, unknown_correctly()) as usize,
        false_acceptances: counting::count(samples, accepted_falsely()) as usize,
        total_calls: counting::sum(samples, calls_of()) as u64,
        p50_elapsed_ms: order::benchmark_percentile(latencies(samples), 50),
        p95_elapsed_ms: order::benchmark_percentile(latencies(samples), 95),
        max_elapsed_ms: match order::max_of(latencies(samples)) {
            Some(m) => m,
            None => 0,
        },
    }
}

/// The summary percentile of the latencies.
pub fn percentile(values: &[u64], rank_percent: usize) -> (r: u64)
    requires
        values.len() == 0 || (values.len() - 1) * rank_percent + 99 <= usize::MAX,
    ensures
        r == order::benchmark_percentile(values@, rank_percent),
{
    order::benchmark_percentile_of(values, rank_percent)
}

/// Totals the samples.
pub fn aggregate(samples: &[Sample]) -> (r: Aggregate)
    requires
        counting::sum(samples@, calls_of()) <= u64::MAX,
        samples.len() * 100 <= usize::MAX,
    ensures
        r == aggregate_spec(samples@),
{
    let ghost s = samples@;
    let mut r = Aggregate {
        samples: samples.len(),
        passed_samples: 0,
        expected_accept_samples: 0,
        verified_recoveries: 0,
        correct_rejections: 0,
        correct_unknowns: 0,
        false_acceptances: 0,
        total_calls: 0,
        p50_elapsed_ms: 0,
        p95_elapsed_ms: 0,
        max_elapsed_ms: 0,
    };
    let mut elapsed: Vec<u64> = Vec::new();
    let mut i: usize = 0;
    while i < samples.len()
        invariant
            s == samples@,
            i <= s.len(),
            r.samples == s.len(),
            counting::sum(s, calls_of()) <= u64::MAX,
            elapsed@ == latencies(s.subrange(0, i as int)),
            r.passed_samples == counting::count(s.subrange(0, i as int), sample_passed()),
            r.expected_accept_samples == counting::count(s.subrange(0, i as int), expects_accept()),
            r.verified_recoveries == counting::count(s.subrange(0, i as int), recovered()),
            r.correct_rejections == counting::count(s.subrange(0, i as int), rejected_correctly()),
            r.correct_unknowns == counting::count(s.subrange(0, i as int), unknown_correctly()),
            r.false_acceptances == counting::count(s.subrange(0, i as int), accepted_falsely()),
            r.total_calls == counting::sum(s.subrange(0, i as int), calls_of()),
            r.p50_elapsed_ms == 0,
            r.p95_elapsed_ms == 0,
            r.max_elapsed_ms == 0,
        decreases s.len() - i,
    {
        let c = samples[i];
        proof {
            counting::lemma_count_prefix(s, sample_passed(), i as int);
            counting::lemma_count_prefix(s, expects_accept(), i as int);
            counting::lemma_count_prefix(s, recovered(), i as int);
            counting::lemma_count_prefix(s, rejected_correctly(), i as int);
            counting::lemma_count_prefix(s, unknown_correctly(), i as int);
            counting::lemma_count_prefix(s, accepted_falsely(), i as int);
            counting::lemma_sum_prefix(s, calls_of(), i as int);
            counting::lemma_sum_prefix_monotone(s, calls_of(), i + 1);
        }
        if passed(&c) {
            r.passed_samples = r.passed_samples + 1;
        }
        if c.expected == ExpectedOutcome::Accept {
            r.expected_accept_samples = r.expected_accept_samples + 1;
            if c.initial_verdict == Verdict::Unknown && c.final_verdict == Verdict::Accept {
                r.verified_recoveries = r.verified_recoveries + 1;
            }
        }
        if c.expected == ExpectedOutcome::Reject && c.final_verdict == Verdict::Reject {
            r.correct_rejections = r.correct_rejections + 1;
        }
        if c.expected == ExpectedOutcome::Unknown && c.final_verdict == Verdict::Unknown {
            r.correct_unknowns = r.correct_unknowns + 1;
        }
        if c.expected != ExpectedOutcome::Accept && c.final_verdict == Verdict::Accept {
            r.false_acceptances = r.false_acceptances + 1;
        }
        r.total_calls = r.total_calls + c.calls;
        elapsed.push(c.elapsed_ms);
        i = i + 1;
        assert(elapsed@ =~= latencies(s.subrange(0, i as int)));
    }
    proof {
        counting::lemma_full_prefix(s);
    }
    r.p50_elapsed_ms = order::benchmark_percentile_of(elapsed.as_slice(), 50);
    r.p95_elapsed_ms = order::benchmark_percentile_of(elapsed.as_slice(), 95);
    r.max_elapsed_ms = match order::max_u64(elapsed.as_slice()) {
        Some(m) => m,
        None => 0,
    };
    r
}

} // verus!
