//! The cross-model study's reports: each source's runs summarized per trial,
//! the probes of every fixture grouped across sources and trials, and the
//! decision counts of a selective-abstention policy.
use vstd::prelude::*;
use crate::counting;
use crate::cross_model::{decision_counts, metrics_from_decisions, CalibrationLabel, DecisionCounts, SoftJudgeDecision};
use crate::terms;

verus! {

/// What the reports read of one run of a source on a fixture.
#[derive(Debug)]
pub struct StudyCase {
    pub fixture_id: String,
    pub trial: usize,
    pub label: CalibrationLabel,
    pub decision: Option<SoftJudgeDecision>,
    pub seed: Option<u64>,
    pub latency_ms: u128,
    pub input_tokens: Option<u64>,
    pub output_tokens: Option<u64>,
    pub total_tokens: Option<u64>,
    pub advisory_note_present: bool,
}

/// How one trial of a source went: its decision counts when every expected
/// run decided, only the run counts otherwise.
#[derive(Debug, Clone, Copy, PartialEq, Eq, Structural)]
pub struct TrialSummary {
    pub trial: usize,
    pub expected_cases: usize,
    pub successful_cases: usize,
    pub operationally_complete: bool,
    pub counts: Option<DecisionCounts>,
}

/// The totals of one source's runs; the completion rate and the mean latency
/// are their quotients by the attempted runs.
#[derive(Debug)]
pub struct SourceSummary {
    pub attempted_runs: usize,
    pub successful_runs: usize,
    pub failed_runs: usize,
    pub total_tokens: u64,
    pub total_latency_ms: u128,
    pub trials: Vec<TrialSummary>,
}

/// Runs that decided.
pub open spec fn decided() -> spec_fn(StudyCase) -> bool {
    |c: StudyCase| c.decision is Some
}

/// Reported tokens of a run, zero when unknown.
pub open spec fn tokens_of() -> spec_fn(StudyCase) -> nat {
    |c: StudyCase| match c.total_tokens {
        Some(n) => n as nat,
        None => 0,
    }
}

/// Latency of a run.
pub open spec fn latency_of() -> spec_fn(StudyCase) -> nat {
    |c: StudyCase| c.latency_ms as nat
}

/// The runs of trial `t`, in order.
pub open spec fn of_trial(s: Seq<StudyCase>, t: usize) -> Seq<StudyCase>
    decreases s.len(),
{
    if s.len() == 0 {
        Seq::empty()
    } else if s.last().trial == t {
        of_trial(s.drop_last(), t).push(s.last())
    } else {
        of_trial(s.drop_last(), t)
    }
}

/// The (label, decision) pairs of the runs that decided, in order.
pub open spec fn decided_pairs(s: Seq<StudyCase>) -> Seq<(CalibrationLabel, SoftJudgeDecision)>
    decreases s.len(),
{
    if s.len() == 0 {
        Seq::empty()
    } else {
        match s.last().decision {
            Some(d) => decided_pairs(s.drop_last()).push((s.last().label, d)),
            None => decided_pairs(s.drop_last()),
        }
    }
}

/// The summary of trial `t` of a source expected to run
/// `fixtures_per_trial` fixtures.
pub open spec fn trial_summary(s: Seq<StudyCase>, t: usize, fixtures_per_trial: usize) -> TrialSummary {
    let runs = of_trial(s, t);
    let successful = counting::count(runs, decided());
    if successful == fixtures_per_trial {
        TrialSummary {
            trial: t,
            expected_cases: runs.len() as usize,
            successful_cases: runs.len() as usize,
            operationally_complete: true,
            counts: Some(decision_counts(decided_pairs(runs))),
        }
    } else {
        TrialSummary {
            trial: t,
            expected_cases: fixtures_per_trial,
            successful_cases: successful as usize,
            operationally_complete: false,
            counts: None,
        }
    }
}

/// A trial with as many decided runs as expected has no undecided run.
pub open spec fn complete_trials_decided(s: Seq<StudyCase>, fixtures_per_trial: usize, trials: usize) -> bool {
    forall|t: usize| t < trials && #[trigger] counting::count(of_trial(s, t), decided()) == fixtures_per_trial
        ==> counting::count(of_trial(s, t), decided()) == of_trial(s, t).len()
}

/// Collects trial `t` of the runs: how many there are, how many decided, and
/// the pairs of those that did.
fn collect_trial(cases: &Vec<StudyCase>, t: usize) -> (r: (usize, usize, Vec<(CalibrationLabel, SoftJudgeDecision)>))
    ensures
        r.0 == of_trial(cases@, t).len(),
        r.1 == counting::count(of_trial(cases@, t), decided()),
        r.2@ == decided_pairs(of_trial(cases@, t)),
{
    let ghost s = cases@;
    let mut runs: usize = 0;
    let mut successful: usize = 0;
    let mut pairs: Vec<(CalibrationLabel, SoftJudgeDecision)> = Vec::new();
    let mut i: usize = 0;
    while i < cases.len()
        invariant
            s == cases@,
            i <= s.len(),
            runs == of_trial(s.subrange(0, i as int), t).len(),
            runs <= i,
            successful == counting::count(of_trial(s.subrange(0, i as int), t), decided()),
            pairs@ == decided_pairs(of_trial(s.subrange(0, i as int), t)),
        decreases s.len() - i,
    {
        let ghost prefix = s.subrange(0, i as int);
        let ghost next = s.subrange(0, i + 1);
        proof {
            assert(next.drop_last() =~= prefix);
            counting::lemma_count_bound(of_trial(prefix, t), decided());
        }
        let c = &cases[i];
        if c.trial == t {
            runs = runs + 1;
            match c.decision {
                Some(d) => {
                    successful = successful + 1;
                    pairs.push((c.label, d));
                },
                None => {},
            }
            proof {
                assert(of_trial(next, t).drop_last() =~= of_trial(prefix, t));
            }
        }
        i = i + 1;
    }
    proof {
        counting::lemma_full_prefix(s);
    }
    (runs, successful, pairs)
}

/// Summarizes one source's runs over `trials` trials of
/// `fixtures_per_trial` fixtures each.
pub fn summarize_source(cases: &Vec<StudyCase>, fixtures_per_trial: usize, trials: usize) -> (r: SourceSummary)
    requires
        counting::sum(cases@, tokens_of()) <= u64::MAX,
        counting::sum(cases@, latency_of()) <= u128::MAX,
        complete_trials_decided(cases@, fixtures_per_trial, trials),
    ensures
        r.attempted_runs == cases.len(),
        r.successful_runs == counting::count(cases@, decided()),
        r.failed_runs == cases.len() - counting::count(cases@, decided()),
        r.total_tokens == counting::sum(cases@, tokens_of()),
        r.total_latency_ms == counting::sum(cases@, latency_of()),
        r.trials@.len() == trials,
        forall|t: int| 0 <= t < trials ==> #[trigger] r.trials@[t] == trial_summary(cases@, t as usize, fixtures_per_trial),
{
    let ghost s = cases@;
    let mut successful_runs: usize = 0;
    let mut total_tokens: u64 = 0;
    let mut total_latency_ms: u128 = 0;
    let mut i: usize = 0;
    while i < cases.len()
        invariant
            s == cases@,
            i <= s.len(),
            counting::sum(s, tokens_of()) <= u64::MAX,
            counting::sum(s, latency_of()) <= u128::MAX,
            successful_runs == counting::count(s.subrange(0, i as int), decided()),
            total_tokens == counting::sum(s.subrange(0, i as int), tokens_of()),
            total_latency_ms == counting::sum(s.subrange(0, i as int), latency_of()),
        decreases s.len() - i,
    {
        proof {
            counting::lemma_count_prefix(s, decided(), i as int);
            counting::lemma_sum_prefix(s, tokens_of(), i as int);
            counting::lemma_sum_prefix(s, latency_of(), i as int);
            counting::lemma_sum_prefix_monotone(s, tokens_of(), i + 1);
            counting::lemma_sum_prefix_monotone(s, latency_of(), i + 1);
        }
        let c = &cases[i];
        if c.decision.is_some() {
            successful_runs = successful_runs + 1;
        }
        let tokens = match c.total_tokens {
            Some(n) => n,
            None => 0,
        };
        total_tokens = total_tokens + tokens;
        total_latency_ms = total_latency_ms + c.latency_ms;
        i = i + 1;
    }
    proof {
        counting::lemma_full_prefix(s);
        counting::lemma_count_bound(s, decided());
    }
    let mut summaries: Vec<TrialSummary> = Vec::new();
    let mut t: usize = 0;
    while t < trials
        invariant
            s == cases@,
            t <= trials,
            complete_trials_decided(s, fixtures_per_trial, trials),
            summaries@.len() == t,
            forall|k: int| 0 <= k < t ==> #[trigger] summaries@[k] == trial_summary(s, k as usize, fixtures_per_trial),
        decreases trials - t,
    {
        let (runs, successful, pairs) = collect_trial(cases, t);
        let summary = if successful == fixtures_per_trial {
            TrialSummary {
                trial: t,
                expected_cases: runs,
                successful_cases: runs,
                operationally_complete: true,
                counts: Some(metrics_from_decisions(pairs.as_slice())),
            }
        } else {
            TrialSummary {
                trial: t,
                expected_cases: fixtures_per_trial,
                successful_cases: successful,
                operationally_complete: false,
                counts: None,
            }
        };
        summaries.push(summary);
        t = t + 1;
    }
    SourceSummary {
        attempted_runs: cases.len(),
        successful_runs,
        failed_runs: cases.len() - successful_runs,
        total_tokens,
        total_latency_ms,
        trials: summaries,
    }
}

/// Token totals and advisory-note runs of a set of runs.
#[derive(Debug, Clone, Copy, PartialEq, Eq, Structural)]
pub struct UsageTotals {
    pub input_tokens: u64,
    pub output_tokens: u64,
    pub total_tokens: u64,
    pub advisory_note_runs: usize,
}

/// Reported input tokens of a run, zero when unknown.
pub open spec fn input_of() -> spec_fn(StudyCase) -> nat {
    |c: StudyCase| match c.input_tokens {
        Some(n) => n as nat,
        None => 0,
    }
}

/// Reported output tokens of a run, zero when unknown.
pub open spec fn output_of() -> spec_fn(StudyCase) -> nat {
    |c: StudyCase| match c.output_tokens {
        Some(n) => n as nat,
        None => 0,
    }
}

/// Runs whose judge added an advisory note.
pub open spec fn with_advisory_note() -> spec_fn(StudyCase) -> bool {
    |c: StudyCase| c.advisory_note_present
}

/// Totals the reported tokens of the runs, unknown counts as zero, and counts
/// the runs with an advisory note.
pub fn usage_totals(cases: &Vec<StudyCase>) -> (r: UsageTotals)
    requires
        counting::sum(cases@, input_of()) <= u64::MAX,
        counting::sum(cases@, output_of()) <= u64::MAX,
        counting::sum(cases@, tokens_of()) <= u64::MAX,
    ensures
        r.input_tokens == counting::sum(cases@, input_of()),
        r.output_tokens == counting::sum(cases@, output_of()),
        r.total_tokens == counting::sum(cases@, tokens_of()),
        r.advisory_note_runs == counting::count(cases@, with_advisory_note()),
{
    let ghost s = cases@;
    let mut r = UsageTotals { input_tokens: 0, output_tokens: 0, total_tokens: 0, advisory_note_runs: 0 };
    let mut i: usize = 0;
    while i < cases.len()
        invariant
            s == cases@,
            i <= s.len(),
            counting::sum(s, input_of()) <= u64::MAX,
            counting::sum(s, output_of()) <= u64::MAX,
            counting::sum(s, tokens_of()) <= u64::MAX,
            r.input_tokens == counting::sum(s.subrange(0, i as int), input_of()),
            r.output_tokens == counting::sum(s.subrange(0, i as int), output_of()),
            r.total_tokens == counting::sum(s.subrange(0, i as int), tokens_of()),
            r.advisory_note_runs == counting::count(s.subrange(0, i as int), with_advisory_note()),
        decreases s.len() - i,
    {
        proof {
            counting::lemma_sum_prefix(s, input_of(), i as int);
            counting::lemma_sum_prefix(s, output_of(), i as int);
            counting::lemma_sum_prefix(s, tokens_of(), i as int);
            counting::lemma_sum_prefix_monotone(s, input_of(), i + 1);
            counting::lemma_sum_prefix_monotone(s, output_of(), i + 1);
            counting::lemma_sum_prefix_monotone(s, tokens_of(), i + 1);
            counting::lemma_count_prefix(s, with_advisory_note(), i as int);
        }
        let c = &cases[i];
        let input = match c.input_tokens {
            Some(n) => n,
            None => 0,
        };
        let output = match c.output_tokens {
            Some(n) => n,
            None => 0,
        };
        let total = match c.total_tokens {
            Some(n) => n,
            None => 0,
        };
        r.input_tokens = r.input_tokens + input;
        r.output_tokens = r.output_tokens + output;
        r.total_tokens = r.total_tokens + total;
        if c.advisory_note_present {
            r.advisory_note_runs = r.advisory_note_runs + 1;
        }
        i = i + 1;
    }
    proof {
        counting::lemma_full_prefix(s);
    }
    r
}

// ---------------------------------------------------------------------------
// Probes grouped by fixture and trial.
// ---------------------------------------------------------------------------

/// One source's run of a fixture in a trial, by source and run index.
#[derive(Debug, Clone, Copy, PartialEq, Eq, Structural)]
pub struct ProbeRef {
    pub source: usize,
    pub case: usize,
    pub decision: Option<SoftJudgeDecision>,
}

/// The probes of one fixture, trial by trial.
#[derive(Debug)]
pub struct FixtureProbes {
    pub fixture_id: String,
    pub label: CalibrationLabel,
    pub per_trial: Vec<Vec<ProbeRef>>,
}

/// Why the sources' runs cannot be compared.
#[derive(Debug, PartialEq, Eq)]
pub enum GroupingError {
    /// A fixture was run under two labels.
    LabelMismatch(String),
    /// A fixture has no run in a trial.
    MissingTrial(usize, String),
    /// A fixture's trial has a run count other than the number of sources.
    SourceCountMismatch(String, usize),
}

/// The runs of every source, as sequences.
pub open spec fn reports_view(reports: Seq<Vec<StudyCase>>) -> Seq<Seq<StudyCase>> {
    reports.map_values(|v: Vec<StudyCase>| v@)
}

/// The (source, run) positions of `n` runs of source `i`.
pub open spec fn tagged(i: usize, n: nat) -> Seq<(usize, usize)> {
    Seq::new(n, |j: int| (i, j as usize))
}

/// Every (source, run) position, source by source, run by run.
pub open spec fn all_entries(r: Seq<Seq<StudyCase>>) -> Seq<(usize, usize)>
    decreases r.len(),
{
    if r.len() == 0 {
        Seq::empty()
    } else {
        all_entries(r.drop_last()) + tagged((r.len() - 1) as usize, r.last().len())
    }
}

/// The run at a position.
pub open spec fn case_at(r: Seq<Seq<StudyCase>>, e: (usize, usize)) -> StudyCase {
    r[e.0 as int][e.1 as int]
}

/// The fixture of the run at a position.
pub open spec fn fixture_at(r: Seq<Seq<StudyCase>>, e: (usize, usize)) -> Seq<char> {
    case_at(r, e).fixture_id@
}

/// The label of the first run of fixture `id` among the positions.
pub open spec fn first_label(r: Seq<Seq<StudyCase>>, es: Seq<(usize, usize)>, id: Seq<char>) -> Option<CalibrationLabel>
    decreases es.len(),
{
    if es.len() == 0 {
        None
    } else {
        match first_label(r, es.drop_last(), id) {
            Some(l) => Some(l),
            None => if fixture_at(r, es.last()) == id {
                Some(case_at(r, es.last()).label)
            } else {
                None
            },
        }
    }
}

/// The fixture of the first run whose label differs from its fixture's first
/// label.
pub open spec fn label_fault(r: Seq<Seq<StudyCase>>, es: Seq<(usize, usize)>) -> Option<Seq<char>>
    decreases es.len(),
{
    if es.len() == 0 {
        None
    } else {
        match label_fault(r, es.drop_last()) {
            Some(f) => Some(f),
            None => match first_label(r, es.drop_last(), fixture_at(r, es.last())) {
                Some(l) => if l != case_at(r, es.last()).label {
                    Some(fixture_at(r, es.last()))
                } else {
                    None
                },
                None => None,
            },
        }
    }
}

/// The fixtures that were run.
pub open spec fn fixture_ids(r: Seq<Seq<StudyCase>>, es: Seq<(usize, usize)>) -> Set<Seq<char>> {
    es.map_values(|e: (usize, usize)| fixture_at(r, e)).to_set()
}

/// The probes of fixture `id` in trial `t`, in run order.
pub open spec fn probes(r: Seq<Seq<StudyCase>>, es: Seq<(usize, usize)>, id: Seq<char>, t: usize) -> Seq<ProbeRef>
    decreases es.len(),
{
    if es.len() == 0 {
        Seq::empty()
    } else {
        let rest = probes(r, es.drop_last(), id, t);
        let e = es.last();
        if fixture_at(r, e) == id && case_at(r, e).trial == t {
            rest.push(ProbeRef { source: e.0, case: e.1, decision: case_at(r, e).decision })
        } else {
            rest
        }
    }
}

/// Every fixture and trial before (`id`, `t`) has one probe per source.
pub open spec fn earlier_trials_complete(
    r: Seq<Seq<StudyCase>>,
    es: Seq<(usize, usize)>,
    trials: usize,
    id: Seq<char>,
    t: usize,
) -> bool {
    forall|id2: Seq<char>, t2: usize|
        #![trigger probes(r, es, id2, t2)]
        fixture_ids(r, es).contains(id2) && t2 < trials && (terms::lex_lt(id2, id) || (id2 == id && t2 < t))
            ==> probes(r, es, id2, t2).len() == r.len()
}

/// The fixture ids of the groups, in order.
pub open spec fn group_ids(v: Seq<FixtureProbes>) -> Seq<Seq<char>> {
    v.map_values(|g: FixtureProbes| g.fixture_id@)
}

/// The probes of a group, trial by trial.
pub open spec fn group_trials(g: FixtureProbes) -> Seq<Seq<ProbeRef>> {
    g.per_trial@.map_values(|v: Vec<ProbeRef>| v@)
}

/// Lists every (source, run) position.
fn flatten(reports: &Vec<Vec<StudyCase>>) -> (es: Vec<(usize, usize)>)
    ensures
        es@ == all_entries(reports_view(reports@)),
        fits(reports_view(reports@)),
{
    let ghost r = reports_view(reports@);
    let mut es: Vec<(usize, usize)> = Vec::new();
    let mut i: usize = 0;
    while i < reports.len()
        invariant
            r == reports_view(reports@),
            i <= reports.len(),
            r.len() == reports.len(),
            forall|m: int| 0 <= m < i ==> (#[trigger] r[m]).len() <= usize::MAX,
            es@ == all_entries(r.subrange(0, i as int)),
        decreases reports.len() - i,
    {
        let ghost before = es@;
        let n = reports[i].len();
        assert(r[i as int].len() == n);
        let mut j: usize = 0;
        while j < reports[i].len()
            invariant
                r == reports_view(reports@),
                i < reports.len(),
                j <= reports@[i as int]@.len(),
                es@ == before + tagged(i, j as nat),
            decreases reports@[i as int]@.len() - j,
        {
            es.push((i, j));
            j = j + 1;
            assert(es@ =~= before + tagged(i, j as nat));
        }
        proof {
            let next = r.subrange(0, i + 1);
            assert(next.drop_last() =~= r.subrange(0, i as int));
            assert(next.last() == reports@[i as int]@);
        }
        i = i + 1;
    }
    assert(r.subrange(0, r.len() as int) =~= r);
    assert(fits(r));
    es
}

/// Every source and run count fits a `usize`, as they do for vectors.
pub open spec fn fits(r: Seq<Seq<StudyCase>>) -> bool {
    r.len() <= usize::MAX && forall|i: int| 0 <= i < r.len() ==> (#[trigger] r[i]).len() <= usize::MAX
}

/// Positions index existing runs.
proof fn lemma_entry_valid(r: Seq<Seq<StudyCase>>, k: int)
    requires
        fits(r),
        0 <= k < all_entries(r).len(),
    ensures
        all_entries(r)[k].0 < r.len(),
        all_entries(r)[k].1 < r[all_entries(r)[k].0 as int].len(),
    decreases r.len(),
{
    let a = all_entries(r.drop_last());
    let tail = tagged((r.len() - 1) as usize, r.last().len());
    assert(all_entries(r) == a + tail);
    if k < a.len() {
        assert(fits(r.drop_last()));
        lemma_entry_valid(r.drop_last(), k);
        assert(all_entries(r)[k] == a[k]);
        assert(r.drop_last()[a[k].0 as int] == r[a[k].0 as int]);
    } else {
        assert(all_entries(r)[k] == tail[k - a.len()]);
    }
}

/// The first run of a fixture gives its first label, and before that run
/// there is none.
proof fn lemma_first_label(r: Seq<Seq<StudyCase>>, es: Seq<(usize, usize)>, id: Seq<char>, j: int)
    requires
        0 <= j <= es.len(),
        forall|m: int| 0 <= m < j ==> fixture_at(r, #[trigger] es[m]) != id,
        j < es.len() ==> fixture_at(r, es[j]) == id,
    ensures
        j < es.len() ==> first_label(r, es, id) == Some(case_at(r, es[j]).label),
        j == es.len() ==> first_label(r, es, id) is None,
    decreases es.len(),
{
    if es.len() > 0 {
        if j < es.len() {
            if j < es.len() - 1 {
                lemma_first_label(r, es.drop_last(), id, j);
                assert(es.drop_last()[j] == es[j]);
            } else {
                lemma_first_label(r, es.drop_last(), id, j);
            }
        } else {
            lemma_first_label(r, es.drop_last(), id, j - 1);
        }
    }
}

/// The probes of a prefix one position longer.
proof fn lemma_probes_step(r: Seq<Seq<StudyCase>>, es: Seq<(usize, usize)>, id: Seq<char>, t: usize, k: int)
    requires
        0 <= k < es.len(),
    ensures
        probes(r, es.subrange(0, k + 1), id, t) == if fixture_at(r, es[k]) == id && case_at(r, es[k]).trial == t {
            probes(r, es.subrange(0, k), id, t).push(ProbeRef { source: es[k].0, case: es[k].1, decision: case_at(r, es[k]).decision })
        } else {
            probes(r, es.subrange(0, k), id, t)
        },
{
    assert(es.subrange(0, k + 1).drop_last() =~= es.subrange(0, k));
}

/// Collects the probes of fixture `id` in trial `t`.
fn collect_probes(reports: &Vec<Vec<StudyCase>>, es: &Vec<(usize, usize)>, id: &String, t: usize) -> (p: Vec<ProbeRef>)
    requires
        es@ == all_entries(reports_view(reports@)),
        fits(reports_view(reports@)),
    ensures
        p@ == probes(reports_view(reports@), es@, id@, t),
{
    let ghost r = reports_view(reports@);
    let mut p: Vec<ProbeRef> = Vec::new();
    let mut k: usize = 0;
    while k < es.len()
        invariant
            r == reports_view(reports@),
            es@ == all_entries(r),
            k <= es.len(),
            fits(r),
            p@ == probes(r, es@.subrange(0, k as int), id@, t),
        decreases es.len() - k,
    {
        let e = es[k];
        proof {
            lemma_probes_step(r, es@, id@, t, k as int);
            lemma_entry_valid(r, k as int);
        }
        let c = &reports[e.0][e.1];
        if c.fixture_id == *id && c.trial == t {
            p.push(ProbeRef { source: e.0, case: e.1, decision: c.decision });
        }
        k = k + 1;
    }
    assert(es@.subrange(0, es@.len() as int) =~= es@);
    p
}

/// Once a prefix of the runs has a label fault, so do all runs, the same one.
proof fn lemma_label_fault_stays(r: Seq<Seq<StudyCase>>, es: Seq<(usize, usize)>, k: int)
    requires
        0 <= k <= es.len(),
        label_fault(r, es.subrange(0, k)) is Some,
    ensures
        label_fault(r, es) == label_fault(r, es.subrange(0, k)),
    decreases es.len() - k,
{
    if k < es.len() {
        assert(es.subrange(0, k + 1).drop_last() =~= es.subrange(0, k));
        lemma_label_fault_stays(r, es, k + 1);
    } else {
        assert(es.subrange(0, k) =~= es);
    }
}

/// The fixtures of a prefix one position longer.
proof fn lemma_fixture_ids_step(r: Seq<Seq<StudyCase>>, es: Seq<(usize, usize)>, k: int)
    requires
        0 <= k < es.len(),
    ensures
        fixture_ids(r, es.subrange(0, k + 1)) == fixture_ids(r, es.subrange(0, k)).insert(fixture_at(r, es[k])),
{
    let f = |e: (usize, usize)| fixture_at(r, e);
    let a = es.subrange(0, k).map_values(f);
    let b = es.subrange(0, k + 1).map_values(f);
    assert(b =~= a.push(fixture_at(r, es[k])));
    assert forall|x: Seq<char>| #[trigger] b.to_set().contains(x) <==> a.to_set().insert(fixture_at(r, es[k])).contains(x) by {
        if b.to_set().contains(x) {
            let m = choose|m: int| 0 <= m < b.len() && b[m] == x;
            if m < a.len() {
                assert(a[m] == x);
            }
        }
        if a.to_set().contains(x) {
            let m = choose|m: int| 0 <= m < a.len() && a[m] == x;
            assert(b[m] == x);
        }
        if x == fixture_at(r, es[k]) {
            assert(b[k] == x);
        }
    }
    assert(b.to_set() =~= a.to_set().insert(fixture_at(r, es[k])));
}

/// In an ascending listing, what comes before the element at `i` is listed
/// before `i`.
proof fn lemma_earlier_listed(listing: Seq<Seq<char>>, i: int, id: Seq<char>)
    requires
        terms::strictly_ascending(listing),
        0 <= i < listing.len(),
        listing.to_set().contains(id),
        terms::lex_lt(id, listing[i]),
    ensures
        exists|m: int| 0 <= m < i && listing[m] == id,
{
    let m = choose|m: int| 0 <= m < listing.len() && listing[m] == id;
    if m == i {
        terms::lemma_lex_irreflexive(id);
    } else if m > i {
        assert(terms::lex_lt(listing[i], listing[m]));
        terms::lemma_lex_asymmetric(id, listing[i]);
    }
}

/// Finds the first run of fixture `id` among the first `k` positions.
fn first_run_of(reports: &Vec<Vec<StudyCase>>, es: &Vec<(usize, usize)>, id: &String, k: usize) -> (j: usize)
    requires
        es@ == all_entries(reports_view(reports@)),
        fits(reports_view(reports@)),
        k <= es@.len(),
    ensures
        j <= k,
        forall|m: int| 0 <= m < j ==> fixture_at(reports_view(reports@), #[trigger] es@[m]) != id@,
        j < k ==> fixture_at(reports_view(reports@), es@[j as int]) == id@,
{
    let ghost r = reports_view(reports@);
    let mut j: usize = 0;
    while j < k
        invariant
            r == reports_view(reports@),
            es@ == all_entries(r),
            fits(r),
            j <= k,
            k <= es@.len(),
            forall|m: int| 0 <= m < j ==> fixture_at(r, #[trigger] es@[m]) != id@,
        decreases k - j,
    {
        let e = es[j];
        proof {
            lemma_entry_valid(r, j as int);
        }
        if reports[e.0][e.1].fixture_id == *id {
            return j;
        }
        j = j + 1;
    }
    j
}

/// A group holds its fixture's first label and, for each of the `trials`
/// trials, that trial's probes, one per source.
pub open spec fn group_complete(r: Seq<Seq<StudyCase>>, es: Seq<(usize, usize)>, trials: usize, g: FixtureProbes) -> bool {
    &&& first_label(r, es, g.fixture_id@) == Some(g.label)
    &&& group_trials(g).len() == trials
    &&& forall|u: int| 0 <= u < trials ==> #[trigger] group_trials(g)[u] == probes(r, es, g.fixture_id@, u as usize)
        && probes(r, es, g.fixture_id@, u as usize).len() == r.len()
}

/// The probes of every fixture, grouped by trial, checked for a consistent
/// label and one probe per source in each of `trials` trials; fixtures come in
/// ascending order of id.
pub fn group_probes(reports: &Vec<Vec<StudyCase>>, trials: usize) -> (res: Result<Vec<FixtureProbes>, GroupingError>)
    ensures
        ({
            let r = reports_view(reports@);
            let es = all_entries(r);
            match res {
                Err(GroupingError::LabelMismatch(id)) => label_fault(r, es) == Some(id@),
                Err(GroupingError::MissingTrial(t, id)) => {
                    &&& label_fault(r, es) is None
                    &&& fixture_ids(r, es).contains(id@)
                    &&& t < trials
                    &&& probes(r, es, id@, t).len() == 0
                    &&& earlier_trials_complete(r, es, trials, id@, t)
                },
                Err(GroupingError::SourceCountMismatch(id, t)) => {
                    &&& label_fault(r, es) is None
                    &&& fixture_ids(r, es).contains(id@)
                    &&& t < trials
                    &&& probes(r, es, id@, t).len() > 0
                    &&& probes(r, es, id@, t).len() != r.len()
                    &&& earlier_trials_complete(r, es, trials, id@, t)
                },
                Ok(v) => {
                    &&& label_fault(r, es) is None
                    &&& terms::strictly_ascending(group_ids(v@))
                    &&& group_ids(v@).to_set() == fixture_ids(r, es)
                    &&& forall|i: int| 0 <= i < v@.len() ==> group_complete(r, es, trials, #[trigger] v@[i])
                },
            }
        }),
{
    let ghost r = reports_view(reports@);
    let es = flatten(reports);
    let ghost all = es@;
    let mut listing: Vec<String> = Vec::new();
    proof {
        assert(all.subrange(0, 0) =~= Seq::<(usize, usize)>::empty());
        assert(terms::strings_view(listing@) =~= Seq::<Seq<char>>::empty());
        assert(fixture_ids(r, all.subrange(0, 0)) =~= Set::<Seq<char>>::empty());
        assert(terms::strings_view(listing@).to_set() =~= Set::<Seq<char>>::empty());
    }
    let mut k: usize = 0;
    while k < es.len()
        invariant
            r == reports_view(reports@),
            all == es@,
            all == all_entries(r),
            fits(r),
            k <= all.len(),
            label_fault(r, all.subrange(0, k as int)) is None,
            terms::strictly_ascending(terms::strings_view(listing@)),
            terms::strings_view(listing@).to_set() == fixture_ids(r, all.subrange(0, k as int)),
        decreases all.len() - k,
    {
        let e = es[k];
        proof {
            lemma_entry_valid(r, k as int);
        }
        let c = &reports[e.0][e.1];
        let j = first_run_of(reports, &es, &c.fixture_id, k);
        let ghost prefix = all.subrange(0, k as int);
        let ghost next = all.subrange(0, k + 1);
        proof {
            assert(next.drop_last() =~= prefix);
            assert(next.last() == e);
            assert forall|m: int| 0 <= m < j implies fixture_at(r, #[trigger] prefix[m]) != c.fixture_id@ by {
                assert(prefix[m] == all[m]);
            }
            if j < k {
                assert(prefix[j as int] == all[j as int]);
            }
            lemma_first_label(r, prefix, c.fixture_id@, j as int);
            lemma_fixture_ids_step(r, all, k as int);
        }
        if j < k {
            let first = es[j];
            proof {
                lemma_entry_valid(r, j as int);
            }
            if reports[first.0][first.1].label != c.label {
                proof {
                    assert(label_fault(r, next) == Some(c.fixture_id@));
                    lemma_label_fault_stays(r, all, k + 1);
                }
                return Err(GroupingError::LabelMismatch(c.fixture_id.clone()));
            }
        }
        terms::insert_sorted(&mut listing, c.fixture_id.clone());
        k = k + 1;
    }
    proof {
        assert(all.subrange(0, all.len() as int) =~= all);
    }
    let ghost ids = terms::strings_view(listing@);
    let n = reports.len();
    let mut groups: Vec<FixtureProbes> = Vec::new();
    let mut i: usize = 0;
    while i < listing.len()
        invariant
            r == reports_view(reports@),
            all == es@,
            all == all_entries(r),
            fits(r),
            n == r.len(),
            label_fault(r, all) is None,
            ids == terms::strings_view(listing@),
            terms::strictly_ascending(ids),
            ids.to_set() == fixture_ids(r, all),
            i <= listing.len(),
            groups@.len() == i,
            group_ids(groups@) == ids.subrange(0, i as int),
            forall|g: int| 0 <= g < groups@.len() ==> group_complete(r, all, trials, #[trigger] groups@[g]),
        decreases listing.len() - i,
    {
        let id = &listing[i];
        proof {
            assert(ids[i as int] == id@);
            assert(ids.to_set().contains(id@));
        }
        let j = first_run_of(reports, &es, id, es.len());
        proof {
            if j == es.len() {
                let fs = all.map_values(|e: (usize, usize)| fixture_at(r, e));
                assert(fs.to_set().contains(id@));
                let m = choose|m: int| 0 <= m < fs.len() && #[trigger] fs[m] == id@;
                assert(fixture_at(r, all[m]) == id@);
            }
            assert(all.subrange(0, all.len() as int) =~= all);
            lemma_first_label(r, all, id@, j as int);
            lemma_entry_valid(r, j as int);
        }
        let first = es[j];
        let label = reports[first.0][first.1].label;
        assert(first_label(r, all, id@) == Some(label));
        let mut per_trial: Vec<Vec<ProbeRef>> = Vec::new();
        let mut t: usize = 0;
        while t < trials
            invariant
                r == reports_view(reports@),
                all == es@,
                all == all_entries(r),
                fits(r),
                n == r.len(),
                label_fault(r, all) is None,
                ids == terms::strings_view(listing@),
                terms::strictly_ascending(ids),
                ids.to_set() == fixture_ids(r, all),
                i < listing.len(),
                *id == listing@[i as int],
                groups@.len() == i,
                group_ids(groups@) == ids.subrange(0, i as int),
                forall|g: int| 0 <= g < groups@.len() ==> group_complete(r, all, trials, #[trigger] groups@[g]),
                t <= trials,
                first_label(r, all, id@) == Some(label),
                per_trial@.len() == t,
                forall|u: int| 0 <= u < t ==> (#[trigger] per_trial@[u])@ == probes(r, all, id@, u as usize)
                    && probes(r, all, id@, u as usize).len() == r.len(),
            decreases trials - t,
        {
            let p = collect_probes(reports, &es, id, t);
            if p.len() == 0 || p.len() != n {
                proof {
                    assert forall|id2: Seq<char>, t2: usize|
                        fixture_ids(r, all).contains(id2) && t2 < trials && (terms::lex_lt(id2, id@) || (id2 == id@ && t2 < t))
                        implies #[trigger] probes(r, all, id2, t2).len() == r.len() by {
                        if terms::lex_lt(id2, id@) {
                            lemma_earlier_listed(ids, i as int, id2);
                            let m = choose|m: int| 0 <= m < i && ids[m] == id2;
                            assert(group_ids(groups@)[m] == id2);
                            assert(groups@[m].fixture_id@ == id2);
                            assert(group_complete(r, all, trials, groups@[m]));
                            assert(group_trials(groups@[m])[t2 as int] == probes(r, all, groups@[m].fixture_id@, t2));
                        } else {
                            assert(per_trial@[t2 as int]@ == probes(r, all, id@, t2));
                        }
                    }
                }
                proof {
                    assert(earlier_trials_complete(r, all, trials, id@, t));
                    assert(ids[i as int] == id@);
                    assert(ids.to_set().contains(id@));
                    assert(fixture_ids(r, all).contains(id@));
                }
                if p.len() == 0 {
                    return Err(GroupingError::MissingTrial(t, id.clone()));
                }
                return Err(GroupingError::SourceCountMismatch(id.clone(), t));
            }
            per_trial.push(p);
            t = t + 1;
        }
        let ghost old_groups = groups@;
        groups.push(FixtureProbes { fixture_id: id.clone(), label, per_trial });
        proof {
            assert(group_ids(groups@) =~= ids.subrange(0, i + 1));
            let g = groups@[i as int];
            assert(group_trials(g).len() == trials);
            assert(g.fixture_id@ == id@);
            assert forall|u: int| 0 <= u < trials implies #[trigger] group_trials(g)[u] == probes(r, all, g.fixture_id@, u as usize)
                && probes(r, all, g.fixture_id@, u as usize).len() == r.len() by {
                assert(group_trials(g)[u] == g.per_trial@[u]@);
            }
            assert(group_complete(r, all, trials, g));
            assert forall|h: int| 0 <= h < groups@.len() implies group_complete(r, all, trials, #[trigger] groups@[h]) by {
                if h < i {
                    assert(groups@[h] == old_groups[h]);
                }
            }
        }
        i = i + 1;
    }
    proof {
        assert(ids.subrange(0, ids.len() as int) =~= ids);
        assert(group_ids(groups@) == ids);
    }
    Ok(groups)
}

// ---------------------------------------------------------------------------
// Selective-abstention policy metrics.
// ---------------------------------------------------------------------------

/// What a policy's metrics read of one fixture: its label, whether its
/// stability assessment raised any risk signal and the operational-incomplete
/// one, and the policy's outcome.
#[derive(Debug, Clone, Copy, PartialEq, Eq, Structural)]
pub struct PolicyFixture {
    pub label: CalibrationLabel,
    pub has_risk_signals: bool,
    pub operationally_incomplete: bool,
    pub decision: SoftJudgeDecision,
    pub escalated_to_abstain: bool,
}

/// The metrics of a selective-abstention policy over the fixtures; precision,
/// recall and coverage are ratios of the decision counts.
#[derive(Debug, Clone, Copy, PartialEq, Eq, Structural)]
pub struct PolicyMetrics {
    pub fixture_count: usize,
    pub risk_fixture_count: usize,
    pub operationally_incomplete_fixture_count: usize,
    pub escalated_to_abstain: usize,
    pub counts: DecisionCounts,
}

/// Fixtures with a risk signal.
pub open spec fn risky() -> spec_fn(PolicyFixture) -> bool {
    |f: PolicyFixture| f.has_risk_signals
}

/// Fixtures whose assessment is operationally incomplete.
pub open spec fn incomplete() -> spec_fn(PolicyFixture) -> bool {
    |f: PolicyFixture| f.operationally_incomplete
}

/// Fixtures the policy escalated to an abstention.
pub open spec fn escalated() -> spec_fn(PolicyFixture) -> bool {
    |f: PolicyFixture| f.escalated_to_abstain
}

/// The (label, decision) pairs of the fixtures under the policy.
pub open spec fn policy_pairs(s: Seq<PolicyFixture>) -> Seq<(CalibrationLabel, SoftJudgeDecision)> {
    s.map_values(|f: PolicyFixture| (f.label, f.decision))
}

/// The metrics of a selective-abstention policy over the fixtures.
pub open spec fn policy_metrics(s: Seq<PolicyFixture>) -> PolicyMetrics {
    PolicyMetrics {
        fixture_count: s.len() as usize,
        risk_fixture_count: counting::count(s, risky()) as usize,
        operationally_incomplete_fixture_count: counting::count(s, incomplete()) as usize,
        escalated_to_abstain: counting::count(s, escalated()) as usize,
        counts: decision_counts(policy_pairs(s)),
    }
}

/// Computes a selective-abstention policy's metrics over the fixtures.
pub fn selective_policy_metrics(fixtures: &[PolicyFixture]) -> (r: PolicyMetrics)
    ensures
        r == policy_metrics(fixtures@),
{
    let ghost s = fixtures@;
    let mut pairs: Vec<(CalibrationLabel, SoftJudgeDecision)> = Vec::new();
    let mut risk: usize = 0;
    let mut incomplete_count: usize = 0;
    let mut escalated_count: usize = 0;
    let mut i: usize = 0;
    while i < fixtures.len()
        invariant
            s == fixtures@,
            i <= s.len(),
            pairs@ == policy_pairs(s.subrange(0, i as int)),
            risk == counting::count(s.subrange(0, i as int), risky()),
            incomplete_count == counting::count(s.subrange(0, i as int), incomplete()),
            escalated_count == counting::count(s.subrange(0, i as int), escalated()),
        decreases s.len() - i,
    {
        proof {
            counting::lemma_count_prefix(s, risky(), i as int);
            counting::lemma_count_prefix(s, incomplete(), i as int);
            counting::lemma_count_prefix(s, escalated(), i as int);
        }
        let f = fixtures[i];
        if f.has_risk_signals {
            risk = risk + 1;
        }
        if f.operationally_incomplete {
            incomplete_count = incomplete_count + 1;
        }
        if f.escalated_to_abstain {
            escalated_count = escalated_count + 1;
        }
        pairs.push((f.label, f.decision));
        i = i + 1;
        assert(pairs@ =~= policy_pairs(s.subrange(0, i as int)));
    }
    proof {
        counting::lemma_full_prefix(s);
    }
    PolicyMetrics {
        fixture_count: fixtures.len(),
        risk_fixture_count: risk,
        operationally_incomplete_fixture_count: incomplete_count,
        escalated_to_abstain: escalated_count,
        counts: metrics_from_decisions(pairs.as_slice()),
    }
}

} // verus!
