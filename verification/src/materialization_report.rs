//! The materialization study's reports: each arm's runs summarized, and the
//! comparison of the two arms' decisions on the same fixture, trial and seed.
use vstd::prelude::*;
use crate::counting;
use crate::cross_model::SoftJudgeDecision;
use crate::cross_model_report::{summarize_source, usage_totals, SourceSummary, StudyCase, UsageTotals};
use crate::cross_model_report;
use crate::materialization::StudyArm;
use crate::text::str_eq;

verus! {

/// One arm's summary: its runs per trial and its token totals.
#[derive(Debug)]
pub struct ArmSummary {
    pub runs: SourceSummary,
    pub usage: UsageTotals,
}

/// Summarizes one arm's runs over `trials` trials of `fixtures_per_trial`
/// fixtures each.
pub fn summarize_arm(cases: &Vec<StudyCase>, fixtures_per_trial: usize, trials: usize) -> (r: ArmSummary)
    requires
        counting::sum(cases@, cross_model_report::tokens_of()) <= u64::MAX,
        counting::sum(cases@, cross_model_report::input_of()) <= u64::MAX,
        counting::sum(cases@, cross_model_report::output_of()) <= u64::MAX,
        counting::sum(cases@, cross_model_report::latency_of()) <= u128::MAX,
        cross_model_report::complete_trials_decided(cases@, fixtures_per_trial, trials),
    ensures
        r.runs.attempted_runs == cases.len(),
        r.runs.successful_runs == counting::count(cases@, cross_model_report::decided()),
        r.runs.failed_runs == cases.len() - counting::count(cases@, cross_model_report::decided()),
        r.runs.total_tokens == counting::sum(cases@, cross_model_report::tokens_of()),
        r.runs.total_latency_ms == counting::sum(cases@, cross_model_report::latency_of()),
        r.runs.trials@.len() == trials,
        forall|t: int| 0 <= t < trials ==> #[trigger] r.runs.trials@[t] == cross_model_report::trial_summary(
            cases@,
            t as usize,
            fixtures_per_trial,
        ),
        r.usage.input_tokens == counting::sum(cases@, cross_model_report::input_of()),
        r.usage.output_tokens == counting::sum(cases@, cross_model_report::output_of()),
        r.usage.total_tokens == counting::sum(cases@, cross_model_report::tokens_of()),
        r.usage.advisory_note_runs == counting::count(cases@, cross_model_report::with_advisory_note()),
{
    let runs = summarize_source(cases, fixtures_per_trial, trials);
    let usage = usage_totals(cases);
    ArmSummary { runs, usage }
}

// ---------------------------------------------------------------------------
// Comparing the arms.
// ---------------------------------------------------------------------------

/// One arm's runs.
#[derive(Debug)]
pub struct ArmCases {
    pub arm: StudyArm,
    pub cases: Vec<StudyCase>,
}

/// Why the arms cannot be compared.
#[derive(Debug, PartialEq, Eq)]
pub enum ComparisonError {
    MissingBaselineArm,
    MissingMaterializedArm,
    /// Two runs of one arm share a fixture, trial and seed.
    DuplicateKey(String, usize, Option<u64>),
    /// The arms did not run the same fixtures, trials and seeds.
    KeysDiffer,
}

/// How often a baseline decision became a materialized one.
#[derive(Debug, Clone, Copy, PartialEq, Eq, Structural)]
pub struct DecisionTransition {
    pub from: SoftJudgeDecision,
    pub to: SoftJudgeDecision,
    pub count: usize,
}

/// The comparison of the arms; the flip rate is the changed decisions over
/// the matched successful pairs.
#[derive(Debug)]
pub struct MaterializationComparison {
    pub matched_keys: usize,
    pub matched_successful_pairs: usize,
    pub operationally_incomplete_pairs: usize,
    pub changed_decisions: usize,
    pub transitions: Vec<DecisionTransition>,
}

/// The matching key of a run: fixture, trial and seed.
pub open spec fn key(c: StudyCase) -> (Seq<char>, usize, Option<u64>) {
    (c.fixture_id@, c.trial, c.seed)
}

/// The keys of the runs, in order.
pub open spec fn keys(s: Seq<StudyCase>) -> Seq<(Seq<char>, usize, Option<u64>)> {
    s.map_values(|c: StudyCase| key(c))
}

/// The first run, from `i` on, whose key repeats an earlier run's.
pub open spec fn first_repeat(s: Seq<StudyCase>, i: int) -> Option<int>
    decreases s.len() - i,
{
    if i < 0 || i >= s.len() {
        None
    } else if exists|j: int| 0 <= j < i && key(#[trigger] s[j]) == key(s[i]) {
        Some(i)
    } else {
        first_repeat(s, i + 1)
    }
}

/// The index of the first arm that is `arm`.
pub open spec fn arm_index(arms: Seq<ArmCases>, arm: StudyArm) -> Option<int> {
    if exists|i: int| 0 <= i < arms.len() && (#[trigger] arms[i]).arm == arm {
        Some(choose|i: int| 0 <= i < arms.len() && (#[trigger] arms[i]).arm == arm && forall|k: int| 0 <= k < i ==> arms[k].arm != arm)
    } else {
        None
    }
}

/// The decision of the run of `ms` with key `k`.
pub open spec fn partner_decision(ms: Seq<StudyCase>, k: (Seq<char>, usize, Option<u64>)) -> Option<SoftJudgeDecision> {
    ms[choose|j: int| 0 <= j < ms.len() && key(#[trigger] ms[j]) == k].decision
}

/// Baseline runs decided in both arms.
pub open spec fn paired(ms: Seq<StudyCase>) -> spec_fn(StudyCase) -> bool {
    |b: StudyCase| b.decision is Some && partner_decision(ms, key(b)) is Some
}

/// Baseline runs decided in both arms, differently.
pub open spec fn changed(ms: Seq<StudyCase>) -> spec_fn(StudyCase) -> bool {
    |b: StudyCase| b.decision is Some && partner_decision(ms, key(b)) is Some && b.decision != partner_decision(ms, key(b))
}

/// Baseline runs that decided `from` and whose partner decided `to`.
pub open spec fn moved(ms: Seq<StudyCase>, from: SoftJudgeDecision, to: SoftJudgeDecision) -> spec_fn(StudyCase) -> bool {
    |b: StudyCase| b.decision == Some(from) && partner_decision(ms, key(b)) == Some(to)
}

/// Every (from, to) pair of decisions, in order.
pub open spec fn decision_pairs() -> Seq<(SoftJudgeDecision, SoftJudgeDecision)> {
    seq![
        (SoftJudgeDecision::Finding, SoftJudgeDecision::Finding),
        (SoftJudgeDecision::Finding, SoftJudgeDecision::NoFinding),
        (SoftJudgeDecision::Finding, SoftJudgeDecision::Abstain),
        (SoftJudgeDecision::NoFinding, SoftJudgeDecision::Finding),
        (SoftJudgeDecision::NoFinding, SoftJudgeDecision::NoFinding),
        (SoftJudgeDecision::NoFinding, SoftJudgeDecision::Abstain),
        (SoftJudgeDecision::Abstain, SoftJudgeDecision::Finding),
        (SoftJudgeDecision::Abstain, SoftJudgeDecision::NoFinding),
        (SoftJudgeDecision::Abstain, SoftJudgeDecision::Abstain),
    ]
}

/// The transitions that occurred among `pairs`, in order.
pub open spec fn transitions_of(bs: Seq<StudyCase>, ms: Seq<StudyCase>, pairs: Seq<(SoftJudgeDecision, SoftJudgeDecision)>) -> Seq<DecisionTransition>
    decreases pairs.len(),
{
    if pairs.len() == 0 {
        Seq::empty()
    } else {
        let rest = transitions_of(bs, ms, pairs.drop_last());
        let p = pairs.last();
        let n = counting::count(bs, moved(ms, p.0, p.1));
        if n > 0 {
            rest.push(DecisionTransition { from: p.0, to: p.1, count: n as usize })
        } else {
            rest
        }
    }
}

/// Whether two runs share a key.
fn same_key(a: &StudyCase, b: &StudyCase) -> (r: bool)
    ensures
        r == (key(*a) == key(*b)),
{
    let seeds_equal = match (a.seed, b.seed) {
        (None, None) => true,
        (Some(x), Some(y)) => x == y,
        _ => false,
    };
    str_eq(a.fixture_id.as_str(), b.fixture_id.as_str()) && a.trial == b.trial && seeds_equal
}

/// Finds the first run whose key repeats an earlier run's.
fn find_repeat(cases: &Vec<StudyCase>) -> (r: Option<usize>)
    ensures
        r matches Some(i) ==> first_repeat(cases@, 0) == Some(i as int) && i < cases@.len(),
        r is None ==> first_repeat(cases@, 0) is None,
{
    let mut i: usize = 0;
    while i < cases.len()
        invariant
            i <= cases@.len(),
            first_repeat(cases@, 0) == first_repeat(cases@, i as int),
        decreases cases.len() - i,
    {
        let mut j: usize = 0;
        while j < i
            invariant
                i < cases@.len(),
                j <= i,
                first_repeat(cases@, 0) == first_repeat(cases@, i as int),
                forall|x: int| 0 <= x < j ==> key(#[trigger] cases@[x]) != key(cases@[i as int]),
            decreases i - j,
        {
            if same_key(&cases[j], &cases[i]) {
                assert(key(cases@[j as int]) == key(cases@[i as int]));
                return Some(i);
            }
            j = j + 1;
        }
        i = i + 1;
    }
    None
}

/// Finds the run of `ms` with the key of `b`.
fn find_partner(ms: &Vec<StudyCase>, b: &StudyCase) -> (r: Option<usize>)
    ensures
        r matches Some(j) ==> j < ms@.len() && key(ms@[j as int]) == key(*b),
        r is None ==> forall|j: int| 0 <= j < ms@.len() ==> key(#[trigger] ms@[j]) != key(*b),
{
    let mut j: usize = 0;
    while j < ms.len()
        invariant
            j <= ms@.len(),
            forall|x: int| 0 <= x < j ==> key(#[trigger] ms@[x]) != key(*b),
        decreases ms.len() - j,
    {
        if same_key(&ms[j], b) {
            return Some(j);
        }
        j = j + 1;
    }
    None
}

/// Finds the first arm that is `arm`.
fn find_arm(arms: &Vec<ArmCases>, arm: StudyArm) -> (r: Option<usize>)
    ensures
        r matches Some(i) ==> arm_index(arms@, arm) == Some(i as int) && i < arms@.len(),
        r is None ==> arm_index(arms@, arm) is None,
{
    let mut i: usize = 0;
    while i < arms.len()
        invariant
            i <= arms@.len(),
            forall|k: int| 0 <= k < i ==> (#[trigger] arms@[k]).arm != arm,
        decreases arms.len() - i,
    {
        if arms[i].arm == arm {
            proof {
                let w = choose|w: int| 0 <= w < arms@.len() && (#[trigger] arms@[w]).arm == arm && forall|k: int| 0 <= k < w ==> arms@[k].arm != arm;
                assert(arms@[i as int].arm == arm);
                if w < i {
                } else if w > i {
                    assert(arms@[i as int].arm != arm);
                }
            }
            return Some(i);
        }
        i = i + 1;
    }
    None
}

/// Without a repeat from `i` on, keys from `i` on differ from every other key.
proof fn lemma_no_repeat(s: Seq<StudyCase>, i: int)
    requires
        0 <= i <= s.len(),
        first_repeat(s, i) is None,
    ensures
        forall|a: int, b: int| 0 <= a < b < s.len() && i <= b ==> key(#[trigger] s[a]) != key(#[trigger] s[b]),
    decreases s.len() - i,
{
    if i < s.len() {
        lemma_no_repeat(s, i + 1);
        assert forall|a: int, b: int| 0 <= a < b < s.len() && i <= b implies key(#[trigger] s[a]) != key(#[trigger] s[b]) by {
            if b == i {
                if key(s[a]) == key(s[b]) {
                    assert(exists|j: int| 0 <= j < i && key(#[trigger] s[j]) == key(s[i]));
                }
            }
        }
    }
}

/// Some run of `ms` has the key of `b`.
pub open spec fn has_partner(ms: Seq<StudyCase>, b: StudyCase) -> bool {
    exists|j: int| 0 <= j < ms.len() && key(#[trigger] ms[j]) == key(b)
}

/// Every run of `bs` has a partner in `ms`.
pub open spec fn all_partnered(bs: Seq<StudyCase>, ms: Seq<StudyCase>) -> bool {
    forall|i: int| 0 <= i < bs.len() ==> has_partner(ms, #[trigger] bs[i])
}

/// With distinct keys in `ms`, the partner found is the partner meant.
proof fn lemma_partner(ms: Seq<StudyCase>, b: StudyCase, j: int)
    requires
        first_repeat(ms, 0) is None,
        0 <= j < ms.len(),
        key(ms[j]) == key(b),
    ensures
        partner_decision(ms, key(b)) == ms[j].decision,
{
    lemma_no_repeat(ms, 0);
    let w = choose|w: int| 0 <= w < ms.len() && key(#[trigger] ms[w]) == key(b);
    assert(key(ms[w]) == key(b));
    if w < j {
        assert(key(ms[w]) != key(ms[j]));
    } else if w > j {
        assert(key(ms[j]) != key(ms[w]));
    }
}

/// Counts baseline runs matching `p` of their partners' decisions.
fn count_pairs(bs: &Vec<StudyCase>, ms: &Vec<StudyCase>, want_from: Option<SoftJudgeDecision>, want_to: Option<SoftJudgeDecision>, only_changed: bool) -> (r: usize)
    requires
        first_repeat(ms@, 0) is None,
        all_partnered(bs@, ms@),
    ensures
        want_from is None && want_to is None && !only_changed ==> r == counting::count(bs@, paired(ms@)),
        want_from is None && want_to is None && only_changed ==> r == counting::count(bs@, changed(ms@)),
        (want_from is Some && want_to is Some) ==> r == counting::count(bs@, moved(ms@, want_from->0, want_to->0)),
{
    let ghost s = bs@;
    let mut n: usize = 0;
    let mut i: usize = 0;
    while i < bs.len()
        invariant
            s == bs@,
            i <= s.len(),
            first_repeat(ms@, 0) is None,
            all_partnered(s, ms@),
            want_from is None && want_to is None && !only_changed ==> n == counting::count(s.subrange(0, i as int), paired(ms@)),
            want_from is None && want_to is None && only_changed ==> n == counting::count(s.subrange(0, i as int), changed(ms@)),
            (want_from is Some && want_to is Some) ==> n == counting::count(s.subrange(0, i as int), moved(ms@, want_from->0, want_to->0)),
            n <= i,
        decreases s.len() - i,
    {
        let b = &bs[i];
        proof {
            counting::lemma_count_prefix(s, paired(ms@), i as int);
            counting::lemma_count_prefix(s, changed(ms@), i as int);
            if want_from is Some && want_to is Some {
                counting::lemma_count_prefix(s, moved(ms@, want_from->0, want_to->0), i as int);
            }
        }
        let found = find_partner(ms, b);
        let j = match found {
            Some(j) => j,
            None => {
                proof {
                    assert(has_partner(ms@, s[i as int]));
                }
                0
            },
        };
        if found.is_some() {
            proof {
                lemma_partner(ms@, *b, j as int);
            }
            let from = b.decision;
            let to = ms[j].decision;
            let hit = match (want_from, want_to) {
                (Some(f), Some(t)) => match (from, to) {
                    (Some(x), Some(y)) => x == f && y == t,
                    _ => false,
                },
                _ => match (from, to) {
                    (Some(x), Some(y)) => !only_changed || x != y,
                    _ => false,
                },
            };
            if hit {
                n = n + 1;
            }
        }
        i = i + 1;
    }
    proof {
        counting::lemma_full_prefix(s);
    }
    n
}

/// Whether every run of `bs` has a partner in `ms`.
fn partnered(bs: &Vec<StudyCase>, ms: &Vec<StudyCase>) -> (r: bool)
    ensures
        r == all_partnered(bs@, ms@),
{
    let mut i: usize = 0;
    while i < bs.len()
        invariant
            i <= bs@.len(),
            forall|k: int| 0 <= k < i ==> has_partner(ms@, #[trigger] bs@[k]),
        decreases bs.len() - i,
    {
        match find_partner(ms, &bs[i]) {
            Some(j) => {
                assert(key(ms@[j as int]) == key(bs@[i as int]));
            },
            None => {
                return false;
            },
        }
        i = i + 1;
    }
    true
}

/// Mutual partnering is equality of the key sets.
proof fn lemma_partnered_sets(bs: Seq<StudyCase>, ms: Seq<StudyCase>)
    ensures
        (all_partnered(bs, ms) && all_partnered(ms, bs)) <==> keys(bs).to_set() == keys(ms).to_set(),
{
    if all_partnered(bs, ms) && all_partnered(ms, bs) {
        assert forall|k| #[trigger] keys(bs).to_set().contains(k) <==> keys(ms).to_set().contains(k) by {
            if keys(bs).to_set().contains(k) {
                let i = choose|i: int| 0 <= i < keys(bs).len() && keys(bs)[i] == k;
                assert(key(bs[i]) == k);
                assert(has_partner(ms, bs[i]));
                let j = choose|j: int| 0 <= j < ms.len() && key(#[trigger] ms[j]) == key(bs[i]);
                assert(keys(ms)[j] == k);
            }
            if keys(ms).to_set().contains(k) {
                let i = choose|i: int| 0 <= i < keys(ms).len() && keys(ms)[i] == k;
                assert(key(ms[i]) == k);
                assert(has_partner(bs, ms[i]));
                let j = choose|j: int| 0 <= j < bs.len() && key(#[trigger] bs[j]) == key(ms[i]);
                assert(keys(bs)[j] == k);
            }
        }
        assert(keys(bs).to_set() =~= keys(ms).to_set());
    }
    if keys(bs).to_set() == keys(ms).to_set() {
        assert forall|i: int| 0 <= i < bs.len() implies has_partner(ms, #[trigger] bs[i]) by {
            assert(keys(bs)[i] == key(bs[i]));
            assert(keys(bs).to_set().contains(key(bs[i])));
            assert(keys(ms).to_set().contains(key(bs[i])));
            let j = choose|j: int| 0 <= j < keys(ms).len() && keys(ms)[j] == key(bs[i]);
            assert(key(ms[j]) == key(bs[i]));
        }
        assert forall|i: int| 0 <= i < ms.len() implies has_partner(bs, #[trigger] ms[i]) by {
            assert(keys(ms)[i] == key(ms[i]));
            assert(keys(ms).to_set().contains(key(ms[i])));
            assert(keys(bs).to_set().contains(key(ms[i])));
            let j = choose|j: int| 0 <= j < keys(bs).len() && keys(bs)[j] == key(ms[i]);
            assert(key(bs[j]) == key(ms[i]));
        }
    }
}

/// The comparison of a baseline arm's runs `bs` with a materialization arm's
/// runs `ms`.
pub open spec fn comparison_holds(bs: Seq<StudyCase>, ms: Seq<StudyCase>, r: Result<MaterializationComparison, ComparisonError>) -> bool {
    match r {
        Err(ComparisonError::DuplicateKey(f, t, sd)) => match first_repeat(bs, 0) {
            Some(k) => key(bs[k]) == (f@, t, sd),
            None => match first_repeat(ms, 0) {
                Some(k) => key(ms[k]) == (f@, t, sd),
                None => false,
            },
        },
        Err(ComparisonError::KeysDiffer) => first_repeat(bs, 0) is None && first_repeat(ms, 0) is None
            && keys(bs).to_set() != keys(ms).to_set(),
        Err(_) => false,
        Ok(c) => {
            &&& first_repeat(bs, 0) is None
            &&& first_repeat(ms, 0) is None
            &&& keys(bs).to_set() == keys(ms).to_set()
            &&& c.matched_keys == bs.len()
            &&& c.matched_successful_pairs == counting::count(bs, paired(ms))
            &&& c.operationally_incomplete_pairs == bs.len() - counting::count(bs, paired(ms))
            &&& c.changed_decisions == counting::count(bs, changed(ms))
            &&& c.transitions@ == transitions_of(bs, ms, decision_pairs())
        },
    }
}

/// The transitions between partnered runs, for every pair of decisions that
/// occurred, in order.
fn transitions_between(bs: &Vec<StudyCase>, ms: &Vec<StudyCase>) -> (r: Vec<DecisionTransition>)
    requires
        first_repeat(ms@, 0) is None,
        all_partnered(bs@, ms@),
    ensures
        r@ == transitions_of(bs@, ms@, decision_pairs()),
{
    let all = [
        (SoftJudgeDecision::Finding, SoftJudgeDecision::Finding),
        (SoftJudgeDecision::Finding, SoftJudgeDecision::NoFinding),
        (SoftJudgeDecision::Finding, SoftJudgeDecision::Abstain),
        (SoftJudgeDecision::NoFinding, SoftJudgeDecision::Finding),
        (SoftJudgeDecision::NoFinding, SoftJudgeDecision::NoFinding),
        (SoftJudgeDecision::NoFinding, SoftJudgeDecision::Abstain),
        (SoftJudgeDecision::Abstain, SoftJudgeDecision::Finding),
        (SoftJudgeDecision::Abstain, SoftJudgeDecision::NoFinding),
        (SoftJudgeDecision::Abstain, SoftJudgeDecision::Abstain),
    ];
    assert(all@ == decision_pairs());
    let mut transitions: Vec<DecisionTransition> = Vec::new();
    let mut p: usize = 0;
    while p < 9
        invariant
            p <= 9,
            all@ == decision_pairs(),
            first_repeat(ms@, 0) is None,
            all_partnered(bs@, ms@),
            transitions@ == transitions_of(bs@, ms@, decision_pairs().subrange(0, p as int)),
        decreases 9 - p,
    {
        let (from, to) = all[p];
        let n = count_pairs(bs, ms, Some(from), Some(to), false);
        proof {
            assert(decision_pairs().subrange(0, p + 1).drop_last() =~= decision_pairs().subrange(0, p as int));
        }
        if n > 0 {
            transitions.push(DecisionTransition { from, to, count: n });
        }
        p = p + 1;
    }
    assert(decision_pairs().subrange(0, 9) =~= decision_pairs());
    transitions
}

/// Compares two arms' runs: every run of each arm must have a distinct
/// fixture, trial and seed, and both arms must have run the same ones.
pub fn compare_cases(bs: &Vec<StudyCase>, ms: &Vec<StudyCase>) -> (r: Result<MaterializationComparison, ComparisonError>)
    ensures
        comparison_holds(bs@, ms@, r),
{
    match find_repeat(bs) {
        Some(k) => {
            return Err(ComparisonError::DuplicateKey(bs[k].fixture_id.clone(), bs[k].trial, bs[k].seed));
        },
        None => {},
    }
    match find_repeat(ms) {
        Some(k) => {
            return Err(ComparisonError::DuplicateKey(ms[k].fixture_id.clone(), ms[k].trial, ms[k].seed));
        },
        None => {},
    }
    proof {
        lemma_partnered_sets(bs@, ms@);
    }
    if !partnered(bs, ms) || !partnered(ms, bs) {
        return Err(ComparisonError::KeysDiffer);
    }
    let pairs = count_pairs(bs, ms, None, None, false);
    let changed_count = count_pairs(bs, ms, None, None, true);
    proof {
        counting::lemma_count_bound(bs@, paired(ms@));
    }
    let transitions = transitions_between(bs, ms);
    Ok(MaterializationComparison {
        matched_keys: bs.len(),
        matched_successful_pairs: pairs,
        operationally_incomplete_pairs: bs.len() - pairs,
        changed_decisions: changed_count,
        transitions,
    })
}

/// Compares the baseline arm with the materialization arm on the runs they
/// share; each arm is the first of its kind among `arms`.
pub fn compare_arms(arms: &Vec<ArmCases>) -> (r: Result<MaterializationComparison, ComparisonError>)
    ensures
        arm_index(arms@, StudyArm::V3FullJson) is None ==> r matches Err(ComparisonError::MissingBaselineArm),
        arm_index(arms@, StudyArm::V3FullJson) is Some && arm_index(arms@, StudyArm::HarnessMaterializedDecision) is None
            ==> r matches Err(ComparisonError::MissingMaterializedArm),
        arm_index(arms@, StudyArm::V3FullJson) is Some && arm_index(arms@, StudyArm::HarnessMaterializedDecision) is Some
            ==> comparison_holds(
            arms@[arm_index(arms@, StudyArm::V3FullJson)->0].cases@,
            arms@[arm_index(arms@, StudyArm::HarnessMaterializedDecision)->0].cases@,
            r,
        ),
{
    let b = match find_arm(arms, StudyArm::V3FullJson) {
        Some(b) => b,
        None => {
            return Err(ComparisonError::MissingBaselineArm);
        },
    };
    let m = match find_arm(arms, StudyArm::HarnessMaterializedDecision) {
        Some(m) => m,
        None => {
            return Err(ComparisonError::MissingMaterializedArm);
        },
    };
    compare_cases(&arms[b].cases, &arms[m].cases)
}

} // verus!
