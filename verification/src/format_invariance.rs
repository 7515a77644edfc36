//! The format-invariance study: the order in which judge representations run
//! for each fixture and trial, and how its failures are classified.
use vstd::prelude::*;
use crate::counting;
use crate::cross_model_report;
use crate::cross_model_report::{summarize_source, usage_totals, SourceSummary, StudyCase, UsageTotals};
use crate::failures;
use crate::failures::{failure_class, JudgeFailure};

verus! {

/// Providers the study can run against.
#[derive(Debug, Clone, Copy, PartialEq, Eq, Structural)]
pub enum Provider {
    Mistral,
    Google,
}

/// The structured-output representations compared by the study.
#[derive(Debug, Clone, Copy, PartialEq, Eq, Structural)]
pub enum SoftJudgeRepresentation {
    V3FullJson,
    NestedResultObject,
    DecisionFindingTuple,
    CompactKeyObject,
}

/// `s` rotated left by `offset` positions.
pub open spec fn rotate_left<A>(s: Seq<A>, offset: int) -> Seq<A> {
    s.subrange(offset, s.len() as int) + s.subrange(0, offset)
}

/// The representations in the order they run for a fixture and trial: the
/// list rotated by the fixture index plus the trial.
pub fn counterbalanced_representation_order(
    representations: &[SoftJudgeRepresentation],
    fixture_index: usize,
    trial: usize,
) -> (r: Vec<SoftJudgeRepresentation>)
    requires
        representations.len() > 0,
        fixture_index + trial <= usize::MAX,
    ensures
        r@ == rotate_left(representations@, (fixture_index + trial) % (representations.len() as int)),
{
    let n = representations.len();
    let offset = (fixture_index + trial) % n;
    let mut r: Vec<SoftJudgeRepresentation> = Vec::new();
    let mut i: usize = offset;
    while i < n
        invariant
            n == representations.len(),
            offset < n,
            offset <= i <= n,
            r@ == representations@.subrange(offset as int, i as int),
        decreases n - i,
    {
        r.push(representations[i]);
        i = i + 1;
        assert(r@ =~= representations@.subrange(offset as int, i as int));
    }
    let mut j: usize = 0;
    while j < offset
        invariant
            n == representations.len(),
            offset < n,
            j <= offset,
            r@ == representations@.subrange(offset as int, n as int) + representations@.subrange(0, j as int),
        decreases offset - j,
    {
        r.push(representations[j]);
        j = j + 1;
        assert(r@ =~= representations@.subrange(offset as int, n as int) + representations@.subrange(0, j as int));
    }
    r
}

/// A rotation keeps every representation and its count.
pub proof fn rotation_keeps_representations<A>(s: Seq<A>, offset: int)
    requires
        0 <= offset <= s.len(),
    ensures
        rotate_left(s, offset).to_multiset() == s.to_multiset(),
        rotate_left(s, offset).len() == s.len(),
{
    vstd::seq_lib::lemma_multiset_commutative(s.subrange(offset, s.len() as int), s.subrange(0, offset));
    vstd::seq_lib::lemma_multiset_commutative(s.subrange(0, offset), s.subrange(offset, s.len() as int));
    assert(s.subrange(0, offset) + s.subrange(offset, s.len() as int) =~= s);
}

/// How the provider enforces the judge's JSON shape.
pub fn effective_enforcement_class(provider: Provider) -> (r: &'static str)
    ensures
        r@ == (match provider {
            Provider::Mistral => "strict_json_schema"@,
            Provider::Google => "response_json_schema"@,
        }),
{
    match provider {
        Provider::Mistral => "strict_json_schema",
        Provider::Google => "response_json_schema",
    }
}

/// The lowercase name of a provider.
pub fn provider_name(provider: Provider) -> (r: &'static str)
    ensures
        r@ == (match provider {
            Provider::Mistral => "mistral"@,
            Provider::Google => "google"@,
        }),
{
    match provider {
        Provider::Mistral => "mistral",
        Provider::Google => "google",
    }
}

/// The class of a failed representation call, with `representation_protocol`
/// when the call returned an unusable shape.
pub fn representation_failure_class(error: &JudgeFailure) -> (r: &'static str)
    ensures
        r@ == failures::judge_failure_class_spec(*error, "representation_protocol"@),
{
    failure_class(error, "representation_protocol")
}

/// One representation's summary: its runs per trial and its token totals.
#[derive(Debug)]
pub struct RepresentationSummary {
    pub representation: SoftJudgeRepresentation,
    pub runs: SourceSummary,
    pub usage: UsageTotals,
}

/// Summarizes one representation's runs over `trials` trials of
/// `fixtures_per_trial` fixtures each.
pub fn summarize_representation(
    representation: SoftJudgeRepresentation,
    cases: &Vec<StudyCase>,
    fixtures_per_trial: usize,
    trials: usize,
) -> (r: RepresentationSummary)
    requires
        counting::sum(cases@, cross_model_report::tokens_of()) <= u64::MAX,
        counting::sum(cases@, cross_model_report::input_of()) <= u64::MAX,
        counting::sum(cases@, cross_model_report::output_of()) <= u64::MAX,
        counting::sum(cases@, cross_model_report::latency_of()) <= u128::MAX,
        cross_model_report::complete_trials_decided(cases@, fixtures_per_trial, trials),
    ensures
        r.representation == representation,
        r.runs.attempted_runs == cases.len(),
        r.runs.successful_runs == counting::count(cases@, cross_model_report::decided()),
        r.runs.failed_runs == cases.len() - counting::count(cases@, cross_model_report::decided()),
        r.runs.total_tokens == counting::sum(cases@, cross_model_report::tokens_of()),
        r.runs.total_latency_ms == counting::sum(cases@, cross_model_report::latency_of()),
        r.runs.trials@.len() == trials,
        forall|t: int| 0 <= t < trials ==> #[trigger] r.runs.trials@[t] == cross_model_report::trial_summary(
            cases@,
            t as usize,
            fixtures_per_trial,
        ),
        r.usage.input_tokens == counting::sum(cases@, cross_model_report::input_of()),
        r.usage.output_tokens == counting::sum(cases@, cross_model_report::output_of()),
        r.usage.total_tokens == counting::sum(cases@, cross_model_report::tokens_of()),
        r.usage.advisory_note_runs == counting::count(cases@, cross_model_report::with_advisory_note()),
{
    let runs = summarize_source(cases, fixtures_per_trial, trials);
    let usage = usage_totals(cases);
    RepresentationSummary { representation, runs, usage }
}

} // verus!
