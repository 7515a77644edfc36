//! The semantic decidability study: the two study surfaces and their corpora,
//! fixture preflight, checkpoint status, and the decision metrics of complete
//! trials.
use vstd::prelude::*;
use crate::counting;
use crate::cross_model::{CalibrationLabel, SoftJudgeDecision};

verus! {

/// The study surfaces: the D2 calibration surface and the v5 holdout.
#[derive(Debug, Clone, Copy, PartialEq, Eq, Structural)]
pub enum StudySurface {
    D2,
    HoldoutV5,
}

impl StudySurface {
    /// The report name of the surface.
    pub open spec fn name_spec(self) -> Seq<char> {
        match self {
            StudySurface::D2 => "d2"@,
            StudySurface::HoldoutV5 => "holdout_v5"@,
        }
    }

    /// The report name of the surface.
    pub fn name(self) -> (r: &'static str)
        ensures
            r@ == self.name_spec(),
    {
        match self {
            StudySurface::D2 => "d2",
            StudySurface::HoldoutV5 => "holdout_v5",
        }
    }

    /// The configuration identity recorded with results of the surface.
    pub fn configuration_id(self) -> (r: &'static str)
        ensures
            r@ == (match self {
                StudySurface::D2 => "semantic-decidability-d2-v1"@,
                StudySurface::HoldoutV5 => "semantic-decidability-d3-holdout-v5-v1"@,
            }),
    {
        match self {
            StudySurface::D2 => "semantic-decidability-d2-v1",
            StudySurface::HoldoutV5 => "semantic-decidability-d3-holdout-v5-v1",
        }
    }

    /// Where the surface's study manifests live, relative to the checkout.
    pub open spec fn target_relative_path_spec(self) -> Seq<char> {
        match self {
            StudySurface::D2 => "fixtures/semantic-decidability-d2"@,
            StudySurface::HoldoutV5 => "fixtures/semantic-decidability-holdout-v5"@,
        }
    }

    /// Where the surface's study manifests live, relative to the checkout.
    pub fn target_relative_path(self) -> (r: &'static str)
        ensures
            r@ == self.target_relative_path_spec(),
    {
        match self {
            StudySurface::D2 => "fixtures/semantic-decidability-d2",
            StudySurface::HoldoutV5 => "fixtures/semantic-decidability-holdout-v5",
        }
    }

    /// Where the surface's source judge fixtures live, relative to the checkout.
    pub fn source_relative_path(self) -> (r: &'static str)
        ensures
            r@ == (match self {
                StudySurface::D2 => "fixtures/semantic-judges"@,
                StudySurface::HoldoutV5 => "fixtures/semantic-judges-holdout-v5"@,
            }),
    {
        match self {
            StudySurface::D2 => "fixtures/semantic-judges",
            StudySurface::HoldoutV5 => "fixtures/semantic-judges-holdout-v5",
        }
    }

    /// The identity of the surface's source corpus.
    pub fn source_corpus_id(self) -> (r: &'static str)
        ensures
            r@ == (match self {
                StudySurface::D2 => "semantic-judges-calibration-v1"@,
                StudySurface::HoldoutV5 => "semantic-judges-holdout-v5"@,
            }),
    {
        match self {
            StudySurface::D2 => "semantic-judges-calibration-v1",
            StudySurface::HoldoutV5 => "semantic-judges-holdout-v5",
        }
    }

    /// The runtime candidate the surface evaluates, if any.
    pub fn candidate_id(self) -> (r: Option<&'static str>)
        ensures
            self == StudySurface::D2 ==> r is None,
            self == StudySurface::HoldoutV5 ==> r is Some && r->0@ == "semantic-decidability-d3-v1"@,
    {
        match self {
            StudySurface::D2 => None,
            StudySurface::HoldoutV5 => Some("semantic-decidability-d3-v1"),
        }
    }
}

/// The two surfaces read disjoint corpora.
pub proof fn surfaces_are_disjoint()
    ensures
        StudySurface::D2.target_relative_path_spec() != StudySurface::HoldoutV5.target_relative_path_spec(),
{
    reveal_strlit("fixtures/semantic-decidability-d2");
    reveal_strlit("fixtures/semantic-decidability-holdout-v5");
    assert(StudySurface::D2.target_relative_path_spec().len() != StudySurface::HoldoutV5.target_relative_path_spec().len());
}

/// Accepts the study target only where its canonical path is the surface's
/// canonical manifest directory in this checkout.
pub fn require_study_corpus(surface: StudySurface, target: &str, expected: &str) -> (r: Result<(), String>)
    ensures
        target@ == expected@ ==> r is Ok,
        target@ != expected@ ==> r is Err && r->Err_0@ == surface.name_spec()
            + " decidability study accepts only this checkout's "@ + surface.target_relative_path_spec() + " corpus"@,
{
    if crate::text::str_eq(target, expected) {
        return Ok(());
    }
    let mut message = String::from_str(surface.name());
    message.append(" decidability study accepts only this checkout's ");
    message.append(surface.target_relative_path());
    message.append(" corpus");
    Err(message)
}

/// The source corpus directory once resolved, or why it is unavailable.
pub fn require_source_corpus(surface: StudySurface, resolved: Result<String, String>) -> (r: Result<String, String>)
    ensures
        resolved is Ok ==> r == resolved,
        resolved is Err ==> r is Err && r->Err_0@ == surface.name_spec() + " source corpus unavailable: "@
            + resolved->Err_0@,
{
    match resolved {
        Ok(path) => Ok(path),
        Err(error) => {
            let mut message = String::from_str(surface.name());
            message.append(" source corpus unavailable: ");
            message.append(error.as_str());
            Err(message)
        },
    }
}

/// Providers the study can run against.
#[derive(Debug, Clone, Copy, PartialEq, Eq, Structural)]
pub enum Provider {
    Mistral,
    Google,
    Nvidia,
}

/// The lowercase name of a provider.
pub fn provider_name(provider: Provider) -> (r: &'static str)
    ensures
        r@ == (match provider {
            Provider::Mistral => "mistral"@,
            Provider::Google => "google"@,
            Provider::Nvidia => "nvidia"@,
        }),
{
    match provider {
        Provider::Mistral => "mistral",
        Provider::Google => "google",
        Provider::Nvidia => "nvidia",
    }
}

// ---------------------------------------------------------------------------
// Study cases and their metrics.
// ---------------------------------------------------------------------------

/// What the decidability check expects of a variant.
#[derive(Debug, Clone, Copy, PartialEq, Eq, Structural)]
pub enum Disposition {
    Permit,
    ForceAbstain,
}

/// One variant of a study case: the expected disposition and the decision the
/// judge's base decision became under it.
#[derive(Debug)]
pub struct VariantOutcome {
    pub variant_id: String,
    pub expected_disposition: Disposition,
    pub composed_decision: Option<SoftJudgeDecision>,
    pub escalated_to_abstain: bool,
}

/// One fixture in one trial.
#[derive(Debug)]
pub struct StudyCase {
    pub fixture_id: String,
    pub source_fixture_id: String,
    pub semantic_label: CalibrationLabel,
    pub trial: usize,
    pub seed: Option<u64>,
    pub base_decision: Option<SoftJudgeDecision>,
    pub variants: Vec<VariantOutcome>,
}

/// Whether the decidability check turned a decided base into an abstention.
pub open spec fn escalation(base: Option<SoftJudgeDecision>, composed: Option<SoftJudgeDecision>) -> bool {
    base is Some && composed == Some(SoftJudgeDecision::Abstain) && base->0 != SoftJudgeDecision::Abstain
}

/// Whether the decidability check turned a decided base into an abstention.
pub fn escalated_to_abstain(base: Option<SoftJudgeDecision>, composed: Option<SoftJudgeDecision>) -> (r: bool)
    ensures
        r == escalation(base, composed),
{
    match (base, composed) {
        (Some(b), Some(SoftJudgeDecision::Abstain)) => b != SoftJudgeDecision::Abstain,
        _ => false,
    }
}

/// The composed decision of the first permit control among the variants.
pub open spec fn permit_decision(vs: Seq<VariantOutcome>) -> Option<SoftJudgeDecision>
    decreases vs.len(),
{
    if vs.len() == 0 {
        None
    } else if vs[0].expected_disposition == Disposition::Permit {
        vs[0].composed_decision
    } else {
        permit_decision(vs.drop_first())
    }
}

/// A case the metrics can score: it has a base decision, a permit control with
/// a composed decision, and a composed decision for every variant.
pub open spec fn scorable(c: StudyCase) -> bool {
    &&& c.base_decision is Some
    &&& permit_decision(c.variants@) is Some
    &&& forall|k: int| 0 <= k < c.variants@.len() ==> (#[trigger] c.variants@[k]).composed_decision is Some
}

/// A variant that the decidability check must turn into an abstention.
pub open spec fn is_force(v: VariantOutcome) -> bool {
    v.expected_disposition == Disposition::ForceAbstain
}

/// A variant whose composed decision is not an abstention.
pub open spec fn decides(v: VariantOutcome) -> bool {
    v.composed_decision != Some(SoftJudgeDecision::Abstain)
}

/// The decision metrics of a set of scorable cases.
#[derive(Debug, Clone, Copy, PartialEq, Eq, Structural)]
pub struct DecisionMetrics {
    pub eligible_clear_cases: usize,
    pub eligible_clear_decisions: usize,
    pub eligible_true_positives: usize,
    pub eligible_false_positives: usize,
    pub eligible_false_negatives: usize,
    pub eligible_ambiguous_cases: usize,
    pub eligible_ambiguous_abstentions: usize,
    pub typed_insufficiency_variants: usize,
    pub base_unsafe_assertions: usize,
    pub composed_unsafe_assertions: usize,
    pub typed_insufficiency_abstentions: usize,
    pub gate_escalations: usize,
    pub overall_variants: usize,
    pub overall_decisions: usize,
}

/// The permit control's decision of a case.
pub open spec fn permit_of(c: StudyCase) -> SoftJudgeDecision {
    permit_decision(c.variants@)->0
}


/// Variants whose composed decision is not an abstention.
pub open spec fn variant_decides() -> spec_fn(VariantOutcome) -> bool {
    |v: VariantOutcome| decides(v)
}

/// Force variants.
pub open spec fn variant_forced() -> spec_fn(VariantOutcome) -> bool {
    |v: VariantOutcome| is_force(v)
}

/// Force variants that still decided.
pub open spec fn variant_unsafe() -> spec_fn(VariantOutcome) -> bool {
    |v: VariantOutcome| is_force(v) && decides(v)
}

/// Force variants that abstained.
pub open spec fn variant_abstained() -> spec_fn(VariantOutcome) -> bool {
    |v: VariantOutcome| is_force(v) && !decides(v)
}

/// Force variants escalated to an abstention.
pub open spec fn variant_escalated() -> spec_fn(VariantOutcome) -> bool {
    |v: VariantOutcome| is_force(v) && v.escalated_to_abstain
}

/// Cases with a clear label.
pub open spec fn case_clear() -> spec_fn(StudyCase) -> bool {
    |c: StudyCase| c.semantic_label != CalibrationLabel::Ambiguous
}

/// Clear cases whose permit control decided.
pub open spec fn case_clear_decided() -> spec_fn(StudyCase) -> bool {
    |c: StudyCase| c.semantic_label != CalibrationLabel::Ambiguous && permit_of(c) != SoftJudgeDecision::Abstain
}

/// Positive cases found by the permit control.
pub open spec fn case_true_positive() -> spec_fn(StudyCase) -> bool {
    |c: StudyCase| c.semantic_label == CalibrationLabel::Positive && permit_of(c) == SoftJudgeDecision::Finding
}

/// Negative cases with a finding by the permit control.
pub open spec fn case_false_positive() -> spec_fn(StudyCase) -> bool {
    |c: StudyCase| c.semantic_label == CalibrationLabel::Negative && permit_of(c) == SoftJudgeDecision::Finding
}

/// Positive cases the permit control missed.
pub open spec fn case_false_negative() -> spec_fn(StudyCase) -> bool {
    |c: StudyCase| c.semantic_label == CalibrationLabel::Positive && permit_of(c) != SoftJudgeDecision::Finding
}

/// Ambiguous cases.
pub open spec fn case_ambiguous() -> spec_fn(StudyCase) -> bool {
    |c: StudyCase| c.semantic_label == CalibrationLabel::Ambiguous
}

/// Ambiguous cases whose permit control abstained.
pub open spec fn case_ambiguous_abstained() -> spec_fn(StudyCase) -> bool {
    |c: StudyCase| c.semantic_label == CalibrationLabel::Ambiguous && permit_of(c) == SoftJudgeDecision::Abstain
}

/// The variants of a case.
pub open spec fn case_variants() -> spec_fn(StudyCase) -> nat {
    |c: StudyCase| c.variants@.len()
}

/// The force variants of a case.
pub open spec fn case_forced() -> spec_fn(StudyCase) -> nat {
    |c: StudyCase| counting::count(c.variants@, variant_forced())
}

/// The force variants of a case whose base decision was not an abstention.
pub open spec fn case_base_unsafe() -> spec_fn(StudyCase) -> nat {
    |c: StudyCase| if c.base_decision != Some(SoftJudgeDecision::Abstain) { counting::count(c.variants@, variant_forced()) } else { 0 }
}

/// The force variants of a case that still decided.
pub open spec fn case_unsafe() -> spec_fn(StudyCase) -> nat {
    |c: StudyCase| counting::count(c.variants@, variant_unsafe())
}

/// The force variants of a case that abstained.
pub open spec fn case_abstained() -> spec_fn(StudyCase) -> nat {
    |c: StudyCase| counting::count(c.variants@, variant_abstained())
}

/// The force variants of a case that were escalated.
pub open spec fn case_escalated() -> spec_fn(StudyCase) -> nat {
    |c: StudyCase| counting::count(c.variants@, variant_escalated())
}

/// The variants of a case that decided.
pub open spec fn case_decisions() -> spec_fn(StudyCase) -> nat {
    |c: StudyCase| counting::count(c.variants@, variant_decides())
}

/// The decision metrics: semantic precision and recall come from the permit
/// control alone, and typed insufficiency from the force variants alone.
pub open spec fn decision_metrics_spec(cases: Seq<StudyCase>) -> DecisionMetrics {
    DecisionMetrics {
        eligible_clear_cases: counting::count(cases, case_clear()) as usize,
        eligible_clear_decisions: counting::count(cases, case_clear_decided()) as usize,
        eligible_true_positives: counting::count(cases, case_true_positive()) as usize,
        eligible_false_positives: counting::count(cases, case_false_positive()) as usize,
        eligible_false_negatives: counting::count(cases, case_false_negative()) as usize,
        eligible_ambiguous_cases: counting::count(cases, case_ambiguous()) as usize,
        eligible_ambiguous_abstentions: counting::count(cases, case_ambiguous_abstained()) as usize,
        typed_insufficiency_variants: counting::sum(cases, case_forced()) as usize,
        base_unsafe_assertions: counting::sum(cases, case_base_unsafe()) as usize,
        composed_unsafe_assertions: counting::sum(cases, case_unsafe()) as usize,
        typed_insufficiency_abstentions: counting::sum(cases, case_abstained()) as usize,
        gate_escalations: counting::sum(cases, case_escalated()) as usize,
        overall_variants: counting::sum(cases, case_variants()) as usize,
        overall_decisions: counting::sum(cases, case_decisions()) as usize,
    }
}

/// Variant-level counts of one case.
#[derive(Debug, Clone, Copy, PartialEq, Eq, Structural)]
struct VariantCounts {
    variants: usize,
    decisions: usize,
    force: usize,
    composed_unsafe: usize,
    force_abstentions: usize,
    escalations: usize,
}

proof fn lemma_permit_decision_at(vs: Seq<VariantOutcome>, k: int)
    requires
        0 <= k < vs.len(),
        vs[k].expected_disposition == Disposition::Permit,
        forall|j: int| 0 <= j < k ==> vs[j].expected_disposition != Disposition::Permit,
    ensures
        permit_decision(vs) == vs[k].composed_decision,
    decreases k,
{
    if k > 0 {
        assert(vs[0].expected_disposition != Disposition::Permit);
        lemma_permit_decision_at(vs.drop_first(), k - 1);
    }
}

proof fn lemma_no_permit(vs: Seq<VariantOutcome>)
    requires
        forall|j: int| 0 <= j < vs.len() ==> vs[j].expected_disposition != Disposition::Permit,
    ensures
        permit_decision(vs) is None,
    decreases vs.len(),
{
    if vs.len() > 0 {
        lemma_no_permit(vs.drop_first());
    }
}

/// The composed decision of the case's first permit control.
fn find_permit_decision(c: &StudyCase) -> (r: SoftJudgeDecision)
    requires
        scorable(*c),
    ensures
        r == permit_of(*c),
{
    let mut k: usize = 0;
    while k < c.variants.len()
        invariant
            k <= c.variants.len(),
            scorable(*c),
            forall|j: int| 0 <= j < k ==> c.variants@[j].expected_disposition != Disposition::Permit,
        decreases c.variants.len() - k,
    {
        if c.variants[k].expected_disposition == Disposition::Permit {
            proof {
                lemma_permit_decision_at(c.variants@, k as int);
                assert(c.variants@[k as int].composed_decision is Some);
            }
            match c.variants[k].composed_decision {
                Some(d) => {
                    return d;
                },
                None => {
                    proof {
                        assert(false);
                    }
                    return SoftJudgeDecision::Abstain;
                },
            }
        }
        k = k + 1;
    }
    proof {
        lemma_no_permit(c.variants@);
    }
    SoftJudgeDecision::Abstain
}

/// Counts the variants of one case.
fn count_variants(c: &StudyCase) -> (r: VariantCounts)
    ensures
        r.variants == c.variants@.len(),
        r.decisions == counting::count(c.variants@, variant_decides()),
        r.force == counting::count(c.variants@, variant_forced()),
        r.composed_unsafe == counting::count(c.variants@, variant_unsafe()),
        r.force_abstentions == counting::count(c.variants@, variant_abstained()),
        r.escalations == counting::count(c.variants@, variant_escalated()),
{
    let ghost vs = c.variants@;
    let mut r = VariantCounts { variants: 0, decisions: 0, force: 0, composed_unsafe: 0, force_abstentions: 0, escalations: 0 };
    let mut k: usize = 0;
    while k < c.variants.len()
        invariant
            vs == c.variants@,
            k <= vs.len(),
            r.variants == k,
            r.decisions == counting::count(vs.subrange(0, k as int), variant_decides()),
            r.force == counting::count(vs.subrange(0, k as int), variant_forced()),
            r.composed_unsafe == counting::count(vs.subrange(0, k as int), variant_unsafe()),
            r.force_abstentions == counting::count(vs.subrange(0, k as int), variant_abstained()),
            r.escalations == counting::count(vs.subrange(0, k as int), variant_escalated()),
        decreases vs.len() - k,
    {
        proof {
            counting::lemma_count_prefix(vs, variant_decides(), k as int);
            counting::lemma_count_prefix(vs, variant_forced(), k as int);
            counting::lemma_count_prefix(vs, variant_unsafe(), k as int);
            counting::lemma_count_prefix(vs, variant_abstained(), k as int);
            counting::lemma_count_prefix(vs, variant_escalated(), k as int);
        }
        let v = &c.variants[k];
        let decided = match v.composed_decision {
            Some(SoftJudgeDecision::Abstain) => false,
            _ => true,
        };
        let force = v.expected_disposition == Disposition::ForceAbstain;
        r.variants = r.variants + 1;
        if decided {
            r.decisions = r.decisions + 1;
        }
        if force {
            r.force = r.force + 1;
            if decided {
                r.composed_unsafe = r.composed_unsafe + 1;
            } else {
                r.force_abstentions = r.force_abstentions + 1;
            }
            if v.escalated_to_abstain {
                r.escalations = r.escalations + 1;
            }
        }
        k = k + 1;
    }
    proof {
        counting::lemma_full_prefix(vs);
    }
    r
}

/// The cases at the given positions, in the order given.
pub open spec fn picked(cases: Seq<StudyCase>, picks: Seq<usize>) -> Seq<StudyCase> {
    picks.map_values(|k: usize| cases[k as int])
}

/// The decision metrics of the scorable cases at the given positions.
pub fn selected_decision_metrics(cases: &[StudyCase], picks: &Vec<usize>) -> (r: DecisionMetrics)
    requires
        forall|j: int| 0 <= j < picks@.len() ==> #[trigger] picks@[j] < cases@.len(),
        forall|j: int| 0 <= j < picks@.len() ==> scorable(#[trigger] picked(cases@, picks@)[j]),
        counting::sum(picked(cases@, picks@), case_variants()) <= usize::MAX,
    ensures
        r == decision_metrics_spec(picked(cases@, picks@)),
{
    let ghost s = picked(cases@, picks@);
    proof {
        assert forall|c: StudyCase| #[trigger] (case_forced())(c) <= (case_variants())(c) by {
            counting::lemma_count_bound(c.variants@, variant_forced());
        }
        assert forall|c: StudyCase| #[trigger] (case_base_unsafe())(c) <= (case_variants())(c) by {
            counting::lemma_count_bound(c.variants@, variant_forced());
        }
        assert forall|c: StudyCase| #[trigger] (case_unsafe())(c) <= (case_variants())(c) by {
            counting::lemma_count_bound(c.variants@, variant_unsafe());
        }
        assert forall|c: StudyCase| #[trigger] (case_abstained())(c) <= (case_variants())(c) by {
            counting::lemma_count_bound(c.variants@, variant_abstained());
        }
        assert forall|c: StudyCase| #[trigger] (case_escalated())(c) <= (case_variants())(c) by {
            counting::lemma_count_bound(c.variants@, variant_escalated());
        }
        assert forall|c: StudyCase| #[trigger] (case_decisions())(c) <= (case_variants())(c) by {
            counting::lemma_count_bound(c.variants@, variant_decides());
        }
    }
    let mut r = DecisionMetrics {
        eligible_clear_cases: 0,
        eligible_clear_decisions: 0,
        eligible_true_positives: 0,
        eligible_false_positives: 0,
        eligible_false_negatives: 0,
        eligible_ambiguous_cases: 0,
        eligible_ambiguous_abstentions: 0,
        typed_insufficiency_variants: 0,
        base_unsafe_assertions: 0,
        composed_unsafe_assertions: 0,
        typed_insufficiency_abstentions: 0,
        gate_escalations: 0,
        overall_variants: 0,
        overall_decisions: 0,
    };
    let mut i: usize = 0;
    while i < picks.len()
        invariant
            s == picked(cases@, picks@),
            s.len() == picks@.len(),
            forall|j: int| 0 <= j < picks@.len() ==> #[trigger] picks@[j] < cases@.len(),
            i <= s.len(),
            forall|j: int| 0 <= j < s.len() ==> scorable(#[trigger] s[j]),
            counting::sum(s, case_variants()) <= usize::MAX,
            forall|c: StudyCase| #[trigger] (case_forced())(c) <= (case_variants())(c),
            forall|c: StudyCase| #[trigger] (case_base_unsafe())(c) <= (case_variants())(c),
            forall|c: StudyCase| #[trigger] (case_unsafe())(c) <= (case_variants())(c),
            forall|c: StudyCase| #[trigger] (case_abstained())(c) <= (case_variants())(c),
            forall|c: StudyCase| #[trigger] (case_escalated())(c) <= (case_variants())(c),
            forall|c: StudyCase| #[trigger] (case_decisions())(c) <= (case_variants())(c),
            r.eligible_clear_cases == counting::count(s.subrange(0, i as int), case_clear()),
            r.eligible_clear_decisions == counting::count(s.subrange(0, i as int), case_clear_decided()),
            r.eligible_true_positives == counting::count(s.subrange(0, i as int), case_true_positive()),
            r.eligible_false_positives == counting::count(s.subrange(0, i as int), case_false_positive()),
            r.eligible_false_negatives == counting::count(s.subrange(0, i as int), case_false_negative()),
            r.eligible_ambiguous_cases == counting::count(s.subrange(0, i as int), case_ambiguous()),
            r.eligible_ambiguous_abstentions == counting::count(s.subrange(0, i as int), case_ambiguous_abstained()),
            r.typed_insufficiency_variants == counting::sum(s.subrange(0, i as int), case_forced()),
            r.base_unsafe_assertions == counting::sum(s.subrange(0, i as int), case_base_unsafe()),
            r.composed_unsafe_assertions == counting::sum(s.subrange(0, i as int), case_unsafe()),
            r.typed_insufficiency_abstentions == counting::sum(s.subrange(0, i as int), case_abstained()),
            r.gate_escalations == counting::sum(s.subrange(0, i as int), case_escalated()),
            r.overall_variants == counting::sum(s.subrange(0, i as int), case_variants()),
            r.overall_decisions == counting::sum(s.subrange(0, i as int), case_decisions()),
        decreases s.len() - i,
    {
        let c = &cases[picks[i]];
        proof {
            counting::lemma_count_prefix(s, case_clear(), i as int);
            counting::lemma_count_prefix(s, case_clear_decided(), i as int);
            counting::lemma_count_prefix(s, case_true_positive(), i as int);
            counting::lemma_count_prefix(s, case_false_positive(), i as int);
            counting::lemma_count_prefix(s, case_false_negative(), i as int);
            counting::lemma_count_prefix(s, case_ambiguous(), i as int);
            counting::lemma_count_prefix(s, case_ambiguous_abstained(), i as int);
            counting::lemma_sum_prefix(s, case_forced(), i as int);
            counting::lemma_sum_prefix(s, case_base_unsafe(), i as int);
            counting::lemma_sum_prefix(s, case_unsafe(), i as int);
            counting::lemma_sum_prefix(s, case_abstained(), i as int);
            counting::lemma_sum_prefix(s, case_escalated(), i as int);
            counting::lemma_sum_prefix(s, case_variants(), i as int);
            counting::lemma_sum_prefix(s, case_decisions(), i as int);
            counting::lemma_sum_prefix_monotone(s, case_variants(), i + 1);
            let next = s.subrange(0, i + 1);
            counting::lemma_sum_pointwise_le(next, case_forced(), case_variants());
            counting::lemma_sum_pointwise_le(next, case_base_unsafe(), case_variants());
            counting::lemma_sum_pointwise_le(next, case_unsafe(), case_variants());
            counting::lemma_sum_pointwise_le(next, case_abstained(), case_variants());
            counting::lemma_sum_pointwise_le(next, case_escalated(), case_variants());
            counting::lemma_sum_pointwise_le(next, case_decisions(), case_variants());
            assert(scorable(s[i as int]));
            assert(s[i as int] == *c);
        }
        let permit = find_permit_decision(c);
        let counts = count_variants(c);
        let base_abstains = match c.base_decision {
            Some(SoftJudgeDecision::Abstain) => true,
            _ => false,
        };
        match c.semantic_label {
            CalibrationLabel::Positive => {
                r.eligible_clear_cases = r.eligible_clear_cases + 1;
                if permit != SoftJudgeDecision::Abstain {
                    r.eligible_clear_decisions = r.eligible_clear_decisions + 1;
                }
                if permit == SoftJudgeDecision::Finding {
                    r.eligible_true_positives = r.eligible_true_positives + 1;
                } else {
                    r.eligible_false_negatives = r.eligible_false_negatives + 1;
                }
            },
            CalibrationLabel::Negative => {
                r.eligible_clear_cases = r.eligible_clear_cases + 1;
                if permit != SoftJudgeDecision::Abstain {
                    r.eligible_clear_decisions = r.eligible_clear_decisions + 1;
                }
                if permit == SoftJudgeDecision::Finding {
                    r.eligible_false_positives = r.eligible_false_positives + 1;
                }
            },
            CalibrationLabel::Ambiguous => {
                r.eligible_ambiguous_cases = r.eligible_ambiguous_cases + 1;
                if permit == SoftJudgeDecision::Abstain {
                    r.eligible_ambiguous_abstentions = r.eligible_ambiguous_abstentions + 1;
                }
            },
        }
        r.overall_variants = r.overall_variants + counts.variants;
        r.overall_decisions = r.overall_decisions + counts.decisions;
        r.typed_insufficiency_variants = r.typed_insufficiency_variants + counts.force;
        if !base_abstains {
            r.base_unsafe_assertions = r.base_unsafe_assertions + counts.force;
        }
        r.composed_unsafe_assertions = r.composed_unsafe_assertions + counts.composed_unsafe;
        r.typed_insufficiency_abstentions = r.typed_insufficiency_abstentions + counts.force_abstentions;
        r.gate_escalations = r.gate_escalations + counts.escalations;
        i = i + 1;
    }
    proof {
        counting::lemma_full_prefix(s);
    }
    r
}

/// The decision metrics of scorable cases.
pub fn decision_metrics(cases: &[StudyCase]) -> (r: DecisionMetrics)
    requires
        forall|i: int| 0 <= i < cases@.len() ==> scorable(#[trigger] cases@[i]),
        counting::sum(cases@, case_variants()) <= usize::MAX,
    ensures
        r == decision_metrics_spec(cases@),
{
    let mut picks: Vec<usize> = Vec::new();
    let mut k: usize = 0;
    while k < cases.len()
        invariant
            k <= cases@.len(),
            picks@.len() == k,
            forall|j: int| 0 <= j < k ==> #[trigger] picks@[j] == j,
        decreases cases.len() - k,
    {
        picks.push(k);
        k = k + 1;
    }
    assert(picked(cases@, picks@) =~= cases@);
    selected_decision_metrics(cases, &picks)
}

// ---------------------------------------------------------------------------
// Trial and aggregate reports.
// ---------------------------------------------------------------------------

/// Whether the decision metrics can score a case.
pub fn case_scorable(c: &StudyCase) -> (r: bool)
    ensures
        r == scorable(*c),
{
    if c.base_decision.is_none() {
        return false;
    }
    let mut has_permit = false;
    let mut permit_decided = false;
    let mut k: usize = 0;
    while k < c.variants.len()
        invariant
            k <= c.variants@.len(),
            forall|j: int| 0 <= j < k ==> (#[trigger] c.variants@[j]).composed_decision is Some,
            has_permit == exists|j: int| 0 <= j < k && (#[trigger] c.variants@[j]).expected_disposition == Disposition::Permit,
            has_permit ==> permit_decision(c.variants@) is Some,
        decreases c.variants.len() - k,
    {
        if c.variants[k].composed_decision.is_none() {
            return false;
        }
        if !has_permit && c.variants[k].expected_disposition == Disposition::Permit {
            proof {
                lemma_permit_decision_at(c.variants@, k as int);
            }
            has_permit = true;
        }
        k = k + 1;
    }
    if !has_permit {
        proof {
            lemma_no_permit(c.variants@);
        }
    }
    has_permit
}

/// Whether a case has the judge's base decision.
pub open spec fn has_base() -> spec_fn(StudyCase) -> bool {
    |c: StudyCase| c.base_decision is Some
}

/// The cases of the trials in `trials`, in order.
pub open spec fn cases_of(s: Seq<StudyCase>, trials: Set<usize>) -> Seq<StudyCase>
    decreases s.len(),
{
    if s.len() == 0 {
        Seq::empty()
    } else if trials.contains(s.last().trial) {
        cases_of(s.drop_last(), trials).push(s.last())
    } else {
        cases_of(s.drop_last(), trials)
    }
}

/// Every case of the sequence can be scored.
pub open spec fn all_scorable(s: Seq<StudyCase>) -> bool {
    forall|j: int| 0 <= j < s.len() ==> scorable(#[trigger] s[j])
}

/// One trial's report: its provider calls, and its metrics when every
/// expected call decided.
#[derive(Debug, Clone, Copy, PartialEq, Eq, Structural)]
pub struct TrialReport {
    pub trial: usize,
    pub expected_provider_calls: usize,
    pub successful_provider_calls: usize,
    pub operationally_complete: bool,
    pub metrics: Option<DecisionMetrics>,
}

/// The report of trial `t` of a study expecting `fixtures_per_trial` calls
/// per trial.
pub open spec fn trial_report(s: Seq<StudyCase>, t: usize, fixtures_per_trial: usize) -> TrialReport {
    let runs = cases_of(s, set![t]);
    let ok = counting::count(runs, has_base());
    TrialReport {
        trial: t,
        expected_provider_calls: fixtures_per_trial,
        successful_provider_calls: ok as usize,
        operationally_complete: ok == fixtures_per_trial,
        metrics: if ok == fixtures_per_trial { Some(decision_metrics_spec(runs)) } else { None },
    }
}

/// The cases of every operationally complete trial can be scored.
pub open spec fn complete_trials_scorable(s: Seq<StudyCase>, fixtures_per_trial: usize, trials: usize) -> bool {
    forall|t: usize| t < trials && #[trigger] counting::count(cases_of(s, set![t]), has_base()) == fixtures_per_trial
        ==> all_scorable(cases_of(s, set![t]))
}

/// Keeping the cases of some trials keeps no more than all of them.
proof fn lemma_sum_cases_of(s: Seq<StudyCase>, trials: Set<usize>, f: spec_fn(StudyCase) -> nat)
    ensures
        counting::sum(cases_of(s, trials), f) <= counting::sum(s, f),
    decreases s.len(),
{
    if s.len() > 0 {
        lemma_sum_cases_of(s.drop_last(), trials, f);
        let rest = cases_of(s.drop_last(), trials);
        if trials.contains(s.last().trial) {
            assert(rest.push(s.last()).drop_last() =~= rest);
        }
    }
}

/// Whether `v` holds `x`.
fn holds(v: &Vec<usize>, x: usize) -> (r: bool)
    ensures
        r == v@.contains(x),
{
    let mut k: usize = 0;
    while k < v.len()
        invariant
            k <= v@.len(),
            forall|j: int| 0 <= j < k ==> v@[j] != x,
        decreases v.len() - k,
    {
        if v[k] == x {
            assert(v@[k as int] == x);
            return true;
        }
        k = k + 1;
    }
    false
}

/// The positions of the cases of the given trials, and how many of those
/// cases have a base decision.
fn pick_trials(cases: &[StudyCase], trials: &Vec<usize>) -> (r: (Vec<usize>, usize))
    ensures
        forall|j: int| 0 <= j < r.0@.len() ==> #[trigger] r.0@[j] < cases@.len(),
        picked(cases@, r.0@) == cases_of(cases@, trials@.to_set()),
        r.1 == counting::count(cases_of(cases@, trials@.to_set()), has_base()),
{
    let ghost t = trials@.to_set();
    let mut picks: Vec<usize> = Vec::new();
    let mut ok: usize = 0;
    let mut k: usize = 0;
    assert(picked(cases@, picks@) =~= cases_of(cases@.subrange(0, 0), t));
    while k < cases.len()
        invariant
            k <= cases@.len(),
            t == trials@.to_set(),
            forall|j: int| 0 <= j < picks@.len() ==> #[trigger] picks@[j] < k,
            picks@.len() <= k,
            ok <= picks@.len(),
            picked(cases@, picks@) == cases_of(cases@.subrange(0, k as int), t),
            ok == counting::count(cases_of(cases@.subrange(0, k as int), t), has_base()),
        decreases cases.len() - k,
    {
        let ghost before = cases_of(cases@.subrange(0, k as int), t);
        assert(cases@.subrange(0, k + 1).drop_last() =~= cases@.subrange(0, k as int));
        assert(cases@.subrange(0, k + 1).last() == cases@[k as int]);
        if holds(trials, cases[k].trial) {
            let ghost c = cases@[k as int];
            assert(before.push(c).drop_last() =~= before);
            if cases[k].base_decision.is_some() {
                ok = ok + 1;
            }
            picks.push(k);
            assert(picked(cases@, picks@) =~= before.push(c));
        }
        k = k + 1;
    }
    assert(cases@.subrange(0, cases@.len() as int) =~= cases@);
    (picks, ok)
}

/// The report of every trial of a study expecting `fixtures_per_trial` calls
/// per trial; a trial is scored only when every expected call decided.
pub fn summarize_trials(cases: &[StudyCase], fixtures_per_trial: usize, trials: usize) -> (r: Vec<TrialReport>)
    requires
        complete_trials_scorable(cases@, fixtures_per_trial, trials),
        counting::sum(cases@, case_variants()) <= usize::MAX,
    ensures
        r@.len() == trials,
        forall|t: int| 0 <= t < trials ==> #[trigger] r@[t] == trial_report(cases@, t as usize, fixtures_per_trial),
{
    let mut out: Vec<TrialReport> = Vec::new();
    let mut t: usize = 0;
    while t < trials
        invariant
            t <= trials,
            out@.len() == t,
            complete_trials_scorable(cases@, fixtures_per_trial, trials),
            counting::sum(cases@, case_variants()) <= usize::MAX,
            forall|u: int| 0 <= u < t ==> #[trigger] out@[u] == trial_report(cases@, u as usize, fixtures_per_trial),
        decreases trials - t,
    {
        let only: Vec<usize> = vec![t];
        assert(only@.to_set() =~= set![t]);
        let (picks, ok) = pick_trials(cases, &only);
        let complete = ok == fixtures_per_trial;
        let metrics = if complete {
            proof {
                lemma_sum_cases_of(cases@, set![t], case_variants());
                assert(all_scorable(cases_of(cases@, set![t])));
            }
            Some(selected_decision_metrics(cases, &picks))
        } else {
            None
        };
        out.push(TrialReport {
            trial: t,
            expected_provider_calls: fixtures_per_trial,
            successful_provider_calls: ok,
            operationally_complete: complete,
            metrics,
        });
        t = t + 1;
    }
    out
}

/// The study's totals over its operationally complete trials.
#[derive(Debug, Clone, Copy, PartialEq, Eq, Structural)]
pub struct AggregateReport {
    pub complete_trials: usize,
    pub incomplete_trials: usize,
    pub complete_trial_cases: usize,
    pub metrics: Option<DecisionMetrics>,
}

/// The ids of the trials reported operationally complete.
pub open spec fn complete_ids(reports: Seq<TrialReport>) -> Set<usize> {
    Set::new(|t: usize| exists|j: int| 0 <= j < reports.len() && (#[trigger] reports[j]).operationally_complete
        && reports[j].trial == t)
}

/// The study's totals: the complete trials, the others, and the metrics of
/// the complete trials' cases taken together, when there are any.
pub open spec fn aggregate_report(s: Seq<StudyCase>, reports: Seq<TrialReport>) -> AggregateReport {
    let ids = complete_ids(reports);
    let cs = cases_of(s, ids);
    AggregateReport {
        complete_trials: ids.len() as usize,
        incomplete_trials: (reports.len() - ids.len()) as usize,
        complete_trial_cases: cs.len() as usize,
        metrics: if cs.len() > 0 { Some(decision_metrics_spec(cs)) } else { None },
    }
}

/// Totals the study over the trials its reports call operationally complete.
pub fn summarize_aggregate(cases: &[StudyCase], reports: &Vec<TrialReport>) -> (r: AggregateReport)
    requires
        all_scorable(cases_of(cases@, complete_ids(reports@))),
        counting::sum(cases@, case_variants()) <= usize::MAX,
    ensures
        r == aggregate_report(cases@, reports@),
{
    let ghost rs = reports@;
    let mut ids: Vec<usize> = Vec::new();
    let mut j: usize = 0;
    while j < reports.len()
        invariant
            j <= rs.len(),
            rs == reports@,
            ids@.len() <= j,
            ids@.no_duplicates(),
            ids@.to_set() == Set::new(|t: usize| exists|i: int| 0 <= i < j && (#[trigger] rs[i]).operationally_complete
                && rs[i].trial == t),
        decreases rs.len() - j,
    {
        let ghost old_ids = ids@;
        let rep = reports[j];
        if rep.operationally_complete && !holds(&ids, rep.trial) {
            ids.push(rep.trial);
            assert forall|a: int, b: int| 0 <= a < b < ids@.len() implies ids@[a] != ids@[b] by {
                if b == ids@.len() - 1 {
                    assert(old_ids[a] == ids@[a]);
                    assert(!old_ids.contains(rep.trial));
                }
            }
        }
        assert(ids@.to_set() =~= Set::new(|t: usize| exists|i: int| 0 <= i < j + 1 && (#[trigger] rs[i]).operationally_complete
            && rs[i].trial == t)) by {
            assert forall|t: usize| #[trigger] ids@.to_set().contains(t) implies exists|i: int| 0 <= i < j + 1
                && (#[trigger] rs[i]).operationally_complete && rs[i].trial == t by {
                if !old_ids.contains(t) {
                    assert(rs[j as int].operationally_complete && rs[j as int].trial == t);
                } else {
                    assert(old_ids.to_set().contains(t));
                }
            }
            assert forall|t: usize| (exists|i: int| 0 <= i < j + 1 && (#[trigger] rs[i]).operationally_complete
                && rs[i].trial == t) implies #[trigger] ids@.to_set().contains(t) by {
                let i = choose|i: int| 0 <= i < j + 1 && (#[trigger] rs[i]).operationally_complete && rs[i].trial == t;
                if i < j {
                    assert(old_ids.to_set().contains(t));
                    assert(old_ids.contains(t));
                    let w = choose|w: int| 0 <= w < old_ids.len() && old_ids[w] == t;
                    assert(ids@[w] == t);
                } else if old_ids.contains(t) {
                    let w = choose|w: int| 0 <= w < old_ids.len() && old_ids[w] == t;
                    assert(ids@[w] == t);
                } else {
                    assert(ids@[ids@.len() - 1] == t);
                }
            }
        }
        j = j + 1;
    }
    proof {
        assert(ids@.to_set() =~= complete_ids(rs));
        ids@.unique_seq_to_set();
    }
    let (picks, _ok) = pick_trials(cases, &ids);
    let count = picks.len();
    let metrics = if count > 0 {
        proof {
            lemma_sum_cases_of(cases@, complete_ids(rs), case_variants());
        }
        Some(selected_decision_metrics(cases, &picks))
    } else {
        None
    };
    AggregateReport {
        complete_trials: ids.len(),
        incomplete_trials: reports.len() - ids.len(),
        complete_trial_cases: count,
        metrics,
    }
}

/// Every report counts once: the complete trials are a finite set of no more
/// trials than there are reports, so the complete and incomplete trial counts
/// add up to the reports, and a report is scored exactly when its trial is
/// operationally complete.
pub proof fn trial_counts_partition_reports(s: Seq<StudyCase>, reports: Seq<TrialReport>, t: usize, fixtures_per_trial: usize)
    requires
        reports.len() <= usize::MAX,
    ensures
        complete_ids(reports).finite(),
        complete_ids(reports).len() <= reports.len(),
        aggregate_report(s, reports).complete_trials + aggregate_report(s, reports).incomplete_trials == reports.len(),
        trial_report(s, t, fixtures_per_trial).metrics is Some <==> trial_report(s, t, fixtures_per_trial).operationally_complete,
{
    let trials = reports.map_values(|r: TrialReport| r.trial);
    trials.lemma_cardinality_of_set();
    assert(complete_ids(reports).subset_of(trials.to_set())) by {
        assert forall|x: usize| #[trigger] complete_ids(reports).contains(x) implies trials.to_set().contains(x) by {
            let j = choose|j: int| 0 <= j < reports.len() && (#[trigger] reports[j]).operationally_complete
                && reports[j].trial == x;
            assert(trials[j] == x);
        }
    }
    vstd::set_lib::lemma_len_subset(complete_ids(reports), trials.to_set());
}

} // verus!
