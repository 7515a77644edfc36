//! The identity-ambiguity probe of the relevance study: a primary "different
//! target" binding stands only when an independent check confirms the
//! difference, and the probe's match counts.
use vstd::prelude::*;
use crate::counting;

verus! {

/// Providers the probe can run against.
#[derive(Debug, Clone, Copy, PartialEq, Eq, Structural)]
pub enum Provider {
    Mistral,
    Groq,
}

impl Provider {
    /// The lowercase name of the provider.
    pub fn name(self) -> (r: &'static str)
        ensures
            r@ == (match self {
                Provider::Mistral => "mistral"@,
                Provider::Groq => "groq"@,
            }),
    {
        match self {
            Provider::Mistral => "mistral",
            Provider::Groq => "groq",
        }
    }
}

/// How evidence binds to the requested target. `Other` stands for every
/// binding that is neither an exact match, a different target nor unresolved.
#[derive(Debug, Clone, Copy, PartialEq, Eq, Structural)]
pub enum TargetBinding {
    Exact,
    Different,
    Unresolved,
    Other,
}

/// The independent verifier's answer on whether two entities differ.
#[derive(Debug, Clone, Copy, PartialEq, Eq, Structural)]
pub enum DistinctnessConfirmation {
    ConfirmedDifferent,
    NotConfirmed,
}

/// The binding kept after the distinctness check: an unconfirmed "different"
/// becomes "unresolved"; anything else stands.
pub open spec fn gated_binding_spec(primary: TargetBinding, confirmation: DistinctnessConfirmation) -> TargetBinding {
    if primary == TargetBinding::Different && confirmation != DistinctnessConfirmation::ConfirmedDifferent {
        TargetBinding::Unresolved
    } else {
        primary
    }
}

/// Applies the distinctness check to a primary binding.
pub fn gated_binding(primary: TargetBinding, confirmation: DistinctnessConfirmation) -> (r: TargetBinding)
    ensures
        r == gated_binding_spec(primary, confirmation),
{
    if primary == TargetBinding::Different && confirmation != DistinctnessConfirmation::ConfirmedDifferent {
        TargetBinding::Unresolved
    } else {
        primary
    }
}

/// Absence of a confirmed difference is never treated as proof of difference:
/// the check yields "different" only when the verifier confirmed it.
pub proof fn difference_needs_confirmation(primary: TargetBinding, confirmation: DistinctnessConfirmation)
    ensures
        gated_binding_spec(primary, confirmation) == TargetBinding::Different ==> confirmation
            == DistinctnessConfirmation::ConfirmedDifferent,
        gated_binding_spec(primary, confirmation) != TargetBinding::Different ==> gated_binding_spec(
            primary,
            confirmation,
        ) == primary || gated_binding_spec(primary, confirmation) == TargetBinding::Unresolved,
{
}

/// A relevance disposition.
#[derive(Debug, Clone, Copy, PartialEq, Eq, Structural)]
pub enum Disposition {
    Relevant,
    Irrelevant,
    Ambiguous,
}

/// One probe observation, reduced to what the metrics read.
#[derive(Debug, Clone, Copy, PartialEq, Eq, Structural)]
pub struct Observation {
    pub expected_target_binding: TargetBinding,
    pub expected_distinctness_confirmation: DistinctnessConfirmation,
    pub expected_gated_disposition: Disposition,
    pub observed_target_binding: Option<TargetBinding>,
    pub observed_distinctness_confirmation: Option<DistinctnessConfirmation>,
    pub baseline_disposition: Option<Disposition>,
    pub primary_target_match: bool,
    pub distinctness_match: bool,
    pub gated_disposition_match: bool,
    pub failed: bool,
}

/// The probe's counts.
#[derive(Debug, Clone, Copy, PartialEq, Eq, Structural)]
pub struct Metrics {
    pub observations: usize,
    pub successful_observations: usize,
    pub failed_observations: usize,
    pub primary_target_matches: usize,
    pub primary_false_different_on_unresolved: usize,
    pub distinctness_matches: usize,
    pub false_distinctness_confirmation_on_non_different: usize,
    pub missed_distinctness_confirmation_on_different: usize,
    pub baseline_disposition_matches: usize,
    pub gated_disposition_matches: usize,
}

/// Observations without a failure.
pub open spec fn succeeded() -> spec_fn(Observation) -> bool {
    |o: Observation| !o.failed
}

/// Observations whose primary binding matched.
pub open spec fn primary_matched() -> spec_fn(Observation) -> bool {
    |o: Observation| o.primary_target_match
}

/// Unresolved targets the primary call called different.
pub open spec fn false_different() -> spec_fn(Observation) -> bool {
    |o: Observation| o.expected_target_binding == TargetBinding::Unresolved && o.observed_target_binding == Some(TargetBinding::Different)
}

/// Observations whose distinctness answer matched.
pub open spec fn distinctness_matched() -> spec_fn(Observation) -> bool {
    |o: Observation| o.distinctness_match
}

/// Differences confirmed where none was expected.
pub open spec fn false_confirmation() -> spec_fn(Observation) -> bool {
    |o: Observation| o.expected_distinctness_confirmation == DistinctnessConfirmation::NotConfirmed
        && o.observed_distinctness_confirmation == Some(DistinctnessConfirmation::ConfirmedDifferent)
}

/// Expected differences left unconfirmed.
pub open spec fn missed_confirmation() -> spec_fn(Observation) -> bool {
    |o: Observation| o.expected_distinctness_confirmation == DistinctnessConfirmation::ConfirmedDifferent
        && o.observed_distinctness_confirmation == Some(DistinctnessConfirmation::NotConfirmed)
}

/// Baselines that already reached the expected gated disposition.
pub open spec fn baseline_matched() -> spec_fn(Observation) -> bool {
    |o: Observation| o.baseline_disposition == Some(o.expected_gated_disposition)
}

/// Gated dispositions that matched.
pub open spec fn gated_matched() -> spec_fn(Observation) -> bool {
    |o: Observation| o.gated_disposition_match
}

/// The probe's counts over its observations.
pub open spec fn summarize_spec(s: Seq<Observation>) -> Metrics {
    Metrics {
        observations: s.len() as usize,
        successful_observations: counting::count(s, succeeded()) as usize,
        failed_observations: (s.len() - counting::count(s, succeeded())) as usize,
        primary_target_matches: counting::count(s, primary_matched()) as usize,
        primary_false_different_on_unresolved: counting::count(s, false_different()) as usize,
        distinctness_matches: counting::count(s, distinctness_matched()) as usize,
        false_distinctness_confirmation_on_non_different: counting::count(s, false_confirmation()) as usize,
        missed_distinctness_confirmation_on_different: counting::count(s, missed_confirmation()) as usize,
        baseline_disposition_matches: counting::count(s, baseline_matched()) as usize,
        gated_disposition_matches: counting::count(s, gated_matched()) as usize,
    }
}

/// Counts the probe's observations.
pub fn summarize(observations: &[Observation]) -> (r: Metrics)
    ensures
        r == summarize_spec(observations@),
{
    let ghost s = observations@;
    let mut r = Metrics {
        observations: observations.len(),
        successful_observations: 0,
        failed_observations: 0,
        primary_target_matches: 0,
        primary_false_different_on_unresolved: 0,
        distinctness_matches: 0,
        false_distinctness_confirmation_on_non_different: 0,
        missed_distinctness_confirmation_on_different: 0,
        baseline_disposition_matches: 0,
        gated_disposition_matches: 0,
    };
    let mut i: usize = 0;
    while i < observations.len()
        invariant
            s == observations@,
            i <= s.len(),
            r.observations == s.len(),
            r.failed_observations == 0,
            r.successful_observations == counting::count(s.subrange(0, i as int), succeeded()),
            r.primary_target_matches == counting::count(s.subrange(0, i as int), primary_matched()),
            r.primary_false_different_on_unresolved == counting::count(s.subrange(0, i as int), false_different()),
            r.distinctness_matches == counting::count(s.subrange(0, i as int), distinctness_matched()),
            r.false_distinctness_confirmation_on_non_different == counting::count(s.subrange(0, i as int), false_confirmation()),
            r.missed_distinctness_confirmation_on_different == counting::count(s.subrange(0, i as int), missed_confirmation()),
            r.baseline_disposition_matches == counting::count(s.subrange(0, i as int), baseline_matched()),
            r.gated_disposition_matches == counting::count(s.subrange(0, i as int), gated_matched()),
        decreases s.len() - i,
    {
        let o = observations[i];
        proof {
            counting::lemma_count_prefix(s, succeeded(), i as int);
            counting::lemma_count_prefix(s, primary_matched(), i as int);
            counting::lemma_count_prefix(s, false_different(), i as int);
            counting::lemma_count_prefix(s, distinctness_matched(), i as int);
            counting::lemma_count_prefix(s, false_confirmation(), i as int);
            counting::lemma_count_prefix(s, missed_confirmation(), i as int);
            counting::lemma_count_prefix(s, baseline_matched(), i as int);
            counting::lemma_count_prefix(s, gated_matched(), i as int);
        }
        if !o.failed {
            r.successful_observations = r.successful_observations + 1;
        }
        if o.primary_target_match {
            r.primary_target_matches = r.primary_target_matches + 1;
        }
        if o.expected_target_binding == TargetBinding::Unresolved && o.observed_target_binding == Some(TargetBinding::Different) {
            r.primary_false_different_on_unresolved = r.primary_false_different_on_unresolved + 1;
        }
        if o.distinctness_match {
            r.distinctness_matches = r.distinctness_matches + 1;
        }
        if o.expected_distinctness_confirmation == DistinctnessConfirmation::NotConfirmed
            && o.observed_distinctness_confirmation == Some(DistinctnessConfirmation::ConfirmedDifferent) {
            r.false_distinctness_confirmation_on_non_different = r.false_distinctness_confirmation_on_non_different + 1;
        }
        if o.expected_distinctness_confirmation == DistinctnessConfirmation::ConfirmedDifferent
            && o.observed_distinctness_confirmation == Some(DistinctnessConfirmation::NotConfirmed) {
            r.missed_distinctness_confirmation_on_different = r.missed_distinctness_confirmation_on_different + 1;
        }
        if o.baseline_disposition == Some(o.expected_gated_disposition) {
            r.baseline_disposition_matches = r.baseline_disposition_matches + 1;
        }
        if o.gated_disposition_match {
            r.gated_disposition_matches = r.gated_disposition_matches + 1;
        }
        i = i + 1;
    }
    proof {
        counting::lemma_full_prefix(s);
        counting::lemma_count_bound(s, succeeded());
    }
    r.failed_observations = observations.len() - r.successful_observations;
    r
}

} // verus!
