//! The evidence-need routing study: when a materialized route is a correctness
//! violation (weaker than required) and when only a utility miss (stronger
//! than needed), and the study's counts.
use vstd::prelude::*;
use crate::counting;

verus! {

/// The default of a manifest flag that may be left out.
pub fn default_true() -> (r: bool)
    ensures
        r,
{
    true
}

/// Providers the study can run against.
#[derive(Debug, Clone, Copy, PartialEq, Eq, Structural)]
pub enum Provider {
    Mistral,
    Google,
    Nvidia,
    Groq,
}

impl Provider {
    /// The lowercase name of the provider.
    pub fn name(self) -> (r: &'static str)
        ensures
            r@ == (match self {
                Provider::Mistral => "mistral"@,
                Provider::Google => "google"@,
                Provider::Nvidia => "nvidia"@,
                Provider::Groq => "groq"@,
            }),
    {
        match self {
            Provider::Mistral => "mistral",
            Provider::Google => "google",
            Provider::Nvidia => "nvidia",
            Provider::Groq => "groq",
        }
    }
}

/// How evidence may be acquired for a target. `Other` stands for every
/// disposition that requires neither external nor trusted acquisition and
/// is not context-only; its number tells such dispositions apart.
#[derive(Debug, Clone, Copy, PartialEq, Eq, Structural)]
pub enum AcquisitionDisposition {
    ContextOnly,
    ExternalRequired,
    TrustedVerificationRequired,
    Other(u8),
}

/// One routed case, reduced to what its classification reads. A mode is
/// given by its rank in the evidence-need mode order, weakest first.
#[derive(Debug, Clone, Copy, PartialEq, Eq, Structural)]
pub struct RoutedCase {
    pub expected_mode: u8,
    pub materialized_mode: Option<u8>,
    pub expected_acquisition: AcquisitionDisposition,
    pub acquisition: Option<AcquisitionDisposition>,
    pub proposal_match: Option<bool>,
    pub mode_match: Option<bool>,
    pub acquisition_match: Option<bool>,
    pub failed: bool,
    pub provider_attempts: u32,
}

/// A route that asks for less than the case requires: a weaker mode, or an
/// acquisition that drops a required external or trusted step.
pub open spec fn correctness_violation(c: RoutedCase) -> bool {
    match c.materialized_mode {
        None => false,
        Some(mode) => if mode < c.expected_mode {
            true
        } else {
            match c.acquisition {
                None => false,
                Some(actual) => match c.expected_acquisition {
                    AcquisitionDisposition::ExternalRequired => !(actual == AcquisitionDisposition::ExternalRequired
                        || actual == AcquisitionDisposition::TrustedVerificationRequired),
                    AcquisitionDisposition::TrustedVerificationRequired => actual
                        != AcquisitionDisposition::TrustedVerificationRequired,
                    _ => false,
                },
            }
        },
    }
}

/// A route that is safe but not what was expected: a stronger mode, or a
/// different acquisition that is no correctness violation.
pub open spec fn utility_miss(c: RoutedCase) -> bool {
    match c.materialized_mode {
        None => false,
        Some(mode) => if mode > c.expected_mode {
            true
        } else {
            match c.acquisition {
                None => false,
                Some(actual) => actual != c.expected_acquisition && !correctness_violation(c),
            }
        },
    }
}

/// Whether a route asks for less than the case requires.
pub fn is_correctness_boundary_violation(case: &RoutedCase) -> (r: bool)
    ensures
        r == correctness_violation(*case),
{
    let actual_mode = match case.materialized_mode {
        Some(mode) => mode,
        None => {
            return false;
        },
    };
    if actual_mode < case.expected_mode {
        return true;
    }
    let actual = match case.acquisition {
        Some(a) => a,
        None => {
            return false;
        },
    };
    match case.expected_acquisition {
        AcquisitionDisposition::ExternalRequired => !(actual == AcquisitionDisposition::ExternalRequired
            || actual == AcquisitionDisposition::TrustedVerificationRequired),
        AcquisitionDisposition::TrustedVerificationRequired => actual != AcquisitionDisposition::TrustedVerificationRequired,
        _ => false,
    }
}

/// Whether a route is safe but not the expected one.
pub fn is_utility_miss(case: &RoutedCase) -> (r: bool)
    ensures
        r == utility_miss(*case),
{
    let actual_mode = match case.materialized_mode {
        Some(mode) => mode,
        None => {
            return false;
        },
    };
    if actual_mode > case.expected_mode {
        return true;
    }
    let actual = match case.acquisition {
        Some(a) => a,
        None => {
            return false;
        },
    };
    actual != case.expected_acquisition && !is_correctness_boundary_violation(case)
}

/// The exact route is neither a correctness violation nor a utility miss, and
/// a route with the expected mode that is a correctness violation is no
/// utility miss.
pub proof fn exact_route_is_clean(c: RoutedCase)
    ensures
        c.materialized_mode == Some(c.expected_mode) && correctness_violation(c) ==> !utility_miss(c),
        c.materialized_mode == Some(c.expected_mode) && c.acquisition == Some(c.expected_acquisition)
            ==> !correctness_violation(c) && !utility_miss(c),
{
}

/// What a route must keep. A route whose mode is weaker than expected is a
/// violation. At a mode that is not weaker, a route that drops a required
/// trusted verification, or answers a required external acquisition with
/// neither an external nor a trusted one, is a violation; a trusted
/// verification, or the expected acquisition itself, never is; and a case that
/// requires neither step has no acquisition violation. At the expected mode a
/// route with another acquisition is exactly one of a violation and a utility
/// miss.
pub proof fn violations_are_dropped_requirements(c: RoutedCase)
    ensures
        c.materialized_mode is Some && c.materialized_mode->0 < c.expected_mode ==> correctness_violation(c),
        c.materialized_mode is Some && c.materialized_mode->0 >= c.expected_mode && c.expected_acquisition
            == AcquisitionDisposition::TrustedVerificationRequired && c.acquisition is Some && c.acquisition->0
            != AcquisitionDisposition::TrustedVerificationRequired ==> correctness_violation(c),
        c.materialized_mode is Some && c.materialized_mode->0 >= c.expected_mode && c.expected_acquisition
            == AcquisitionDisposition::ExternalRequired && c.acquisition is Some && c.acquisition->0
            != AcquisitionDisposition::ExternalRequired && c.acquisition->0
            != AcquisitionDisposition::TrustedVerificationRequired ==> correctness_violation(c),
        c.materialized_mode is Some && c.materialized_mode->0 >= c.expected_mode && (c.acquisition == Some(
            AcquisitionDisposition::TrustedVerificationRequired,
        ) || c.acquisition == Some(c.expected_acquisition) || c.acquisition is None) ==> !correctness_violation(c),
        c.materialized_mode is Some && c.materialized_mode->0 >= c.expected_mode && c.expected_acquisition
            != AcquisitionDisposition::ExternalRequired && c.expected_acquisition
            != AcquisitionDisposition::TrustedVerificationRequired ==> !correctness_violation(c),
        c.materialized_mode is None ==> !correctness_violation(c) && !utility_miss(c),
        c.materialized_mode == Some(c.expected_mode) && c.acquisition is Some && c.acquisition->0
            != c.expected_acquisition ==> (correctness_violation(c) != utility_miss(c)),
        c.materialized_mode is Some && c.materialized_mode->0 > c.expected_mode ==> utility_miss(c),
{
}

/// The study's counts.
#[derive(Debug, Clone, Copy, PartialEq, Eq, Structural)]
pub struct Metrics {
    pub cases: usize,
    pub successful_provider_cases: usize,
    pub failed_provider_cases: usize,
    pub proposal_exact_matches: usize,
    pub materialized_mode_matches: usize,
    pub acquisition_matches: usize,
    pub correctness_boundary_violations: usize,
    pub utility_misses: usize,
    pub provider_attempts: u64,
}

/// Cases without a provider failure.
pub open spec fn succeeded() -> spec_fn(RoutedCase) -> bool {
    |c: RoutedCase| !c.failed
}

/// Cases whose proposal matched.
pub open spec fn proposal_matched() -> spec_fn(RoutedCase) -> bool {
    |c: RoutedCase| c.proposal_match == Some(true)
}

/// Cases whose materialized mode matched.
pub open spec fn mode_matched() -> spec_fn(RoutedCase) -> bool {
    |c: RoutedCase| c.mode_match == Some(true)
}

/// Cases whose acquisition matched.
pub open spec fn acquisition_matched() -> spec_fn(RoutedCase) -> bool {
    |c: RoutedCase| c.acquisition_match == Some(true)
}

/// Correctness violations.
pub open spec fn violated() -> spec_fn(RoutedCase) -> bool {
    |c: RoutedCase| correctness_violation(c)
}

/// Utility misses.
pub open spec fn missed() -> spec_fn(RoutedCase) -> bool {
    |c: RoutedCase| utility_miss(c)
}

/// Provider attempts of a case.
pub open spec fn attempts_of() -> spec_fn(RoutedCase) -> nat {
    |c: RoutedCase| c.provider_attempts as nat
}

/// The study's counts over its cases.
pub open spec fn summarize_spec(s: Seq<RoutedCase>) -> Metrics {
    Metrics {
        cases: s.len() as usize,
        successful_provider_cases: counting::count(s, succeeded()) as usize,
        failed_provider_cases: (s.len() - counting::count(s, succeeded())) as usize,
        proposal_exact_matches: counting::count(s, proposal_matched()) as usize,
        materialized_mode_matches: counting::count(s, mode_matched()) as usize,
        acquisition_matches: counting::count(s, acquisition_matched()) as usize,
        correctness_boundary_violations: counting::count(s, violated()) as usize,
        utility_misses: counting::count(s, missed()) as usize,
        provider_attempts: counting::sum(s, attempts_of()) as u64,
    }
}

/// Counts the study's cases.
pub fn summarize_metrics(cases: &[RoutedCase]) -> (r: Metrics)
    requires
        counting::sum(cases@, attempts_of()) <= u64::MAX,
    ensures
        r == summarize_spec(cases@),
{
    let ghost s = cases@;
    let mut r = Metrics {
        cases: cases.len(),
        successful_provider_cases: 0,
        failed_provider_cases: 0,
        proposal_exact_matches: 0,
        materialized_mode_matches: 0,
        acquisition_matches: 0,
        correctness_boundary_violations: 0,
        utility_misses: 0,
        provider_attempts: 0,
    };
    let mut i: usize = 0;
    while i < cases.len()
        invariant
            s == cases@,
            i <= s.len(),
            r.cases == s.len(),
            r.failed_provider_cases == 0,
            counting::sum(s, attempts_of()) <= u64::MAX,
            r.successful_provider_cases == counting::count(s.subrange(0, i as int), succeeded()),
            r.proposal_exact_matches == counting::count(s.subrange(0, i as int), proposal_matched()),
            r.materialized_mode_matches == counting::count(s.subrange(0, i as int), mode_matched()),
            r.acquisition_matches == counting::count(s.subrange(0, i as int), acquisition_matched()),
            r.correctness_boundary_violations == counting::count(s.subrange(0, i as int), violated()),
            r.utility_misses == counting::count(s.subrange(0, i as int), missed()),
            r.provider_attempts == counting::sum(s.subrange(0, i as int), attempts_of()),
        decreases s.len() - i,
    {
        let c = cases[i];
        proof {
            counting::lemma_count_prefix(s, succeeded(), i as int);
            counting::lemma_count_prefix(s, proposal_matched(), i as int);
            counting::lemma_count_prefix(s, mode_matched(), i as int);
            counting::lemma_count_prefix(s, acquisition_matched(), i as int);
            counting::lemma_count_prefix(s, violated(), i as int);
            counting::lemma_count_prefix(s, missed(), i as int);
            counting::lemma_sum_prefix(s, attempts_of(), i as int);
            counting::lemma_sum_prefix_monotone(s, attempts_of(), i + 1);
        }
        if !c.failed {
            r.successful_provider_cases = r.successful_provider_cases + 1;
        }
        if c.proposal_match == Some(true) {
            r.proposal_exact_matches = r.proposal_exact_matches + 1;
        }
        if c.mode_match == Some(true) {
            r.materialized_mode_matches = r.materialized_mode_matches + 1;
        }
        if c.acquisition_match == Some(true) {
            r.acquisition_matches = r.acquisition_matches + 1;
        }
        if is_correctness_boundary_violation(&c) {
            r.correctness_boundary_violations = r.correctness_boundary_violations + 1;
        }
        if is_utility_miss(&c) {
            r.utility_misses = r.utility_misses + 1;
        }
        r.provider_attempts = r.provider_attempts + c.provider_attempts as u64;
        i = i + 1;
    }
    proof {
        counting::lemma_full_prefix(s);
        counting::lemma_count_bound(s, succeeded());
    }
    r.failed_provider_cases = cases.len() - r.successful_provider_cases;
    r
}

} // verus!
