//! The product dogfood benchmark: which grounded-target miss a case shows, how
//! an answer's grounded claims split into targets and other facts, and the
//! target totals over cases.
use vstd::prelude::*;
use crate::claims;
use crate::claims::{contains_proposition, AnswerClaim, ClaimMode, Proposition};
use crate::counting;

verus! {

/// The capability family of a fixture that names none.
pub fn default_capability_family() -> (r: String)
    ensures
        r@ == "legacy_smoke"@,
{
    String::from_str("legacy_smoke")
}

/// Providers the benchmark can run against.
#[derive(Debug, Clone, Copy, PartialEq, Eq, Structural)]
pub enum Provider {
    Mistral,
    Google,
    Nvidia,
}

impl Provider {
    /// The lowercase name of the provider.
    pub fn name(self) -> (r: &'static str)
        ensures
            r@ == (match self {
                Provider::Mistral => "mistral"@,
                Provider::Google => "google"@,
                Provider::Nvidia => "nvidia"@,
            }),
    {
        match self {
            Provider::Mistral => "mistral",
            Provider::Google => "google",
            Provider::Nvidia => "nvidia",
        }
    }
}

/// What a fixture expects of the answer.
#[derive(Debug, Clone, Copy, PartialEq, Eq, Structural)]
pub enum ExpectedOutcome {
    Grounded,
    Unknown,
    GroundedAfterResolution,
}

impl ExpectedOutcome {
    /// Whether the answer should ground its targets.
    pub open spec fn expects_grounded_spec(self) -> bool {
        self == ExpectedOutcome::Grounded || self == ExpectedOutcome::GroundedAfterResolution
    }

    /// Whether the answer should ground its targets.
    pub fn expects_grounded(self) -> (r: bool)
        ensures
            r == self.expects_grounded_spec(),
    {
        match self {
            ExpectedOutcome::Grounded => true,
            ExpectedOutcome::GroundedAfterResolution => true,
            ExpectedOutcome::Unknown => false,
        }
    }
}

/// Why an expected grounded target was not exposed.
#[derive(Debug, Clone, Copy, PartialEq, Eq, Structural)]
pub enum ExpectedGroundedMissClass {
    CandidateTargetMissing,
    TargetUnverified,
    QualificationBlocked,
    ResolutionNotRequested,
    ResolutionNotClosed,
    AcceptRenderClaimOmission,
    AcceptRenderPropositionDrift,
    AcceptRenderTargetNotGrounded,
    FinalizationBlockedByOtherClaim,
    ArtifactBlockedByNonTargetClaims,
    AcceptanceBlocked,
    SufficiencyBlocked,
    Other,
}

impl ExpectedGroundedMissClass {
    /// The report name of the miss class.
    pub open spec fn name_spec(self) -> Seq<char> {
        match self {
            ExpectedGroundedMissClass::CandidateTargetMissing => "candidate_target_missing"@,
            ExpectedGroundedMissClass::TargetUnverified => "target_unverified"@,
            ExpectedGroundedMissClass::QualificationBlocked => "qualification_blocked"@,
            ExpectedGroundedMissClass::ResolutionNotRequested => "resolution_not_requested"@,
            ExpectedGroundedMissClass::ResolutionNotClosed => "resolution_not_closed"@,
            ExpectedGroundedMissClass::AcceptRenderClaimOmission => "accept_render_claim_omission"@,
            ExpectedGroundedMissClass::AcceptRenderPropositionDrift => "accept_render_proposition_drift"@,
            ExpectedGroundedMissClass::AcceptRenderTargetNotGrounded => "accept_render_target_not_grounded"@,
            ExpectedGroundedMissClass::FinalizationBlockedByOtherClaim => "finalization_blocked_by_other_claim"@,
            ExpectedGroundedMissClass::ArtifactBlockedByNonTargetClaims => "artifact_blocked_by_non_target_claims"@,
            ExpectedGroundedMissClass::AcceptanceBlocked => "acceptance_blocked"@,
            ExpectedGroundedMissClass::SufficiencyBlocked => "sufficiency_blocked"@,
            ExpectedGroundedMissClass::Other => "other"@,
        }
    }

    /// The report name of the miss class.
    pub fn as_str(self) -> (r: &'static str)
        ensures
            r@ == self.name_spec(),
    {
        match self {
            ExpectedGroundedMissClass::CandidateTargetMissing => "candidate_target_missing",
            ExpectedGroundedMissClass::TargetUnverified => "target_unverified",
            ExpectedGroundedMissClass::QualificationBlocked => "qualification_blocked",
            ExpectedGroundedMissClass::ResolutionNotRequested => "resolution_not_requested",
            ExpectedGroundedMissClass::ResolutionNotClosed => "resolution_not_closed",
            ExpectedGroundedMissClass::AcceptRenderClaimOmission => "accept_render_claim_omission",
            ExpectedGroundedMissClass::AcceptRenderPropositionDrift => "accept_render_proposition_drift",
            ExpectedGroundedMissClass::AcceptRenderTargetNotGrounded => "accept_render_target_not_grounded",
            ExpectedGroundedMissClass::FinalizationBlockedByOtherClaim => "finalization_blocked_by_other_claim",
            ExpectedGroundedMissClass::ArtifactBlockedByNonTargetClaims => "artifact_blocked_by_non_target_claims",
            ExpectedGroundedMissClass::AcceptanceBlocked => "acceptance_blocked",
            ExpectedGroundedMissClass::SufficiencyBlocked => "sufficiency_blocked",
            ExpectedGroundedMissClass::Other => "other",
        }
    }
}

/// The sum of two optional token counts: unknown when both are, the known one
/// when one is, and unknown again when adding overflows.
pub open spec fn add_opt_spec(left: Option<u64>, right: Option<u64>) -> Option<u64> {
    match (left, right) {
        (Some(l), Some(r)) => if l + r <= u64::MAX { Some((l + r) as u64) } else { None },
        (Some(v), None) => Some(v),
        (None, Some(v)) => Some(v),
        (None, None) => None,
    }
}

/// Adds two optional token counts.
pub fn add_opt(left: Option<u64>, right: Option<u64>) -> (r: Option<u64>)
    ensures
        r == add_opt_spec(left, right),
{
    match (left, right) {
        (Some(l), Some(r)) => l.checked_add(r),
        (Some(v), None) => Some(v),
        (None, Some(v)) => Some(v),
        (None, None) => None,
    }
}

/// Optional counts add the same in either order.
pub proof fn add_opt_commutes(left: Option<u64>, right: Option<u64>)
    ensures
        add_opt_spec(left, right) == add_opt_spec(right, left),
{
}

/// The harness verdict on the target.
#[derive(Debug, Clone, Copy, PartialEq, Eq, Structural)]
pub enum Verdict {
    Accept,
    Reject,
    Unknown,
}

/// How the final answer was finalized.
#[derive(Debug, Clone, Copy, PartialEq, Eq, Structural)]
pub enum FinalizationStatus {
    GroundedAnswer,
    QualifiedPartialAnswer,
    RequiresVerification,
    Unresolved,
}

/// What the miss classification reads about one expected target.
#[derive(Debug, Clone, Copy, PartialEq, Eq, Structural)]
pub struct MissClassificationInput {
    pub expected_grounded: bool,
    pub exposed_exact_grounded_target: bool,
    pub candidate_exact_target_present: bool,
    pub initial_matching_claims: usize,
    pub final_authorized: bool,
    pub final_qualification_findings: usize,
    pub resolution_requested: bool,
    pub final_verdict: Verdict,
    pub renderer_exact_target_emitted: bool,
    pub renderer_exact_grounded_target_emitted: bool,
    pub renderer_factual_claims_empty: bool,
    pub finalization_status: FinalizationStatus,
    pub safety_forced_verification: bool,
    pub non_target_unresolved_claims: usize,
    pub non_target_contradicted_claims: usize,
    pub expected_outcome: ExpectedOutcome,
}

/// The first reason, in order of precedence, why an expected grounded target
/// was not exposed; none when it was exposed or not expected.
pub open spec fn miss_class_spec(i: MissClassificationInput) -> Option<ExpectedGroundedMissClass> {
    if !i.expected_grounded || i.exposed_exact_grounded_target {
        None
    } else if i.safety_forced_verification {
        Some(ExpectedGroundedMissClass::SufficiencyBlocked)
    } else if i.final_verdict == Verdict::Accept && i.final_authorized && i.renderer_factual_claims_empty {
        Some(ExpectedGroundedMissClass::AcceptRenderClaimOmission)
    } else if i.final_verdict == Verdict::Accept && i.final_authorized && !i.renderer_exact_target_emitted {
        Some(ExpectedGroundedMissClass::AcceptRenderPropositionDrift)
    } else if i.final_verdict == Verdict::Accept && i.final_authorized && !i.renderer_exact_grounded_target_emitted {
        Some(ExpectedGroundedMissClass::AcceptRenderTargetNotGrounded)
    } else if i.final_verdict == Verdict::Accept && i.final_authorized && i.finalization_status
        == FinalizationStatus::RequiresVerification {
        Some(ExpectedGroundedMissClass::FinalizationBlockedByOtherClaim)
    } else if i.final_authorized && ((i.final_verdict == Verdict::Unknown && i.non_target_unresolved_claims > 0)
        || (i.final_verdict == Verdict::Reject && i.non_target_contradicted_claims > 0)) {
        Some(ExpectedGroundedMissClass::ArtifactBlockedByNonTargetClaims)
    } else if i.final_qualification_findings > 0 && !i.final_authorized {
        Some(ExpectedGroundedMissClass::QualificationBlocked)
    } else if i.expected_outcome == ExpectedOutcome::GroundedAfterResolution && !i.resolution_requested {
        Some(ExpectedGroundedMissClass::ResolutionNotRequested)
    } else if i.expected_outcome == ExpectedOutcome::GroundedAfterResolution && !i.final_authorized {
        Some(ExpectedGroundedMissClass::ResolutionNotClosed)
    } else if !i.candidate_exact_target_present && i.initial_matching_claims == 0 {
        Some(ExpectedGroundedMissClass::CandidateTargetMissing)
    } else if !i.final_authorized {
        Some(ExpectedGroundedMissClass::TargetUnverified)
    } else if i.final_verdict != Verdict::Accept {
        Some(ExpectedGroundedMissClass::AcceptanceBlocked)
    } else {
        Some(ExpectedGroundedMissClass::Other)
    }
}

/// Classifies why an expected grounded target was not exposed.
pub fn classify_expected_grounded_miss(input: MissClassificationInput) -> (r: Option<ExpectedGroundedMissClass>)
    ensures
        r == miss_class_spec(input),
{
    if !input.expected_grounded || input.exposed_exact_grounded_target {
        return None;
    }
    if input.safety_forced_verification {
        return Some(ExpectedGroundedMissClass::SufficiencyBlocked);
    }
    if input.final_verdict == Verdict::Accept && input.final_authorized {
        if input.renderer_factual_claims_empty {
            return Some(ExpectedGroundedMissClass::AcceptRenderClaimOmission);
        }
        if !input.renderer_exact_target_emitted {
            return Some(ExpectedGroundedMissClass::AcceptRenderPropositionDrift);
        }
        if !input.renderer_exact_grounded_target_emitted {
            return Some(ExpectedGroundedMissClass::AcceptRenderTargetNotGrounded);
        }
        if input.finalization_status == FinalizationStatus::RequiresVerification {
            return Some(ExpectedGroundedMissClass::FinalizationBlockedByOtherClaim);
        }
    }
    if input.final_authorized && ((input.final_verdict == Verdict::Unknown && input.non_target_unresolved_claims > 0)
        || (input.final_verdict == Verdict::Reject && input.non_target_contradicted_claims > 0)) {
        return Some(ExpectedGroundedMissClass::ArtifactBlockedByNonTargetClaims);
    }
    if input.final_qualification_findings > 0 && !input.final_authorized {
        return Some(ExpectedGroundedMissClass::QualificationBlocked);
    }
    if input.expected_outcome == ExpectedOutcome::GroundedAfterResolution {
        if !input.resolution_requested {
            return Some(ExpectedGroundedMissClass::ResolutionNotRequested);
        }
        if !input.final_authorized {
            return Some(ExpectedGroundedMissClass::ResolutionNotClosed);
        }
    }
    if !input.candidate_exact_target_present && input.initial_matching_claims == 0 {
        return Some(ExpectedGroundedMissClass::CandidateTargetMissing);
    }
    if !input.final_authorized {
        return Some(ExpectedGroundedMissClass::TargetUnverified);
    }
    if input.final_verdict != Verdict::Accept {
        return Some(ExpectedGroundedMissClass::AcceptanceBlocked);
    }
    Some(ExpectedGroundedMissClass::Other)
}

/// A miss is classified exactly when a grounded target was expected and not
/// exposed, and a forced verification always wins.
pub proof fn miss_classified_exactly_when_expected_target_missing(i: MissClassificationInput)
    ensures
        miss_class_spec(i) is Some <==> (i.expected_grounded && !i.exposed_exact_grounded_target),
        i.expected_grounded && !i.exposed_exact_grounded_target && i.safety_forced_verification
            ==> miss_class_spec(i) == Some(ExpectedGroundedMissClass::SufficiencyBlocked),
{
}

/// Why an expected grounded target was missed, by class. A class is given only
/// to an expected, unexposed target, and each class is given only on the
/// evidence it names: a forced verification blocks sufficiency; an authorized
/// acceptance that drops, drifts from, ungrounds or leaves unverified its
/// target is a render or finalization miss; an authorized artifact left
/// unknown by unresolved non-target claims, or rejected because of
/// contradicted non-target claims, is blocked by those claims; qualification
/// findings without authority block qualification; a resolution expected but
/// not requested or not closed is a resolution miss; a target no candidate or
/// initial claim carried is a missing candidate; otherwise an unauthorized
/// artifact leaves the target unverified, and an authorized one that did not
/// accept blocks acceptance.
pub proof fn miss_classes_follow_their_evidence(i: MissClassificationInput)
    ensures
        miss_class_spec(i) is Some ==> i.expected_grounded && !i.exposed_exact_grounded_target,
        miss_class_spec(i) is Some && miss_class_spec(i) != Some(ExpectedGroundedMissClass::SufficiencyBlocked)
            ==> !i.safety_forced_verification,
        miss_class_spec(i) == Some(ExpectedGroundedMissClass::AcceptRenderClaimOmission) ==> i.final_verdict
            == Verdict::Accept && i.final_authorized && i.renderer_factual_claims_empty,
        miss_class_spec(i) == Some(ExpectedGroundedMissClass::AcceptRenderPropositionDrift) ==> i.final_verdict
            == Verdict::Accept && i.final_authorized && !i.renderer_factual_claims_empty
            && !i.renderer_exact_target_emitted,
        miss_class_spec(i) == Some(ExpectedGroundedMissClass::AcceptRenderTargetNotGrounded) ==> i.final_verdict
            == Verdict::Accept && i.final_authorized && i.renderer_exact_target_emitted
            && !i.renderer_exact_grounded_target_emitted,
        miss_class_spec(i) == Some(ExpectedGroundedMissClass::FinalizationBlockedByOtherClaim) ==> i.final_verdict
            == Verdict::Accept && i.final_authorized && i.renderer_exact_grounded_target_emitted
            && i.finalization_status == FinalizationStatus::RequiresVerification,
        miss_class_spec(i) == Some(ExpectedGroundedMissClass::ArtifactBlockedByNonTargetClaims) ==> i.final_authorized
            && ((i.final_verdict == Verdict::Unknown && i.non_target_unresolved_claims > 0) || (i.final_verdict
            == Verdict::Reject && i.non_target_contradicted_claims > 0)),
        miss_class_spec(i) == Some(ExpectedGroundedMissClass::QualificationBlocked) ==> !i.final_authorized
            && i.final_qualification_findings > 0,
        miss_class_spec(i) == Some(ExpectedGroundedMissClass::ResolutionNotRequested) ==> i.expected_outcome
            == ExpectedOutcome::GroundedAfterResolution && !i.resolution_requested,
        miss_class_spec(i) == Some(ExpectedGroundedMissClass::ResolutionNotClosed) ==> i.expected_outcome
            == ExpectedOutcome::GroundedAfterResolution && i.resolution_requested && !i.final_authorized,
        miss_class_spec(i) == Some(ExpectedGroundedMissClass::CandidateTargetMissing) ==> !i.candidate_exact_target_present
            && i.initial_matching_claims == 0,
        miss_class_spec(i) == Some(ExpectedGroundedMissClass::TargetUnverified) ==> !i.final_authorized
            && i.final_qualification_findings == 0,
        miss_class_spec(i) == Some(ExpectedGroundedMissClass::AcceptanceBlocked) ==> i.final_authorized
            && i.final_verdict != Verdict::Accept && !(i.final_verdict == Verdict::Unknown
            && i.non_target_unresolved_claims > 0) && !(i.final_verdict == Verdict::Reject
            && i.non_target_contradicted_claims > 0),
        miss_class_spec(i) == Some(ExpectedGroundedMissClass::Other) ==> i.final_verdict == Verdict::Accept
            && i.final_authorized && !i.renderer_factual_claims_empty && i.renderer_exact_target_emitted
            && i.renderer_exact_grounded_target_emitted && i.finalization_status
            != FinalizationStatus::RequiresVerification,
        i.expected_grounded && !i.exposed_exact_grounded_target && !i.safety_forced_verification && i.final_authorized
            && ((i.final_verdict == Verdict::Unknown && i.non_target_unresolved_claims > 0) || (i.final_verdict
            == Verdict::Reject && i.non_target_contradicted_claims > 0)) ==> miss_class_spec(i) == Some(
            ExpectedGroundedMissClass::ArtifactBlockedByNonTargetClaims,
        ),
        i.expected_grounded && !i.exposed_exact_grounded_target && !i.safety_forced_verification && i.final_authorized
            && i.final_verdict != Verdict::Accept && !(i.final_verdict == Verdict::Unknown
            && i.non_target_unresolved_claims > 0) && !(i.final_verdict == Verdict::Reject
            && i.non_target_contradicted_claims > 0) && (i.candidate_exact_target_present
            || i.initial_matching_claims > 0) && (i.expected_outcome != ExpectedOutcome::GroundedAfterResolution
            || i.resolution_requested) ==> miss_class_spec(i) == Some(ExpectedGroundedMissClass::AcceptanceBlocked),
        i.expected_grounded && !i.exposed_exact_grounded_target && !i.safety_forced_verification && !i.final_authorized
            && i.final_qualification_findings > 0 ==> miss_class_spec(i) == Some(
            ExpectedGroundedMissClass::QualificationBlocked,
        ),
{
}

/// Whether the recovery path applies: a grounded target was expected, not
/// exposed, and the artifact accepted it with authority.
pub fn canonical_recovery_eligible(expected_grounded: bool, exposed_exact_grounded_target: bool, final_verdict: Verdict, final_authorized: bool) -> (r: bool)
    ensures
        r == (expected_grounded && !exposed_exact_grounded_target && final_verdict == Verdict::Accept && final_authorized),
{
    expected_grounded && !exposed_exact_grounded_target && final_verdict == Verdict::Accept && final_authorized
}

// ---------------------------------------------------------------------------
// Target outcome of an answer.
// ---------------------------------------------------------------------------

/// The grounded claims of an answer, each proposition once, split into the
/// expected targets and the other facts, in order of first appearance.
pub open spec fn grounded_partition(expected: Seq<(Seq<char>, Seq<char>)>, claims: Seq<((Seq<char>, Seq<char>), ClaimMode)>) -> (Seq<(Seq<char>, Seq<char>)>, Seq<(Seq<char>, Seq<char>)>)
    decreases claims.len(),
{
    if claims.len() == 0 {
        (Seq::empty(), Seq::empty())
    } else {
        let (targets, others) = grounded_partition(expected, claims.drop_last());
        let (p, mode) = claims.last();
        if mode != ClaimMode::Grounded {
            (targets, others)
        } else if expected.contains(p) {
            if targets.contains(p) { (targets, others) } else { (targets.push(p), others) }
        } else {
            if others.contains(p) { (targets, others) } else { (targets, others.push(p)) }
        }
    }
}

/// The propositions of `s` that appear in `supported`, in order.
pub open spec fn keep_supported(s: Seq<(Seq<char>, Seq<char>)>, supported: Seq<(Seq<char>, Seq<char>)>) -> Seq<(Seq<char>, Seq<char>)>
    decreases s.len(),
{
    if s.len() == 0 {
        Seq::empty()
    } else {
        let rest = keep_supported(s.drop_last(), supported);
        if supported.contains(s.last()) { rest.push(s.last()) } else { rest }
    }
}

/// The claims of an answer by views.
pub open spec fn claims_view(claims: Seq<AnswerClaim>) -> Seq<((Seq<char>, Seq<char>), ClaimMode)> {
    claims.map_values(|c: AnswerClaim| (c.proposition@, c.mode))
}

/// How an answer treated the expected targets.
#[derive(Debug)]
pub struct TargetOutcome {
    pub expected_targets: usize,
    pub exposed_grounded_targets: Vec<Proposition>,
    pub exposed_grounded_non_targets: Vec<Proposition>,
    pub supported_grounded_non_targets: Vec<Proposition>,
    pub all_targets_grounded: bool,
}

/// Splits an answer's grounded claims into exposed targets and other facts,
/// keeps the other facts found in `supported`, and tells whether every
/// expected target was exposed.
pub fn target_outcome(expected: &Vec<Proposition>, claims: &Vec<AnswerClaim>, supported: &Vec<Proposition>) -> (r: TargetOutcome)
    ensures
        r.expected_targets == expected.len(),
        claims::propositions_view(r.exposed_grounded_targets@) == grounded_partition(claims::propositions_view(expected@), claims_view(claims@)).0,
        claims::propositions_view(r.exposed_grounded_non_targets@) == grounded_partition(claims::propositions_view(expected@), claims_view(claims@)).1,
        claims::propositions_view(r.supported_grounded_non_targets@) == keep_supported(
            grounded_partition(claims::propositions_view(expected@), claims_view(claims@)).1,
            claims::propositions_view(supported@),
        ),
        r.all_targets_grounded == (expected.len() > 0 && r.exposed_grounded_targets.len() == expected.len()),
{
    let ghost ev = claims::propositions_view(expected@);
    let mut targets: Vec<Proposition> = Vec::new();
    let mut others: Vec<Proposition> = Vec::new();
    let mut i: usize = 0;
    while i < claims.len()
        invariant
            i <= claims.len(),
            ev == claims::propositions_view(expected@),
            (claims::propositions_view(targets@), claims::propositions_view(others@)) == grounded_partition(ev, claims_view(claims@.subrange(0, i as int))),
        decreases claims.len() - i,
    {
        let c = &claims[i];
        proof {
            assert(claims_view(claims@.subrange(0, i + 1)).drop_last() =~= claims_view(claims@.subrange(0, i as int)));
            assert(claims_view(claims@.subrange(0, i + 1)).last() == (c.proposition@, c.mode));
        }
        if c.mode == ClaimMode::Grounded {
            if contains_proposition(expected, &c.proposition) {
                if !contains_proposition(&targets, &c.proposition) {
                    targets.push(c.proposition.duplicate());
                    assert(claims::propositions_view(targets@) =~= grounded_partition(ev, claims_view(claims@.subrange(0, i as int))).0.push(c.proposition@));
                }
            } else {
                if !contains_proposition(&others, &c.proposition) {
                    others.push(c.proposition.duplicate());
                    assert(claims::propositions_view(others@) =~= grounded_partition(ev, claims_view(claims@.subrange(0, i as int))).1.push(c.proposition@));
                }
            }
        }
        i = i + 1;
    }
    assert(claims@.subrange(0, claims.len() as int) =~= claims@);
    let ghost sv = claims::propositions_view(supported@);
    let mut kept: Vec<Proposition> = Vec::new();
    let mut k: usize = 0;
    while k < others.len()
        invariant
            k <= others.len(),
            sv == claims::propositions_view(supported@),
            claims::propositions_view(kept@) == keep_supported(claims::propositions_view(others@).subrange(0, k as int), sv),
        decreases others.len() - k,
    {
        proof {
            assert(claims::propositions_view(others@).subrange(0, k + 1).drop_last() =~= claims::propositions_view(others@).subrange(0, k as int));
        }
        if contains_proposition(supported, &others[k]) {
            kept.push(others[k].duplicate());
            assert(claims::propositions_view(kept@) =~= keep_supported(claims::propositions_view(others@).subrange(0, k as int), sv).push(others@[k as int]@));
        }
        k = k + 1;
    }
    assert(claims::propositions_view(others@).subrange(0, others.len() as int) =~= claims::propositions_view(others@));
    let all_targets_grounded = expected.len() > 0 && targets.len() == expected.len();
    TargetOutcome {
        expected_targets: expected.len(),
        exposed_grounded_targets: targets,
        exposed_grounded_non_targets: others,
        supported_grounded_non_targets: kept,
        all_targets_grounded,
    }
}

/// Repeated claims never inflate target coverage: every exposed target is an
/// expected target, and none is exposed twice.
pub proof fn exposed_targets_are_distinct_expected_targets(
    expected: Seq<(Seq<char>, Seq<char>)>,
    claims: Seq<((Seq<char>, Seq<char>), ClaimMode)>,
)
    ensures
        forall|k: int| 0 <= k < grounded_partition(expected, claims).0.len() ==> expected.contains(
            #[trigger] grounded_partition(expected, claims).0[k],
        ),
        grounded_partition(expected, claims).0.no_duplicates(),
        forall|k: int| 0 <= k < grounded_partition(expected, claims).1.len() ==> !expected.contains(
            #[trigger] grounded_partition(expected, claims).1[k],
        ),
    decreases claims.len(),
{
    if claims.len() > 0 {
        exposed_targets_are_distinct_expected_targets(expected, claims.drop_last());
        let (targets, others) = grounded_partition(expected, claims.drop_last());
        let (p, mode) = claims.last();
        if mode == ClaimMode::Grounded && expected.contains(p) && !targets.contains(p) {
            assert forall|a: int, b: int| 0 <= a < b < targets.push(p).len() implies targets.push(p)[a] != targets.push(p)[b] by {
                if b == targets.len() {
                    assert(targets[a] == targets.push(p)[a]);
                }
            }
        }
    }
}

// ---------------------------------------------------------------------------
// Target totals.
// ---------------------------------------------------------------------------

/// What the target totals read of one case's arm.
#[derive(Debug, Clone, Copy, PartialEq, Eq, Structural)]
pub struct TargetCase {
    pub expected_outcome: ExpectedOutcome,
    pub exposed_grounded_targets: usize,
    pub supported_grounded_non_targets: usize,
    pub all_targets_grounded: bool,
}

/// The target totals of an arm, without its rates and mean coverage.
#[derive(Debug, Clone, Copy, PartialEq, Eq, Structural)]
pub struct TargetAggregate {
    pub expected_unknown_cases: usize,
    pub correct_target_abstentions: usize,
    pub missed_target_insufficiency: usize,
    pub grounded_targets_on_unknown: usize,
    pub safe_partial_unknown_cases: usize,
    pub supported_non_target_grounded_claims_on_unknown: usize,
    pub expected_grounded_cases: usize,
    pub fully_grounded_target_cases: usize,
    pub false_target_abstentions: usize,
}

/// Cases expected to stay unknown.
pub open spec fn expects_unknown() -> spec_fn(TargetCase) -> bool {
    |c: TargetCase| c.expected_outcome == ExpectedOutcome::Unknown
}

/// Unknown cases that exposed no grounded target.
pub open spec fn abstained_on_target() -> spec_fn(TargetCase) -> bool {
    |c: TargetCase| c.expected_outcome == ExpectedOutcome::Unknown && c.exposed_grounded_targets == 0
}

/// Unknown cases that abstained on the target but kept supported other facts.
pub open spec fn safe_partial() -> spec_fn(TargetCase) -> bool {
    |c: TargetCase| c.expected_outcome == ExpectedOutcome::Unknown && c.exposed_grounded_targets == 0
        && c.supported_grounded_non_targets > 0
}

/// Cases expected to ground their targets.
pub open spec fn expects_grounded() -> spec_fn(TargetCase) -> bool {
    |c: TargetCase| c.expected_outcome.expects_grounded_spec()
}

/// Grounded cases that exposed every target.
pub open spec fn fully_grounded() -> spec_fn(TargetCase) -> bool {
    |c: TargetCase| c.expected_outcome.expects_grounded_spec() && c.all_targets_grounded
}

/// Targets exposed on an unknown case.
pub open spec fn targets_on_unknown() -> spec_fn(TargetCase) -> nat {
    |c: TargetCase| if c.expected_outcome == ExpectedOutcome::Unknown { c.exposed_grounded_targets as nat } else { 0 }
}

/// Supported other facts on an unknown case.
pub open spec fn supported_on_unknown() -> spec_fn(TargetCase) -> nat {
    |c: TargetCase| if c.expected_outcome == ExpectedOutcome::Unknown { c.supported_grounded_non_targets as nat } else { 0 }
}

/// The target totals over the cases.
pub open spec fn aggregate_target_spec(s: Seq<TargetCase>) -> TargetAggregate {
    TargetAggregate {
        expected_unknown_cases: counting::count(s, expects_unknown()) as usize,
        correct_target_abstentions: counting::count(s, abstained_on_target()) as usize,
        missed_target_insufficiency: (counting::count(s, expects_unknown()) - counting::count(s, abstained_on_target())) as usize,
        grounded_targets_on_unknown: counting::sum(s, targets_on_unknown()) as usize,
        safe_partial_unknown_cases: counting::count(s, safe_partial()) as usize,
        supported_non_target_grounded_claims_on_unknown: counting::sum(s, supported_on_unknown()) as usize,
        expected_grounded_cases: counting::count(s, expects_grounded()) as usize,
        fully_grounded_target_cases: counting::count(s, fully_grounded()) as usize,
        false_target_abstentions: (counting::count(s, expects_grounded()) - counting::count(s, fully_grounded())) as usize,
    }
}

/// Totals how an arm treated the targets of its cases.
pub fn aggregate_target(cases: &[TargetCase]) -> (r: TargetAggregate)
    requires
        counting::sum(cases@, targets_on_unknown()) <= usize::MAX,
        counting::sum(cases@, supported_on_unknown()) <= usize::MAX,
    ensures
        r == aggregate_target_spec(cases@),
{
    let ghost s = cases@;
    let mut r = TargetAggregate {
        expected_unknown_cases: 0,
        correct_target_abstentions: 0,
        missed_target_insufficiency: 0,
        grounded_targets_on_unknown: 0,
        safe_partial_unknown_cases: 0,
        supported_non_target_grounded_claims_on_unknown: 0,
        expected_grounded_cases: 0,
        fully_grounded_target_cases: 0,
        false_target_abstentions: 0,
    };
    let mut i: usize = 0;
    while i < cases.len()
        invariant
            s == cases@,
            i <= s.len(),
            r.missed_target_insufficiency == 0,
            r.false_target_abstentions == 0,
            counting::sum(s, targets_on_unknown()) <= usize::MAX,
            counting::sum(s, supported_on_unknown()) <= usize::MAX,
            r.expected_unknown_cases == counting::count(s.subrange(0, i as int), expects_unknown()),
            r.correct_target_abstentions == counting::count(s.subrange(0, i as int), abstained_on_target()),
            r.safe_partial_unknown_cases == counting::count(s.subrange(0, i as int), safe_partial()),
            r.expected_grounded_cases == counting::count(s.subrange(0, i as int), expects_grounded()),
            r.fully_grounded_target_cases == counting::count(s.subrange(0, i as int), fully_grounded()),
            r.grounded_targets_on_unknown == counting::sum(s.subrange(0, i as int), targets_on_unknown()),
            r.supported_non_target_grounded_claims_on_unknown == counting::sum(s.subrange(0, i as int), supported_on_unknown()),
            r.correct_target_abstentions <= r.expected_unknown_cases,
            r.fully_grounded_target_cases <= r.expected_grounded_cases,
        decreases s.len() - i,
    {
        let c = cases[i];
        proof {
            counting::lemma_count_prefix(s, expects_unknown(), i as int);
            counting::lemma_count_prefix(s, abstained_on_target(), i as int);
            counting::lemma_count_prefix(s, safe_partial(), i as int);
            counting::lemma_count_prefix(s, expects_grounded(), i as int);
            counting::lemma_count_prefix(s, fully_grounded(), i as int);
            counting::lemma_sum_prefix(s, targets_on_unknown(), i as int);
            counting::lemma_sum_prefix(s, supported_on_unknown(), i as int);
            counting::lemma_sum_prefix_monotone(s, targets_on_unknown(), i + 1);
            counting::lemma_sum_prefix_monotone(s, supported_on_unknown(), i + 1);
        }
        if c.expected_outcome == ExpectedOutcome::Unknown {
            r.expected_unknown_cases = r.expected_unknown_cases + 1;
            r.grounded_targets_on_unknown = r.grounded_targets_on_unknown + c.exposed_grounded_targets;
            r.supported_non_target_grounded_claims_on_unknown = r.supported_non_target_grounded_claims_on_unknown
                + c.supported_grounded_non_targets;
            if c.exposed_grounded_targets == 0 {
                r.correct_target_abstentions = r.correct_target_abstentions + 1;
                if c.supported_grounded_non_targets > 0 {
                    r.safe_partial_unknown_cases = r.safe_partial_unknown_cases + 1;
                }
            }
        }
        if c.expected_outcome.expects_grounded() {
            r.expected_grounded_cases = r.expected_grounded_cases + 1;
            if c.all_targets_grounded {
                r.fully_grounded_target_cases = r.fully_grounded_target_cases + 1;
            }
        }
        i = i + 1;
    }
    proof {
        counting::lemma_full_prefix(s);
    }
    r.missed_target_insufficiency = r.expected_unknown_cases - r.correct_target_abstentions;
    r.false_target_abstentions = r.expected_grounded_cases - r.fully_grounded_target_cases;
    r
}

} // verus!
