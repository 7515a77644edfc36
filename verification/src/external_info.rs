//! The product external-information study: the frozen case set's checks, the
//! admission and acquisition accounting of one external acquisition, and the
//! semantic comparison of the raw model against the harness arms.
use vstd::prelude::*;
use crate::acceptance::system_clock_seconds;
use crate::claims::{AnswerClaim, ClaimMode, Proposition};
use crate::counting;
use crate::tally;
use crate::terms;
use crate::text::str_eq;
use vstd::string::StringSliceAdditionalSpecFns;

verus! {

/// The identity of the study report's schema.
pub const REPORT_SCHEMA: &'static str = "reason-product-external-info-v1";
/// The comparison the study makes.
pub const COMPARISON_CONTRACT: &'static str = "shared-candidate-canonical-finalization-v1";
/// Cases in the frozen case set.
pub const EXPECTED_CASES: usize = 21;
/// Capability families in the frozen case set.
pub const EXPECTED_FAMILIES: usize = 7;
/// Cases of each capability family.
pub const CASES_PER_FAMILY: usize = 3;

/// The current Unix time in seconds, or why it cannot be had.
pub fn now_unix() -> (r: Result<i64, String>)
    ensures
        r is Ok ==> r->Ok_0 >= 0,
{
    unix_time_from_clock(system_clock_seconds())
}

/// The Unix time in seconds from a reading of the system clock: the clock's
/// failure stays its message, and a time past the largest `i64` is refused.
pub fn unix_time_from_clock(clock: Result<u64, String>) -> (r: Result<i64, String>)
    ensures
        match clock {
            Ok(seconds) => if seconds <= i64::MAX {
                r == Ok::<i64, String>(seconds as i64)
            } else {
                r is Err && r->Err_0@ == "current unix time overflow"@
            },
            Err(error) => r == Err::<i64, String>(error),
        },
{
    match clock {
        Ok(seconds) => {
            if seconds > 9223372036854775807u64 {
                Err(String::from_str("current unix time overflow"))
            } else {
                Ok(seconds as i64)
            }
        },
        Err(error) => Err(error),
    }
}

/// A case file: its name is longer than three characters, begins with two
/// ASCII digits and ends in `.json`.
pub open spec fn case_file_name(name: Seq<u8>) -> bool {
    &&& name.len() > 3
    &&& 48 <= name[0] <= 57
    &&& 48 <= name[1] <= 57
    &&& name.len() >= 5
    &&& name.subrange(name.len() - 5, name.len() as int) == seq![46u8, 106u8, 115u8, 111u8, 110u8]
}

/// Whether a file name names a case file.
pub fn is_case_file_name(name: &str) -> (r: bool)
    ensures
        r == case_file_name(name.spec_bytes()),
{
    let b = name.as_bytes();
    let n = b.len();
    if n <= 3 {
        return false;
    }
    if !(48 <= b[0] && b[0] <= 57 && 48 <= b[1] && b[1] <= 57) {
        return false;
    }
    if n < 5 {
        return false;
    }
    let ok = b[n - 5] == 46 && b[n - 4] == 106 && b[n - 3] == 115 && b[n - 2] == 111 && b[n - 1] == 110;
    proof {
        let tail = b@.subrange(n - 5, n as int);
        if ok {
            assert(tail =~= seq![46u8, 106u8, 115u8, 111u8, 110u8]);
        } else {
            if tail == seq![46u8, 106u8, 115u8, 111u8, 110u8] {
                assert(tail[0] == b@[n - 5]);
                assert(tail[4] == b@[n - 1]);
                assert(tail[1] == b@[n - 4]);
                assert(tail[2] == b@[n - 3]);
                assert(tail[3] == b@[n - 2]);
            }
        }
    }
    ok
}

/// The largest of the profiles' timeouts, 1 ms without a profile.
pub open spec fn max_timeout(timeouts: Seq<u64>) -> u64
    decreases timeouts.len(),
{
    if timeouts.len() == 0 {
        1
    } else if timeouts.len() == 1 {
        timeouts[0]
    } else {
        let m = max_timeout(timeouts.drop_last());
        if m >= timeouts.last() { m } else { timeouts.last() }
    }
}

/// Seconds of slack given to retrieval: the largest acquisition timeout in
/// whole seconds, rounded up, plus two.
pub open spec fn retrieval_slack(timeouts: Seq<u64>) -> i64 {
    let m = max_timeout(timeouts) as int;
    ((m + 999) / 1000 + 2) as i64
}

/// The retrieval slack of a case with these acquisition timeouts.
pub fn retrieval_slack_seconds(timeouts: &[u64]) -> (r: i64)
    ensures
        r == retrieval_slack(timeouts@),
{
    let mut m: u64 = 1;
    let mut i: usize = 0;
    while i < timeouts.len()
        invariant
            i <= timeouts.len(),
            m == (if i == 0 { 1 } else { max_timeout(timeouts@.subrange(0, i as int)) }),
        decreases timeouts.len() - i,
    {
        proof {
            let next = timeouts@.subrange(0, i + 1);
            assert(next.drop_last() =~= timeouts@.subrange(0, i as int));
        }
        let t = timeouts[i];
        if i == 0 || t > m {
            m = t;
        }
        i = i + 1;
    }
    assert(timeouts@.subrange(0, timeouts.len() as int) =~= timeouts@);
    let seconds = m / 1000 + if m % 1000 == 0 { 0 } else { 1 };
    assert(seconds as int == (m as int + 999) / 1000) by (nonlinear_arith)
        requires
            seconds == m / 1000 + if m % 1000 == 0 { 0u64 } else { 1u64 },
    {
    }
    (seconds + 2) as i64
}

// ---------------------------------------------------------------------------
// Acquisition attempts.
// ---------------------------------------------------------------------------

/// Why admission refused a piece of acquired evidence.
#[derive(Debug, Clone, Copy, PartialEq, Eq, Structural)]
pub enum AdmissionRejection {
    UntrustedSource,
    MissingTrustedMetadata,
    InvalidEvidence,
    MissingObservationTime,
    MissingRetrievalTime,
    MissingScopeMetadata,
    MissingAuthorityClaim,
    Stale,
    NotYetValid,
    ScopeMismatch,
    ScopeExpansion,
    UnknownAuthorityClass,
    InsufficientAuthority,
    AuthorityClaimMismatch,
}

/// How an acquisition attempt ended; `Other` stands for every status the
/// accounting does not single out.
#[derive(Debug, Clone, Copy, PartialEq, Eq, Structural)]
pub enum AttemptStatus {
    AppliedEvidence,
    RejectedUntrustedEvidence,
    NoResult,
    ProtocolFailure,
    ToolFailed,
    TimedOut,
    TransportFailure,
    AuthenticationFailure,
    PermissionDenied,
    PolicyDenied,
    AdapterUnavailable,
    Other,
}

/// The report key of an admission rejection.
pub open spec fn rejection_name(r: AdmissionRejection) -> Seq<char> {
    match r {
        AdmissionRejection::UntrustedSource => "untrusted_source"@,
        AdmissionRejection::MissingTrustedMetadata => "missing_trusted_metadata"@,
        AdmissionRejection::InvalidEvidence => "invalid_evidence"@,
        AdmissionRejection::MissingObservationTime => "missing_observation_time"@,
        AdmissionRejection::MissingRetrievalTime => "missing_retrieval_time"@,
        AdmissionRejection::MissingScopeMetadata => "missing_scope_metadata"@,
        AdmissionRejection::MissingAuthorityClaim => "missing_authority_claim"@,
        AdmissionRejection::Stale => "stale"@,
        AdmissionRejection::NotYetValid => "not_yet_valid"@,
        AdmissionRejection::ScopeMismatch => "scope_mismatch"@,
        AdmissionRejection::ScopeExpansion => "scope_expansion"@,
        AdmissionRejection::UnknownAuthorityClass => "unknown_authority_class"@,
        AdmissionRejection::InsufficientAuthority => "insufficient_authority"@,
        AdmissionRejection::AuthorityClaimMismatch => "authority_claim_mismatch"@,
    }
}

/// The report key of an admission rejection.
pub fn rejection_key(rejection: AdmissionRejection) -> (r: &'static str)
    ensures
        r@ == rejection_name(rejection),
{
    match rejection {
        AdmissionRejection::UntrustedSource => "untrusted_source",
        AdmissionRejection::MissingTrustedMetadata => "missing_trusted_metadata",
        AdmissionRejection::InvalidEvidence => "invalid_evidence",
        AdmissionRejection::MissingObservationTime => "missing_observation_time",
        AdmissionRejection::MissingRetrievalTime => "missing_retrieval_time",
        AdmissionRejection::MissingScopeMetadata => "missing_scope_metadata",
        AdmissionRejection::MissingAuthorityClaim => "missing_authority_claim",
        AdmissionRejection::Stale => "stale",
        AdmissionRejection::NotYetValid => "not_yet_valid",
        AdmissionRejection::ScopeMismatch => "scope_mismatch",
        AdmissionRejection::ScopeExpansion => "scope_expansion",
        AdmissionRejection::UnknownAuthorityClass => "unknown_authority_class",
        AdmissionRejection::InsufficientAuthority => "insufficient_authority",
        AdmissionRejection::AuthorityClaimMismatch => "authority_claim_mismatch",
    }
}

/// The operational-failure key of an attempt status, if it is one.
pub open spec fn operational_name(status: AttemptStatus) -> Option<Seq<char>> {
    match status {
        AttemptStatus::ProtocolFailure => Some("protocol"@),
        AttemptStatus::ToolFailed => Some("tool_execution"@),
        AttemptStatus::TimedOut => Some("timeout"@),
        AttemptStatus::TransportFailure => Some("transport"@),
        AttemptStatus::AuthenticationFailure => Some("authentication"@),
        AttemptStatus::PermissionDenied => Some("permission_denied"@),
        AttemptStatus::PolicyDenied => Some("policy_denied"@),
        AttemptStatus::AdapterUnavailable => Some("unavailable"@),
        _ => None,
    }
}

/// The operational-failure key of an attempt status, if it is one.
pub fn operational_key(status: AttemptStatus) -> (r: Option<&'static str>)
    ensures
        r matches Some(k) ==> operational_name(status) == Some(k@),
        r is None ==> operational_name(status) is None,
{
    match status {
        AttemptStatus::ProtocolFailure => Some("protocol"),
        AttemptStatus::ToolFailed => Some("tool_execution"),
        AttemptStatus::TimedOut => Some("timeout"),
        AttemptStatus::TransportFailure => Some("transport"),
        AttemptStatus::AuthenticationFailure => Some("authentication"),
        AttemptStatus::PermissionDenied => Some("permission_denied"),
        AttemptStatus::PolicyDenied => Some("policy_denied"),
        AttemptStatus::AdapterUnavailable => Some("unavailable"),
        _ => None,
    }
}

/// What the accounting reads of one acquisition attempt.
#[derive(Debug, Clone, Copy, PartialEq, Eq, Structural)]
pub struct Attempt {
    pub status: AttemptStatus,
    pub admitted_evidence: usize,
    pub admission_rejection: Option<AdmissionRejection>,
}

/// The accounting of an external acquisition.
#[derive(Debug)]
pub struct ExternalAccounting {
    pub acquisition_attempts: usize,
    pub acquisition_successes: usize,
    pub admitted_evidence: usize,
    pub admission_rejections: Vec<(String, usize)>,
    pub operational_failures: Vec<(String, usize)>,
    pub verification_successes: usize,
    pub identity_unsafe_admission: usize,
    pub authority_self_promotion: usize,
    pub stale_rejections: usize,
    pub authority_rejections: usize,
    pub scope_rejections: usize,
    pub conflict_rejections: usize,
}

/// Attempts that reached the source: evidence applied, rejected, or no result.
pub open spec fn acquired() -> spec_fn(Attempt) -> bool {
    |a: Attempt| a.status == AttemptStatus::AppliedEvidence || a.status == AttemptStatus::RejectedUntrustedEvidence
        || a.status == AttemptStatus::NoResult
}

/// Evidence admitted by an attempt.
pub open spec fn admitted_of() -> spec_fn(Attempt) -> nat {
    |a: Attempt| a.admitted_evidence as nat
}

/// Attempts rejected as stale.
pub open spec fn rejected_stale() -> spec_fn(Attempt) -> bool {
    |a: Attempt| a.admission_rejection == Some(AdmissionRejection::Stale)
}

/// Attempts rejected for authority.
pub open spec fn rejected_authority() -> spec_fn(Attempt) -> bool {
    |a: Attempt| a.admission_rejection == Some(AdmissionRejection::InsufficientAuthority)
        || a.admission_rejection == Some(AdmissionRejection::AuthorityClaimMismatch)
}

/// Attempts rejected for scope.
pub open spec fn rejected_scope() -> spec_fn(Attempt) -> bool {
    |a: Attempt| a.admission_rejection == Some(AdmissionRejection::ScopeMismatch)
        || a.admission_rejection == Some(AdmissionRejection::ScopeExpansion)
}

/// The rejection keys of the attempts, in order.
pub open spec fn rejection_names(s: Seq<Attempt>) -> Seq<Option<Seq<char>>> {
    s.map_values(|a: Attempt| match a.admission_rejection {
        Some(r) => Some(rejection_name(r)),
        None => None,
    })
}

/// The operational-failure keys of the attempts, in order.
pub open spec fn operational_names(s: Seq<Attempt>) -> Seq<Option<Seq<char>>> {
    s.map_values(|a: Attempt| operational_name(a.status))
}

/// An admission behavior whose case must not promote an authority claim.
pub open spec fn authority_behavior(behavior: Seq<char>) -> bool {
    behavior == "authority_claim_mismatch"@ || behavior == "insufficient_authority"@
}

/// Accounts for an external acquisition: its attempts, the rejection and
/// operational tallies, and the safety counts of the case's expected admission
/// behavior, given whether the target was verified, whether the final
/// artifact admitted evidence carrying the target's key, and the conflicting
/// qualified evidence findings.
pub fn account_external(
    expected_admission_behavior: &str,
    target_verified: bool,
    target_fact_admitted: bool,
    attempts: &[Attempt],
    conflict_findings: usize,
) -> (r: ExternalAccounting)
    requires
        attempts.len() < usize::MAX,
        counting::sum(attempts@, admitted_of()) <= usize::MAX,
    ensures
        r.acquisition_attempts == attempts.len(),
        r.acquisition_successes == counting::count(attempts@, acquired()),
        r.admitted_evidence == counting::sum(attempts@, admitted_of()),
        tally::well_formed(r.admission_rejections@),
        tally::tally_map(r.admission_rejections@) == tally::tally_of(rejection_names(attempts@)),
        tally::well_formed(r.operational_failures@),
        tally::tally_map(r.operational_failures@) == tally::tally_of(operational_names(attempts@)),
        r.verification_successes == (if target_verified { 1usize } else { 0usize }),
        r.identity_unsafe_admission == (if expected_admission_behavior@ == "identity_no_fact"@ && target_fact_admitted {
            1usize
        } else {
            0usize
        }),
        r.authority_self_promotion == (if authority_behavior(expected_admission_behavior@) && target_verified {
            1usize
        } else {
            0usize
        }),
        r.stale_rejections == counting::count(attempts@, rejected_stale()),
        r.authority_rejections == counting::count(attempts@, rejected_authority()),
        r.scope_rejections == counting::count(attempts@, rejected_scope()),
        r.conflict_rejections == conflict_findings,
{
    let ghost s = attempts@;
    let mut successes: usize = 0;
    let mut admitted: usize = 0;
    let mut stale: usize = 0;
    let mut authority: usize = 0;
    let mut scope: usize = 0;
    let mut rejections: Vec<(String, usize)> = Vec::new();
    let mut operational: Vec<(String, usize)> = Vec::new();
    proof {
        assert(tally::labels(rejections@) =~= Seq::<Seq<char>>::empty());
        assert(tally::tally_map(rejections@) =~= Map::<Seq<char>, nat>::empty());
        assert(tally::labels(operational@) =~= Seq::<Seq<char>>::empty());
        assert(tally::tally_map(operational@) =~= Map::<Seq<char>, nat>::empty());
        assert(rejection_names(s.subrange(0, 0)) =~= Seq::<Option<Seq<char>>>::empty());
        assert(operational_names(s.subrange(0, 0)) =~= Seq::<Option<Seq<char>>>::empty());
    }
    let mut i: usize = 0;
    while i < attempts.len()
        invariant
            s == attempts@,
            i <= s.len(),
            s.len() < usize::MAX,
            counting::sum(s, admitted_of()) <= usize::MAX,
            successes == counting::count(s.subrange(0, i as int), acquired()),
            admitted == counting::sum(s.subrange(0, i as int), admitted_of()),
            stale == counting::count(s.subrange(0, i as int), rejected_stale()),
            authority == counting::count(s.subrange(0, i as int), rejected_authority()),
            scope == counting::count(s.subrange(0, i as int), rejected_scope()),
            tally::well_formed(rejections@),
            tally::tally_map(rejections@) == tally::tally_of(rejection_names(s.subrange(0, i as int))),
            tally::well_formed(operational@),
            tally::tally_map(operational@) == tally::tally_of(operational_names(s.subrange(0, i as int))),
        decreases s.len() - i,
    {
        let ghost prefix = s.subrange(0, i as int);
        let ghost next = s.subrange(0, i + 1);
        proof {
            counting::lemma_count_prefix(s, acquired(), i as int);
            counting::lemma_count_prefix(s, rejected_stale(), i as int);
            counting::lemma_count_prefix(s, rejected_authority(), i as int);
            counting::lemma_count_prefix(s, rejected_scope(), i as int);
            counting::lemma_sum_prefix(s, admitted_of(), i as int);
            counting::lemma_sum_prefix_monotone(s, admitted_of(), i + 1);
            assert(rejection_names(next).drop_last() =~= rejection_names(prefix));
            assert(operational_names(next).drop_last() =~= operational_names(prefix));
            tally::lemma_counts_bounded(rejections@, rejection_names(prefix));
            tally::lemma_counts_bounded(operational@, operational_names(prefix));
        }
        let a = attempts[i];
        match a.status {
            AttemptStatus::AppliedEvidence | AttemptStatus::RejectedUntrustedEvidence | AttemptStatus::NoResult => {
                successes = successes + 1;
            },
            _ => {},
        }
        admitted = admitted + a.admitted_evidence;
        match a.admission_rejection {
            Some(rejection) => {
                match rejection {
                    AdmissionRejection::Stale => {
                        stale = stale + 1;
                    },
                    AdmissionRejection::InsufficientAuthority | AdmissionRejection::AuthorityClaimMismatch => {
                        authority = authority + 1;
                    },
                    AdmissionRejection::ScopeMismatch | AdmissionRejection::ScopeExpansion => {
                        scope = scope + 1;
                    },
                    _ => {},
                }
                let key = rejection_key(rejection).to_owned();
                tally::tally_add(&mut rejections, &key);
            },
            None => {},
        }
        match operational_key(a.status) {
            Some(kind) => {
                let key = kind.to_owned();
                tally::tally_add(&mut operational, &key);
            },
            None => {},
        }
        i = i + 1;
    }
    proof {
        counting::lemma_full_prefix(s);
    }
    let identity_unsafe = str_eq(expected_admission_behavior, "identity_no_fact") && target_fact_admitted;
    let authority_case = str_eq(expected_admission_behavior, "authority_claim_mismatch") || str_eq(
        expected_admission_behavior,
        "insufficient_authority",
    );
    ExternalAccounting {
        acquisition_attempts: attempts.len(),
        acquisition_successes: successes,
        admitted_evidence: admitted,
        admission_rejections: rejections,
        operational_failures: operational,
        verification_successes: if target_verified { 1 } else { 0 },
        identity_unsafe_admission: if identity_unsafe { 1 } else { 0 },
        authority_self_promotion: if authority_case && target_verified { 1 } else { 0 },
        stale_rejections: stale,
        authority_rejections: authority,
        scope_rejections: scope,
        conflict_rejections: conflict_findings,
    }
}

// ---------------------------------------------------------------------------
// The semantic comparison.
// ---------------------------------------------------------------------------

/// The outcome a case expects.
#[derive(Debug, Clone, Copy, PartialEq, Eq, Structural)]
pub enum ExpectedOutcome {
    Grounded,
    Unknown,
    OperationalFailure,
}

/// What an arm's semantic totals read of one case: its expectation, whether
/// the arm's run of it can be scored, whether the arm grounded the exact
/// target, and its unsupported grounded claims.
#[derive(Debug, Clone, Copy, PartialEq, Eq, Structural)]
pub struct ArmObservation {
    pub expected: ExpectedOutcome,
    pub scorable: bool,
    pub target_grounded: bool,
    pub unsupported_grounded_claims: usize,
}

/// An arm's semantic totals over the scored cases; coverage and preservation
/// are their quotients, 1 when nothing was scored.
#[derive(Debug, Clone, Copy, PartialEq, Eq, Structural)]
pub struct SemanticArmAggregate {
    pub semantic_cases_scored: usize,
    pub expected_grounded_cases_scored: usize,
    pub expected_unknown_cases_scored: usize,
    pub expected_grounded_targets_exposed: usize,
    pub expected_unknown_preserved: usize,
    pub false_target_abstention: usize,
    pub unsupported_grounded_claims: usize,
    pub missed_target_insufficiency: usize,
}

/// A semantic case the arm can score.
pub open spec fn scored() -> spec_fn(ArmObservation) -> bool {
    |o: ArmObservation| o.expected != ExpectedOutcome::OperationalFailure && o.scorable
}

/// A scored case expecting a grounded target.
pub open spec fn scored_grounded() -> spec_fn(ArmObservation) -> bool {
    |o: ArmObservation| o.expected == ExpectedOutcome::Grounded && o.scorable
}

/// A scored case expecting the target to stay unknown.
pub open spec fn scored_unknown() -> spec_fn(ArmObservation) -> bool {
    |o: ArmObservation| o.expected == ExpectedOutcome::Unknown && o.scorable
}

/// A scored grounded case whose target the arm grounded.
pub open spec fn exposed() -> spec_fn(ArmObservation) -> bool {
    |o: ArmObservation| o.expected == ExpectedOutcome::Grounded && o.scorable && o.target_grounded
}

/// A scored grounded case whose target the arm did not ground.
pub open spec fn abstained_falsely() -> spec_fn(ArmObservation) -> bool {
    |o: ArmObservation| o.expected == ExpectedOutcome::Grounded && o.scorable && !o.target_grounded
}

/// A scored unknown case the arm kept unknown.
pub open spec fn preserved() -> spec_fn(ArmObservation) -> bool {
    |o: ArmObservation| o.expected == ExpectedOutcome::Unknown && o.scorable && !o.target_grounded
}

/// A scored unknown case whose target the arm grounded anyway.
pub open spec fn missed_insufficiency() -> spec_fn(ArmObservation) -> bool {
    |o: ArmObservation| o.expected == ExpectedOutcome::Unknown && o.scorable && o.target_grounded
}

/// Unsupported grounded claims of a scored case.
pub open spec fn scored_unsupported() -> spec_fn(ArmObservation) -> nat {
    |o: ArmObservation| if o.expected != ExpectedOutcome::OperationalFailure && o.scorable {
        o.unsupported_grounded_claims as nat
    } else {
        0
    }
}

/// An arm's semantic totals.
pub open spec fn semantic_arm_spec(s: Seq<ArmObservation>) -> SemanticArmAggregate {
    SemanticArmAggregate {
        semantic_cases_scored: counting::count(s, scored()) as usize,
        expected_grounded_cases_scored: counting::count(s, scored_grounded()) as usize,
        expected_unknown_cases_scored: counting::count(s, scored_unknown()) as usize,
        expected_grounded_targets_exposed: counting::count(s, exposed()) as usize,
        expected_unknown_preserved: counting::count(s, preserved()) as usize,
        false_target_abstention: counting::count(s, abstained_falsely()) as usize,
        unsupported_grounded_claims: counting::sum(s, scored_unsupported()) as usize,
        missed_target_insufficiency: counting::count(s, missed_insufficiency()) as usize,
    }
}

/// Totals an arm's semantic outcomes over its scorable cases; operational
/// failure cases are never scored.
pub fn semantic_arm(observations: &[ArmObservation]) -> (r: SemanticArmAggregate)
    requires
        counting::sum(observations@, scored_unsupported()) <= usize::MAX,
    ensures
        r == semantic_arm_spec(observations@),
{
    let ghost s = observations@;
    let mut r = SemanticArmAggregate {
        semantic_cases_scored: 0,
        expected_grounded_cases_scored: 0,
        expected_unknown_cases_scored: 0,
        expected_grounded_targets_exposed: 0,
        expected_unknown_preserved: 0,
        false_target_abstention: 0,
        unsupported_grounded_claims: 0,
        missed_target_insufficiency: 0,
    };
    let mut i: usize = 0;
    while i < observations.len()
        invariant
            s == observations@,
            i <= s.len(),
            counting::sum(s, scored_unsupported()) <= usize::MAX,
            r.semantic_cases_scored == counting::count(s.subrange(0, i as int), scored()),
            r.expected_grounded_cases_scored == counting::count(s.subrange(0, i as int), scored_grounded()),
            r.expected_unknown_cases_scored == counting::count(s.subrange(0, i as int), scored_unknown()),
            r.expected_grounded_targets_exposed == counting::count(s.subrange(0, i as int), exposed()),
            r.expected_unknown_preserved == counting::count(s.subrange(0, i as int), preserved()),
            r.false_target_abstention == counting::count(s.subrange(0, i as int), abstained_falsely()),
            r.unsupported_grounded_claims == counting::sum(s.subrange(0, i as int), scored_unsupported()),
            r.missed_target_insufficiency == counting::count(s.subrange(0, i as int), missed_insufficiency()),
        decreases s.len() - i,
    {
        proof {
            counting::lemma_count_prefix(s, scored(), i as int);
            counting::lemma_count_prefix(s, scored_grounded(), i as int);
            counting::lemma_count_prefix(s, scored_unknown(), i as int);
            counting::lemma_count_prefix(s, exposed(), i as int);
            counting::lemma_count_prefix(s, preserved(), i as int);
            counting::lemma_count_prefix(s, abstained_falsely(), i as int);
            counting::lemma_count_prefix(s, missed_insufficiency(), i as int);
            counting::lemma_sum_prefix(s, scored_unsupported(), i as int);
            counting::lemma_sum_prefix_monotone(s, scored_unsupported(), i + 1);
        }
        let o = observations[i];
        if o.expected != ExpectedOutcome::OperationalFailure && o.scorable {
            r.semantic_cases_scored = r.semantic_cases_scored + 1;
            r.unsupported_grounded_claims = r.unsupported_grounded_claims + o.unsupported_grounded_claims;
            if o.expected == ExpectedOutcome::Grounded {
                r.expected_grounded_cases_scored = r.expected_grounded_cases_scored + 1;
                if o.target_grounded {
                    r.expected_grounded_targets_exposed = r.expected_grounded_targets_exposed + 1;
                } else {
                    r.false_target_abstention = r.false_target_abstention + 1;
                }
            } else {
                r.expected_unknown_cases_scored = r.expected_unknown_cases_scored + 1;
                if o.target_grounded {
                    r.missed_target_insufficiency = r.missed_target_insufficiency + 1;
                } else {
                    r.expected_unknown_preserved = r.expected_unknown_preserved + 1;
                }
            }
        }
        i = i + 1;
    }
    proof {
        counting::lemma_full_prefix(s);
    }
    r
}

/// What the comparison reads of one case's three arms.
#[derive(Debug, Clone, Copy, PartialEq, Eq, Structural)]
pub struct ComparisonCase {
    pub expected: ExpectedOutcome,
    pub raw_target_grounded: bool,
    pub raw_unsupported_grounded_claims: usize,
    pub without_external_target_grounded: bool,
    pub without_external_unsupported_grounded_claims: usize,
    pub external_operational_failure: bool,
    pub external_target_grounded: bool,
    pub external_unsupported_grounded_claims: usize,
}

/// The three arms' semantic totals.
#[derive(Debug, Clone, Copy, PartialEq, Eq, Structural)]
pub struct ComparisonAggregate {
    pub raw_model: SemanticArmAggregate,
    pub harness_without_external_acquisition: SemanticArmAggregate,
    pub harness_with_mcp_external_acquisition: SemanticArmAggregate,
}

/// The raw model arm of a case: always scorable.
pub open spec fn raw_arm(c: ComparisonCase) -> ArmObservation {
    ArmObservation {
        expected: c.expected,
        scorable: true,
        target_grounded: c.raw_target_grounded,
        unsupported_grounded_claims: c.raw_unsupported_grounded_claims,
    }
}

/// The harness arm without external acquisition: always scorable.
pub open spec fn without_arm(c: ComparisonCase) -> ArmObservation {
    ArmObservation {
        expected: c.expected,
        scorable: true,
        target_grounded: c.without_external_target_grounded,
        unsupported_grounded_claims: c.without_external_unsupported_grounded_claims,
    }
}

/// The harness arm with external acquisition: scorable without an
/// operational failure.
pub open spec fn external_arm(c: ComparisonCase) -> ArmObservation {
    ArmObservation {
        expected: c.expected,
        scorable: !c.external_operational_failure,
        target_grounded: c.external_target_grounded,
        unsupported_grounded_claims: c.external_unsupported_grounded_claims,
    }
}

/// The arms' claim totals fit their counters.
pub open spec fn comparison_fits(s: Seq<ComparisonCase>) -> bool {
    &&& counting::sum(s.map_values(|c: ComparisonCase| raw_arm(c)), scored_unsupported()) <= usize::MAX
    &&& counting::sum(s.map_values(|c: ComparisonCase| without_arm(c)), scored_unsupported()) <= usize::MAX
    &&& counting::sum(s.map_values(|c: ComparisonCase| external_arm(c)), scored_unsupported()) <= usize::MAX
}

/// Compares the raw model with the harness arms over the semantic cases.
pub fn comparison_aggregate(cases: &[ComparisonCase]) -> (r: ComparisonAggregate)
    requires
        comparison_fits(cases@),
    ensures
        r.raw_model == semantic_arm_spec(cases@.map_values(|c: ComparisonCase| raw_arm(c))),
        r.harness_without_external_acquisition == semantic_arm_spec(cases@.map_values(|c: ComparisonCase| without_arm(c))),
        r.harness_with_mcp_external_acquisition == semantic_arm_spec(cases@.map_values(|c: ComparisonCase| external_arm(c))),
{
    let mut raw: Vec<ArmObservation> = Vec::new();
    let mut without: Vec<ArmObservation> = Vec::new();
    let mut external: Vec<ArmObservation> = Vec::new();
    let mut i: usize = 0;
    while i < cases.len()
        invariant
            i <= cases.len(),
            raw@ == cases@.subrange(0, i as int).map_values(|c: ComparisonCase| raw_arm(c)),
            without@ == cases@.subrange(0, i as int).map_values(|c: ComparisonCase| without_arm(c)),
            external@ == cases@.subrange(0, i as int).map_values(|c: ComparisonCase| external_arm(c)),
        decreases cases.len() - i,
    {
        let c = cases[i];
        raw.push(ArmObservation {
            expected: c.expected,
            scorable: true,
            target_grounded: c.raw_target_grounded,
            unsupported_grounded_claims: c.raw_unsupported_grounded_claims,
        });
        without.push(ArmObservation {
            expected: c.expected,
            scorable: true,
            target_grounded: c.without_external_target_grounded,
            unsupported_grounded_claims: c.without_external_unsupported_grounded_claims,
        });
        external.push(ArmObservation {
            expected: c.expected,
            scorable: !c.external_operational_failure,
            target_grounded: c.external_target_grounded,
            unsupported_grounded_claims: c.external_unsupported_grounded_claims,
        });
        i = i + 1;
        assert(raw@ =~= cases@.subrange(0, i as int).map_values(|c: ComparisonCase| raw_arm(c)));
        assert(without@ =~= cases@.subrange(0, i as int).map_values(|c: ComparisonCase| without_arm(c)));
        assert(external@ =~= cases@.subrange(0, i as int).map_values(|c: ComparisonCase| external_arm(c)));
    }
    assert(cases@.subrange(0, cases.len() as int) =~= cases@);
    ComparisonAggregate {
        raw_model: semantic_arm(raw.as_slice()),
        harness_without_external_acquisition: semantic_arm(without.as_slice()),
        harness_with_mcp_external_acquisition: semantic_arm(external.as_slice()),
    }
}

// ---------------------------------------------------------------------------
// The study aggregate.
// ---------------------------------------------------------------------------

/// What the study aggregate reads of one case's external acquisition arm.
#[derive(Debug, Clone, Copy, PartialEq, Eq, Structural)]
pub struct StudyCase {
    pub expected: ExpectedOutcome,
    pub operationally_incomplete: bool,
    pub target_grounded: bool,
    pub acquisition_attempts: usize,
    pub acquisition_successes: usize,
    pub verification_successes: usize,
    pub unsupported_grounded_claims: usize,
    pub identity_unsafe_admission: usize,
    pub authority_self_promotion: usize,
    pub stale_rejections: usize,
    pub authority_rejections: usize,
    pub scope_rejections: usize,
    pub conflict_rejections: usize,
    pub operational_failure_count: usize,
}

/// How many cases ended each way.
#[derive(Debug, Clone, Copy, PartialEq, Eq, Structural)]
pub struct StudyCounts {
    pub semantic_cases: usize,
    pub semantic_cases_scored: usize,
    pub semantic_cases_operationally_incomplete: usize,
    pub operational_cases: usize,
    pub expected_grounded_cases: usize,
    pub expected_grounded_cases_scored: usize,
    pub expected_unknown_cases: usize,
    pub expected_unknown_cases_scored: usize,
    pub expected_grounded_targets_exposed: usize,
    pub false_target_abstention: usize,
    pub expected_unknown_preserved: usize,
    pub missed_target_insufficiency: usize,
}

/// The external arm's totals over every case.
#[derive(Debug, Clone, Copy, PartialEq, Eq, Structural)]
pub struct StudyTotals {
    pub external_acquisition_attempts: usize,
    pub external_acquisition_successes: usize,
    pub verification_successes: usize,
    pub unsupported_grounded_claims: usize,
    pub identity_unsafe_admission: usize,
    pub mcp_output_authority_self_promotion: usize,
    pub stale_rejection: usize,
    pub authority_rejection: usize,
    pub scope_rejection: usize,
    pub conflict_rejection: usize,
    pub tool_protocol_timeout_operational_failures: usize,
}

/// Semantic cases.
pub open spec fn semantic() -> spec_fn(StudyCase) -> bool {
    |o: StudyCase| o.expected != ExpectedOutcome::OperationalFailure
}

/// Semantic cases scored.
pub open spec fn semantic_scored() -> spec_fn(StudyCase) -> bool {
    |o: StudyCase| o.expected != ExpectedOutcome::OperationalFailure && !o.operationally_incomplete
}

/// Semantic cases left incomplete by an operational failure.
pub open spec fn semantic_incomplete() -> spec_fn(StudyCase) -> bool {
    |o: StudyCase| o.expected != ExpectedOutcome::OperationalFailure && o.operationally_incomplete
}

/// Cases expecting an operational failure.
pub open spec fn operational_case() -> spec_fn(StudyCase) -> bool {
    |o: StudyCase| o.expected == ExpectedOutcome::OperationalFailure
}

/// Cases expecting a grounded target.
pub open spec fn grounded_case() -> spec_fn(StudyCase) -> bool {
    |o: StudyCase| o.expected == ExpectedOutcome::Grounded
}

/// Grounded cases scored.
pub open spec fn grounded_scored() -> spec_fn(StudyCase) -> bool {
    |o: StudyCase| o.expected == ExpectedOutcome::Grounded && !o.operationally_incomplete
}

/// Cases expecting the target to stay unknown.
pub open spec fn unknown_case() -> spec_fn(StudyCase) -> bool {
    |o: StudyCase| o.expected == ExpectedOutcome::Unknown
}

/// Unknown cases scored.
pub open spec fn unknown_scored() -> spec_fn(StudyCase) -> bool {
    |o: StudyCase| o.expected == ExpectedOutcome::Unknown && !o.operationally_incomplete
}

/// Scored grounded cases whose target was grounded.
pub open spec fn grounded_exposed() -> spec_fn(StudyCase) -> bool {
    |o: StudyCase| o.expected == ExpectedOutcome::Grounded && !o.operationally_incomplete && o.target_grounded
}

/// Scored grounded cases whose target was not grounded.
pub open spec fn grounded_abstained() -> spec_fn(StudyCase) -> bool {
    |o: StudyCase| o.expected == ExpectedOutcome::Grounded && !o.operationally_incomplete && !o.target_grounded
}

/// Scored unknown cases kept unknown.
pub open spec fn unknown_preserved() -> spec_fn(StudyCase) -> bool {
    |o: StudyCase| o.expected == ExpectedOutcome::Unknown && !o.operationally_incomplete && !o.target_grounded
}

/// Scored unknown cases whose target was grounded anyway.
pub open spec fn unknown_grounded() -> spec_fn(StudyCase) -> bool {
    |o: StudyCase| o.expected == ExpectedOutcome::Unknown && !o.operationally_incomplete && o.target_grounded
}

/// The `acquisition_attempts` of a case.
pub open spec fn total_acquisition_attempts() -> spec_fn(StudyCase) -> nat {
    |o: StudyCase| o.acquisition_attempts as nat
}

/// The `acquisition_successes` of a case.
pub open spec fn total_acquisition_successes() -> spec_fn(StudyCase) -> nat {
    |o: StudyCase| o.acquisition_successes as nat
}

/// The `verification_successes` of a case.
pub open spec fn total_verification_successes() -> spec_fn(StudyCase) -> nat {
    |o: StudyCase| o.verification_successes as nat
}

/// The `unsupported_grounded_claims` of a case.
pub open spec fn total_unsupported_grounded_claims() -> spec_fn(StudyCase) -> nat {
    |o: StudyCase| o.unsupported_grounded_claims as nat
}

/// The `identity_unsafe_admission` of a case.
pub open spec fn total_identity_unsafe_admission() -> spec_fn(StudyCase) -> nat {
    |o: StudyCase| o.identity_unsafe_admission as nat
}

/// The `authority_self_promotion` of a case.
pub open spec fn total_authority_self_promotion() -> spec_fn(StudyCase) -> nat {
    |o: StudyCase| o.authority_self_promotion as nat
}

/// The `stale_rejections` of a case.
pub open spec fn total_stale_rejections() -> spec_fn(StudyCase) -> nat {
    |o: StudyCase| o.stale_rejections as nat
}

/// The `authority_rejections` of a case.
pub open spec fn total_authority_rejections() -> spec_fn(StudyCase) -> nat {
    |o: StudyCase| o.authority_rejections as nat
}

/// The `scope_rejections` of a case.
pub open spec fn total_scope_rejections() -> spec_fn(StudyCase) -> nat {
    |o: StudyCase| o.scope_rejections as nat
}

/// The `conflict_rejections` of a case.
pub open spec fn total_conflict_rejections() -> spec_fn(StudyCase) -> nat {
    |o: StudyCase| o.conflict_rejections as nat
}

/// The `operational_failure_count` of a case.
pub open spec fn total_operational_failure_count() -> spec_fn(StudyCase) -> nat {
    |o: StudyCase| o.operational_failure_count as nat
}

/// The case counts of the study.
pub open spec fn study_counts(s: Seq<StudyCase>) -> StudyCounts {
    StudyCounts {
        semantic_cases: counting::count(s, semantic()) as usize,
        semantic_cases_scored: counting::count(s, semantic_scored()) as usize,
        semantic_cases_operationally_incomplete: counting::count(s, semantic_incomplete()) as usize,
        operational_cases: counting::count(s, operational_case()) as usize,
        expected_grounded_cases: counting::count(s, grounded_case()) as usize,
        expected_grounded_cases_scored: counting::count(s, grounded_scored()) as usize,
        expected_unknown_cases: counting::count(s, unknown_case()) as usize,
        expected_unknown_cases_scored: counting::count(s, unknown_scored()) as usize,
        expected_grounded_targets_exposed: counting::count(s, grounded_exposed()) as usize,
        false_target_abstention: counting::count(s, grounded_abstained()) as usize,
        expected_unknown_preserved: counting::count(s, unknown_preserved()) as usize,
        missed_target_insufficiency: counting::count(s, unknown_grounded()) as usize,
    }
}

/// One more case added to the counts.
pub open spec fn counts_step(r: StudyCounts, o: StudyCase) -> StudyCounts {
    StudyCounts {
        semantic_cases: (r.semantic_cases + if semantic()(o) { 1int } else { 0int }) as usize,
        semantic_cases_scored: (r.semantic_cases_scored + if semantic_scored()(o) { 1int } else { 0int }) as usize,
        semantic_cases_operationally_incomplete: (r.semantic_cases_operationally_incomplete + if semantic_incomplete()(o) { 1int } else { 0int }) as usize,
        operational_cases: (r.operational_cases + if operational_case()(o) { 1int } else { 0int }) as usize,
        expected_grounded_cases: (r.expected_grounded_cases + if grounded_case()(o) { 1int } else { 0int }) as usize,
        expected_grounded_cases_scored: (r.expected_grounded_cases_scored + if grounded_scored()(o) { 1int } else { 0int }) as usize,
        expected_unknown_cases: (r.expected_unknown_cases + if unknown_case()(o) { 1int } else { 0int }) as usize,
        expected_unknown_cases_scored: (r.expected_unknown_cases_scored + if unknown_scored()(o) { 1int } else { 0int }) as usize,
        expected_grounded_targets_exposed: (r.expected_grounded_targets_exposed + if grounded_exposed()(o) { 1int } else { 0int }) as usize,
        false_target_abstention: (r.false_target_abstention + if grounded_abstained()(o) { 1int } else { 0int }) as usize,
        expected_unknown_preserved: (r.expected_unknown_preserved + if unknown_preserved()(o) { 1int } else { 0int }) as usize,
        missed_target_insufficiency: (r.missed_target_insufficiency + if unknown_grounded()(o) { 1int } else { 0int }) as usize,
    }
}

/// Every count is at most `n`.
pub open spec fn counts_at_most(r: StudyCounts, n: int) -> bool {
    &&& r.semantic_cases <= n
    &&& r.semantic_cases_scored <= n
    &&& r.semantic_cases_operationally_incomplete <= n
    &&& r.operational_cases <= n
    &&& r.expected_grounded_cases <= n
    &&& r.expected_grounded_cases_scored <= n
    &&& r.expected_unknown_cases <= n
    &&& r.expected_unknown_cases_scored <= n
    &&& r.expected_grounded_targets_exposed <= n
    &&& r.false_target_abstention <= n
    &&& r.expected_unknown_preserved <= n
    &&& r.missed_target_insufficiency <= n
}

proof fn lemma_counts_prefix(s: Seq<StudyCase>, i: int)
    requires
        0 <= i < s.len(),
        s.len() <= usize::MAX,
    ensures
        study_counts(s.subrange(0, i + 1)) == counts_step(study_counts(s.subrange(0, i)), s[i]),
        counts_at_most(study_counts(s.subrange(0, i)), i),
{
    counting::lemma_count_prefix(s, semantic(), i);
    counting::lemma_count_prefix(s, semantic_scored(), i);
    counting::lemma_count_prefix(s, semantic_incomplete(), i);
    counting::lemma_count_prefix(s, operational_case(), i);
    counting::lemma_count_prefix(s, grounded_case(), i);
    counting::lemma_count_prefix(s, grounded_scored(), i);
    counting::lemma_count_prefix(s, unknown_case(), i);
    counting::lemma_count_prefix(s, unknown_scored(), i);
    counting::lemma_count_prefix(s, grounded_exposed(), i);
    counting::lemma_count_prefix(s, grounded_abstained(), i);
    counting::lemma_count_prefix(s, unknown_preserved(), i);
    counting::lemma_count_prefix(s, unknown_grounded(), i);
}

fn add_case(r: StudyCounts, o: &StudyCase) -> (n: StudyCounts)
    requires
        counts_at_most(r, usize::MAX - 1),
    ensures
        n == counts_step(r, *o),
{
    let mut n = r;
    match o.expected {
        ExpectedOutcome::OperationalFailure => {
            n.operational_cases = n.operational_cases + 1;
        },
        ExpectedOutcome::Grounded => {
            n.semantic_cases = n.semantic_cases + 1;
            n.expected_grounded_cases = n.expected_grounded_cases + 1;
            if o.operationally_incomplete {
                n.semantic_cases_operationally_incomplete = n.semantic_cases_operationally_incomplete + 1;
            } else {
                n.semantic_cases_scored = n.semantic_cases_scored + 1;
                n.expected_grounded_cases_scored = n.expected_grounded_cases_scored + 1;
                if o.target_grounded {
                    n.expected_grounded_targets_exposed = n.expected_grounded_targets_exposed + 1;
                } else {
                    n.false_target_abstention = n.false_target_abstention + 1;
                }
            }
        },
        ExpectedOutcome::Unknown => {
            n.semantic_cases = n.semantic_cases + 1;
            n.expected_unknown_cases = n.expected_unknown_cases + 1;
            if o.operationally_incomplete {
                n.semantic_cases_operationally_incomplete = n.semantic_cases_operationally_incomplete + 1;
            } else {
                n.semantic_cases_scored = n.semantic_cases_scored + 1;
                n.expected_unknown_cases_scored = n.expected_unknown_cases_scored + 1;
                if o.target_grounded {
                    n.missed_target_insufficiency = n.missed_target_insufficiency + 1;
                } else {
                    n.expected_unknown_preserved = n.expected_unknown_preserved + 1;
                }
            }
        },
    }
    n
}

/// Counts how the study's cases ended.
pub fn count_study_cases(cases: &[StudyCase]) -> (r: StudyCounts)
    requires
        cases.len() < usize::MAX,
    ensures
        r == study_counts(cases@),
{
    let ghost s = cases@;
    let mut r = StudyCounts {
        semantic_cases: 0,
        semantic_cases_scored: 0,
        semantic_cases_operationally_incomplete: 0,
        operational_cases: 0,
        expected_grounded_cases: 0,
        expected_grounded_cases_scored: 0,
        expected_unknown_cases: 0,
        expected_unknown_cases_scored: 0,
        expected_grounded_targets_exposed: 0,
        false_target_abstention: 0,
        expected_unknown_preserved: 0,
        missed_target_insufficiency: 0,
    };
    assert(r == study_counts(s.subrange(0, 0)));
    let mut i: usize = 0;
    while i < cases.len()
        invariant
            s == cases@,
            i <= s.len(),
            s.len() < usize::MAX,
            r == study_counts(s.subrange(0, i as int)),
        decreases s.len() - i,
    {
        proof {
            lemma_counts_prefix(s, i as int);
        }
        r = add_case(r, &cases[i]);
        i = i + 1;
    }
    proof {
        counting::lemma_full_prefix(s);
    }
    r
}

/// The external arm's totals.
pub open spec fn study_totals(s: Seq<StudyCase>) -> StudyTotals {
    StudyTotals {
        external_acquisition_attempts: counting::sum(s, total_acquisition_attempts()) as usize,
        external_acquisition_successes: counting::sum(s, total_acquisition_successes()) as usize,
        verification_successes: counting::sum(s, total_verification_successes()) as usize,
        unsupported_grounded_claims: counting::sum(s, total_unsupported_grounded_claims()) as usize,
        identity_unsafe_admission: counting::sum(s, total_identity_unsafe_admission()) as usize,
        mcp_output_authority_self_promotion: counting::sum(s, total_authority_self_promotion()) as usize,
        stale_rejection: counting::sum(s, total_stale_rejections()) as usize,
        authority_rejection: counting::sum(s, total_authority_rejections()) as usize,
        scope_rejection: counting::sum(s, total_scope_rejections()) as usize,
        conflict_rejection: counting::sum(s, total_conflict_rejections()) as usize,
        tool_protocol_timeout_operational_failures: counting::sum(s, total_operational_failure_count()) as usize,
    }
}

/// Every total fits a `usize`.
pub open spec fn study_totals_fit(s: Seq<StudyCase>) -> bool {
    &&& counting::sum(s, total_acquisition_attempts()) <= usize::MAX
    &&& counting::sum(s, total_acquisition_successes()) <= usize::MAX
    &&& counting::sum(s, total_verification_successes()) <= usize::MAX
    &&& counting::sum(s, total_unsupported_grounded_claims()) <= usize::MAX
    &&& counting::sum(s, total_identity_unsafe_admission()) <= usize::MAX
    &&& counting::sum(s, total_authority_self_promotion()) <= usize::MAX
    &&& counting::sum(s, total_stale_rejections()) <= usize::MAX
    &&& counting::sum(s, total_authority_rejections()) <= usize::MAX
    &&& counting::sum(s, total_scope_rejections()) <= usize::MAX
    &&& counting::sum(s, total_conflict_rejections()) <= usize::MAX
    &&& counting::sum(s, total_operational_failure_count()) <= usize::MAX
}

/// Each total of `longer` is that of `shorter` plus the case `o`.
pub open spec fn totals_extend(shorter: Seq<StudyCase>, longer: Seq<StudyCase>, o: StudyCase) -> bool {
    &&& counting::sum(longer, total_acquisition_attempts()) == counting::sum(shorter, total_acquisition_attempts()) + o.acquisition_attempts
    &&& counting::sum(longer, total_acquisition_successes()) == counting::sum(shorter, total_acquisition_successes()) + o.acquisition_successes
    &&& counting::sum(longer, total_verification_successes()) == counting::sum(shorter, total_verification_successes()) + o.verification_successes
    &&& counting::sum(longer, total_unsupported_grounded_claims()) == counting::sum(shorter, total_unsupported_grounded_claims()) + o.unsupported_grounded_claims
    &&& counting::sum(longer, total_identity_unsafe_admission()) == counting::sum(shorter, total_identity_unsafe_admission()) + o.identity_unsafe_admission
    &&& counting::sum(longer, total_authority_self_promotion()) == counting::sum(shorter, total_authority_self_promotion()) + o.authority_self_promotion
    &&& counting::sum(longer, total_stale_rejections()) == counting::sum(shorter, total_stale_rejections()) + o.stale_rejections
    &&& counting::sum(longer, total_authority_rejections()) == counting::sum(shorter, total_authority_rejections()) + o.authority_rejections
    &&& counting::sum(longer, total_scope_rejections()) == counting::sum(shorter, total_scope_rejections()) + o.scope_rejections
    &&& counting::sum(longer, total_conflict_rejections()) == counting::sum(shorter, total_conflict_rejections()) + o.conflict_rejections
    &&& counting::sum(longer, total_operational_failure_count()) == counting::sum(shorter, total_operational_failure_count()) + o.operational_failure_count
}

proof fn lemma_totals_prefix(s: Seq<StudyCase>, i: int)
    requires
        0 <= i < s.len(),
        study_totals_fit(s),
    ensures
        totals_extend(s.subrange(0, i), s.subrange(0, i + 1), s[i]),
        study_totals_fit(s.subrange(0, i)),
        study_totals_fit(s.subrange(0, i + 1)),
{
    counting::lemma_sum_prefix(s, total_acquisition_attempts(), i);
    counting::lemma_sum_prefix_monotone(s, total_acquisition_attempts(), i);
    counting::lemma_sum_prefix_monotone(s, total_acquisition_attempts(), i + 1);
    counting::lemma_sum_prefix(s, total_acquisition_successes(), i);
    counting::lemma_sum_prefix_monotone(s, total_acquisition_successes(), i);
    counting::lemma_sum_prefix_monotone(s, total_acquisition_successes(), i + 1);
    counting::lemma_sum_prefix(s, total_verification_successes(), i);
    counting::lemma_sum_prefix_monotone(s, total_verification_successes(), i);
    counting::lemma_sum_prefix_monotone(s, total_verification_successes(), i + 1);
    counting::lemma_sum_prefix(s, total_unsupported_grounded_claims(), i);
    counting::lemma_sum_prefix_monotone(s, total_unsupported_grounded_claims(), i);
    counting::lemma_sum_prefix_monotone(s, total_unsupported_grounded_claims(), i + 1);
    counting::lemma_sum_prefix(s, total_identity_unsafe_admission(), i);
    counting::lemma_sum_prefix_monotone(s, total_identity_unsafe_admission(), i);
    counting::lemma_sum_prefix_monotone(s, total_identity_unsafe_admission(), i + 1);
    counting::lemma_sum_prefix(s, total_authority_self_promotion(), i);
    counting::lemma_sum_prefix_monotone(s, total_authority_self_promotion(), i);
    counting::lemma_sum_prefix_monotone(s, total_authority_self_promotion(), i + 1);
    counting::lemma_sum_prefix(s, total_stale_rejections(), i);
    counting::lemma_sum_prefix_monotone(s, total_stale_rejections(), i);
    counting::lemma_sum_prefix_monotone(s, total_stale_rejections(), i + 1);
    counting::lemma_sum_prefix(s, total_authority_rejections(), i);
    counting::lemma_sum_prefix_monotone(s, total_authority_rejections(), i);
    counting::lemma_sum_prefix_monotone(s, total_authority_rejections(), i + 1);
    counting::lemma_sum_prefix(s, total_scope_rejections(), i);
    counting::lemma_sum_prefix_monotone(s, total_scope_rejections(), i);
    counting::lemma_sum_prefix_monotone(s, total_scope_rejections(), i + 1);
    counting::lemma_sum_prefix(s, total_conflict_rejections(), i);
    counting::lemma_sum_prefix_monotone(s, total_conflict_rejections(), i);
    counting::lemma_sum_prefix_monotone(s, total_conflict_rejections(), i + 1);
    counting::lemma_sum_prefix(s, total_operational_failure_count(), i);
    counting::lemma_sum_prefix_monotone(s, total_operational_failure_count(), i);
    counting::lemma_sum_prefix_monotone(s, total_operational_failure_count(), i + 1);
}

/// Totals the external arm over the cases.
pub fn total_study_cases(cases: &[StudyCase]) -> (r: StudyTotals)
    requires
        study_totals_fit(cases@),
    ensures
        r == study_totals(cases@),
{
    let ghost s = cases@;
    let mut r = StudyTotals {
        external_acquisition_attempts: 0,
        external_acquisition_successes: 0,
        verification_successes: 0,
        unsupported_grounded_claims: 0,
        identity_unsafe_admission: 0,
        mcp_output_authority_self_promotion: 0,
        stale_rejection: 0,
        authority_rejection: 0,
        scope_rejection: 0,
        conflict_rejection: 0,
        tool_protocol_timeout_operational_failures: 0,
    };
    assert(r == study_totals(s.subrange(0, 0)));
    let mut i: usize = 0;
    while i < cases.len()
        invariant
            s == cases@,
            i <= s.len(),
            study_totals_fit(s),
            study_totals_fit(s.subrange(0, i as int)),
            r == study_totals(s.subrange(0, i as int)),
        decreases s.len() - i,
    {
        proof {
            lemma_totals_prefix(s, i as int);
        }
        let o = cases[i];
        r.external_acquisition_attempts = r.external_acquisition_attempts + o.acquisition_attempts;
        r.external_acquisition_successes = r.external_acquisition_successes + o.acquisition_successes;
        r.verification_successes = r.verification_successes + o.verification_successes;
        r.unsupported_grounded_claims = r.unsupported_grounded_claims + o.unsupported_grounded_claims;
        r.identity_unsafe_admission = r.identity_unsafe_admission + o.identity_unsafe_admission;
        r.mcp_output_authority_self_promotion = r.mcp_output_authority_self_promotion + o.authority_self_promotion;
        r.stale_rejection = r.stale_rejection + o.stale_rejections;
        r.authority_rejection = r.authority_rejection + o.authority_rejections;
        r.scope_rejection = r.scope_rejection + o.scope_rejections;
        r.conflict_rejection = r.conflict_rejection + o.conflict_rejections;
        r.tool_protocol_timeout_operational_failures = r.tool_protocol_timeout_operational_failures + o.operational_failure_count;
        i = i + 1;
    }
    proof {
        counting::lemma_full_prefix(s);
    }
    r
}

/// The study aggregate: its case counts and totals, and whether every safety
/// count is zero.
#[derive(Debug, Clone, Copy, PartialEq, Eq, Structural)]
pub struct StudyAggregate {
    pub total_cases: usize,
    pub counts: StudyCounts,
    pub totals: StudyTotals,
    pub safety_checks_passed: bool,
}

/// No unsupported grounded claim, missed insufficiency, identity-unsafe
/// admission or authority self-promotion.
pub open spec fn safety_holds(c: StudyCounts, t: StudyTotals) -> bool {
    t.unsupported_grounded_claims == 0 && c.missed_target_insufficiency == 0 && t.identity_unsafe_admission == 0
        && t.mcp_output_authority_self_promotion == 0
}

/// Aggregates the study's cases.
pub fn aggregate(cases: &[StudyCase]) -> (r: StudyAggregate)
    requires
        cases.len() < usize::MAX,
        study_totals_fit(cases@),
    ensures
        r.total_cases == cases.len(),
        r.counts == study_counts(cases@),
        r.totals == study_totals(cases@),
        r.safety_checks_passed == safety_holds(r.counts, r.totals),
{
    let counts = count_study_cases(cases);
    let totals = total_study_cases(cases);
    let passed = totals.unsupported_grounded_claims == 0 && counts.missed_target_insufficiency == 0
        && totals.identity_unsafe_admission == 0 && totals.mcp_output_authority_self_promotion == 0;
    StudyAggregate { total_cases: cases.len(), counts, totals, safety_checks_passed: passed }
}

// ---------------------------------------------------------------------------
// The frozen case set.
// ---------------------------------------------------------------------------

/// What the case-set checks read of one case.
#[derive(Debug)]
pub struct FrozenCase {
    pub id: String,
    pub capability_family: String,
    pub target_identity: String,
    pub acquisition_profiles: usize,
    pub expected: ExpectedOutcome,
    pub has_operational_class: bool,
}

/// Why the frozen case set is refused.
#[derive(Debug, PartialEq, Eq)]
pub enum CaseSetError {
    /// Not the expected number of cases.
    CaseCount(usize),
    DuplicateCaseId(String),
    DuplicateTargetIdentity(String),
    NoAcquisitionProfile(String),
    UntypedOperationalCase(String),
    /// Not seven capability families of three cases each.
    FamilyShape,
}

/// Whether the case at `i` repeats the id of an earlier case.
pub open spec fn repeats_id(cases: Seq<FrozenCase>, i: int) -> bool {
    exists|j: int| 0 <= j < i && (#[trigger] cases[j]).id@ == cases[i].id@
}

/// Whether the case at `i` repeats the target identity of an earlier case.
pub open spec fn repeats_target(cases: Seq<FrozenCase>, i: int) -> bool {
    exists|j: int| 0 <= j < i && (#[trigger] cases[j]).target_identity@ == cases[i].target_identity@
}

/// What is wrong with the case at `i`, if anything, in the order checked.
pub open spec fn case_fault(cases: Seq<FrozenCase>, i: int) -> Option<CaseSetError> {
    if repeats_id(cases, i) {
        Some(CaseSetError::DuplicateCaseId(cases[i].id))
    } else if repeats_target(cases, i) {
        Some(CaseSetError::DuplicateTargetIdentity(cases[i].target_identity))
    } else if cases[i].acquisition_profiles == 0 {
        Some(CaseSetError::NoAcquisitionProfile(cases[i].id))
    } else if cases[i].expected == ExpectedOutcome::OperationalFailure && !cases[i].has_operational_class {
        Some(CaseSetError::UntypedOperationalCase(cases[i].id))
    } else {
        None
    }
}

/// The fault of the first faulty case from `i` on.
pub open spec fn first_case_fault(cases: Seq<FrozenCase>, i: int) -> Option<CaseSetError>
    decreases cases.len() - i,
{
    if i < 0 || i >= cases.len() {
        None
    } else if case_fault(cases, i) is Some {
        case_fault(cases, i)
    } else {
        first_case_fault(cases, i + 1)
    }
}

/// The capability families of the cases.
pub open spec fn case_families(cases: Seq<FrozenCase>) -> Seq<Option<Seq<char>>> {
    cases.map_values(|c: FrozenCase| Some(c.capability_family@))
}

/// Seven families of three cases each.
pub open spec fn family_shape_holds(cases: Seq<FrozenCase>) -> bool {
    let m = tally::tally_of(case_families(cases));
    m.dom().len() == EXPECTED_FAMILIES && forall|k: Seq<char>| #[trigger] m.contains_key(k) ==> m[k] == CASES_PER_FAMILY
}

/// The first check the case set fails, in the order they are made.
pub open spec fn case_set_fault(cases: Seq<FrozenCase>) -> Option<CaseSetError> {
    if cases.len() != EXPECTED_CASES {
        Some(CaseSetError::CaseCount(cases.len() as usize))
    } else if first_case_fault(cases, 0) is Some {
        first_case_fault(cases, 0)
    } else if !family_shape_holds(cases) {
        Some(CaseSetError::FamilyShape)
    } else {
        None
    }
}

/// Checks the frozen case set.
pub fn validate_cases(cases: &Vec<FrozenCase>) -> (r: Result<(), CaseSetError>)
    ensures
        r is Ok <==> case_set_fault(cases@) is None,
        r matches Err(e) ==> case_set_fault(cases@) == Some(e),
{
    let ghost s = cases@;
    if cases.len() != EXPECTED_CASES {
        return Err(CaseSetError::CaseCount(cases.len()));
    }
    let mut families: Vec<(String, usize)> = Vec::new();
    proof {
        assert(tally::labels(families@) =~= Seq::<Seq<char>>::empty());
        assert(tally::tally_map(families@) =~= Map::<Seq<char>, nat>::empty());
        assert(case_families(s.subrange(0, 0)) =~= Seq::<Option<Seq<char>>>::empty());
    }
    let mut i: usize = 0;
    while i < cases.len()
        invariant
            s == cases@,
            s.len() == EXPECTED_CASES,
            i <= s.len(),
            first_case_fault(s, 0) == first_case_fault(s, i as int),
            tally::well_formed(families@),
            tally::tally_map(families@) == tally::tally_of(case_families(s.subrange(0, i as int))),
        decreases s.len() - i,
    {
        let c = &cases[i];
        let mut id_seen = false;
        let mut target_seen = false;
        let mut j: usize = 0;
        while j < i
            invariant
                s == cases@,
                i < s.len(),
                j <= i,
                *c == s[i as int],
                id_seen == exists|m: int| 0 <= m < j && (#[trigger] s[m]).id@ == s[i as int].id@,
                target_seen == exists|m: int| 0 <= m < j && (#[trigger] s[m]).target_identity@ == s[i as int].target_identity@,
            decreases i - j,
        {
            if str_eq(cases[j].id.as_str(), c.id.as_str()) {
                id_seen = true;
            }
            if str_eq(cases[j].target_identity.as_str(), c.target_identity.as_str()) {
                target_seen = true;
            }
            j = j + 1;
        }
        if id_seen {
            return Err(CaseSetError::DuplicateCaseId(c.id.clone()));
        }
        if target_seen {
            return Err(CaseSetError::DuplicateTargetIdentity(c.target_identity.clone()));
        }
        let ghost prefix = s.subrange(0, i as int);
        let ghost next = s.subrange(0, i + 1);
        proof {
            assert(case_families(next).drop_last() =~= case_families(prefix));
            tally::lemma_counts_bounded(families@, case_families(prefix));
        }
        tally::tally_add(&mut families, &c.capability_family);
        if c.acquisition_profiles == 0 {
            return Err(CaseSetError::NoAcquisitionProfile(c.id.clone()));
        }
        if c.expected == ExpectedOutcome::OperationalFailure && !c.has_operational_class {
            return Err(CaseSetError::UntypedOperationalCase(c.id.clone()));
        }
        i = i + 1;
    }
    proof {
        counting::lemma_full_prefix(s);
        tally::lemma_tally_size(families@);
        assert(first_case_fault(s, s.len() as int) is None);
    }
    if families.len() != EXPECTED_FAMILIES {
        return Err(CaseSetError::FamilyShape);
    }
    let mut k: usize = 0;
    while k < families.len()
        invariant
            k <= families@.len(),
            s == cases@,
            s.len() == EXPECTED_CASES,
            first_case_fault(s, 0) is None,
            tally::well_formed(families@),
            tally::tally_map(families@) == tally::tally_of(case_families(s)),
            forall|m: int| 0 <= m < k ==> (#[trigger] families@[m]).1 == CASES_PER_FAMILY,
        decreases families.len() - k,
    {
        if families[k].1 != CASES_PER_FAMILY {
            proof {
                tally::lemma_lookup(families@, k as int);
            }
            return Err(CaseSetError::FamilyShape);
        }
        k = k + 1;
    }
    proof {
        let m = tally::tally_map(families@);
        assert forall|key: Seq<char>| #[trigger] m.contains_key(key) implies m[key] == CASES_PER_FAMILY by {
            let p = choose|p: int| 0 <= p < tally::labels(families@).len() && tally::labels(families@)[p] == key;
            tally::lemma_lookup(families@, p);
        }
    }
    Ok(())
}

// ---------------------------------------------------------------------------
// Validation-only comparison and the raw model arm.
// ---------------------------------------------------------------------------

/// Cases expecting a semantic outcome.
pub open spec fn semantic_expectation() -> spec_fn(ExpectedOutcome) -> bool {
    |e: ExpectedOutcome| e != ExpectedOutcome::OperationalFailure
}

/// Cases expecting a grounded target.
pub open spec fn grounded_expectation() -> spec_fn(ExpectedOutcome) -> bool {
    |e: ExpectedOutcome| e == ExpectedOutcome::Grounded
}

/// Cases expecting the target to stay unknown.
pub open spec fn unknown_expectation() -> spec_fn(ExpectedOutcome) -> bool {
    |e: ExpectedOutcome| e == ExpectedOutcome::Unknown
}

/// The comparison of a run that only validates the case set: every arm
/// scores each semantic case and nothing else.
pub fn validation_comparison(expected: &[ExpectedOutcome]) -> (r: ComparisonAggregate)
    ensures
        r.raw_model == r.harness_without_external_acquisition,
        r.raw_model == r.harness_with_mcp_external_acquisition,
        r.raw_model == (SemanticArmAggregate {
            semantic_cases_scored: counting::count(expected@, semantic_expectation()) as usize,
            expected_grounded_cases_scored: counting::count(expected@, grounded_expectation()) as usize,
            expected_unknown_cases_scored: counting::count(expected@, unknown_expectation()) as usize,
            expected_grounded_targets_exposed: 0,
            expected_unknown_preserved: 0,
            false_target_abstention: 0,
            unsupported_grounded_claims: 0,
            missed_target_insufficiency: 0,
        }),
{
    let ghost s = expected@;
    let mut semantic: usize = 0;
    let mut grounded: usize = 0;
    let mut unknown: usize = 0;
    let mut i: usize = 0;
    while i < expected.len()
        invariant
            s == expected@,
            i <= s.len(),
            semantic == counting::count(s.subrange(0, i as int), semantic_expectation()),
            grounded == counting::count(s.subrange(0, i as int), grounded_expectation()),
            unknown == counting::count(s.subrange(0, i as int), unknown_expectation()),
        decreases s.len() - i,
    {
        proof {
            counting::lemma_count_prefix(s, semantic_expectation(), i as int);
            counting::lemma_count_prefix(s, grounded_expectation(), i as int);
            counting::lemma_count_prefix(s, unknown_expectation(), i as int);
        }
        match expected[i] {
            ExpectedOutcome::Grounded => {
                semantic = semantic + 1;
                grounded = grounded + 1;
            },
            ExpectedOutcome::Unknown => {
                semantic = semantic + 1;
                unknown = unknown + 1;
            },
            ExpectedOutcome::OperationalFailure => {},
        }
        i = i + 1;
    }
    proof {
        counting::lemma_full_prefix(s);
    }
    let arm = SemanticArmAggregate {
        semantic_cases_scored: semantic,
        expected_grounded_cases_scored: grounded,
        expected_unknown_cases_scored: unknown,
        expected_grounded_targets_exposed: 0,
        expected_unknown_preserved: 0,
        false_target_abstention: 0,
        unsupported_grounded_claims: 0,
        missed_target_insufficiency: 0,
    };
    ComparisonAggregate {
        raw_model: arm,
        harness_without_external_acquisition: arm,
        harness_with_mcp_external_acquisition: arm,
    }
}

/// What the raw model's answer shows of the target: whether it states the
/// target, whether it grounds it, how many factual claims it makes, how many
/// of them it grounds without support, and whether it abstained.
#[derive(Debug, Clone, Copy, PartialEq, Eq, Structural)]
pub struct RawArm {
    pub exact_target_exposed: bool,
    pub exact_target_grounded_claim: bool,
    pub factual_claims: usize,
    pub unsupported_grounded_claims: usize,
    pub abstained: bool,
}

/// Claims made as grounded.
pub open spec fn grounded_claim() -> spec_fn(AnswerClaim) -> bool {
    |c: AnswerClaim| c.mode == ClaimMode::Grounded
}

/// The raw model arm of an answer: nothing the raw model grounds is
/// supported, and an answer without factual claims abstains.
pub fn raw_metrics(claims: &Vec<AnswerClaim>, target: &Proposition) -> (r: RawArm)
    ensures
        r.exact_target_exposed == exists|i: int| 0 <= i < claims@.len() && (#[trigger] claims@[i]).proposition@ == target@,
        r.exact_target_grounded_claim == exists|i: int| 0 <= i < claims@.len() && (#[trigger] claims@[i]).proposition@
            == target@ && claims@[i].mode == ClaimMode::Grounded,
        r.factual_claims == claims@.len(),
        r.unsupported_grounded_claims == counting::count(claims@, grounded_claim()),
        r.abstained == (claims@.len() == 0),
{
    let ghost s = claims@;
    let mut exposed = false;
    let mut grounded_target = false;
    let mut grounded: usize = 0;
    let mut i: usize = 0;
    while i < claims.len()
        invariant
            s == claims@,
            i <= s.len(),
            exposed == exists|j: int| 0 <= j < i && (#[trigger] s[j]).proposition@ == target@,
            grounded_target == exists|j: int| 0 <= j < i && (#[trigger] s[j]).proposition@ == target@
                && s[j].mode == ClaimMode::Grounded,
            grounded == counting::count(s.subrange(0, i as int), grounded_claim()),
        decreases s.len() - i,
    {
        proof {
            counting::lemma_count_prefix(s, grounded_claim(), i as int);
        }
        let c = &claims[i];
        let is_target = c.proposition.same_as(target);
        let is_grounded = c.mode == ClaimMode::Grounded;
        if is_target {
            exposed = true;
            if is_grounded {
                grounded_target = true;
            }
        }
        if is_grounded {
            grounded = grounded + 1;
        }
        i = i + 1;
    }
    proof {
        counting::lemma_full_prefix(s);
    }
    RawArm {
        exact_target_exposed: exposed,
        exact_target_grounded_claim: grounded_target,
        factual_claims: claims.len(),
        unsupported_grounded_claims: grounded,
        abstained: claims.len() == 0,
    }
}

} // verus!
