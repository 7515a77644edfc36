//! The semantic decidability study's preflight: the source corpus's identities,
//! the resolution of the study manifests against their source fixtures, the
//! per-trial seeds and the checkpoint's status.
use vstd::prelude::*;
use crate::cross_model::CalibrationLabel;
use crate::decidability::{Disposition, StudySurface};
use crate::text;
use crate::text::{starts_with, str_eq, trim_str};

verus! {

/// The identity fields of a source fixture the preflight reads.
#[derive(Debug)]
pub struct SourceIdentity {
    pub id: String,
    pub request_id: String,
    pub recorded_observations: usize,
}

/// Why the source corpus is refused for the holdout surface.
#[derive(Debug, PartialEq, Eq)]
pub enum SourceSurfaceError {
    UnexpectedSourceId(String),
    UnexpectedRequestId(String),
    RecordedObservations(String),
}

/// What is wrong with a holdout source, if anything, in the order checked.
pub open spec fn holdout_source_fault(s: SourceIdentity) -> Option<SourceSurfaceError> {
    if !text::has_prefix(s.id@, "v5h"@) {
        Some(SourceSurfaceError::UnexpectedSourceId(s.id))
    } else if !text::has_prefix(s.request_id@, "holdout-v5-soft-v5h"@) {
        Some(SourceSurfaceError::UnexpectedRequestId(s.request_id))
    } else if s.recorded_observations > 0 {
        Some(SourceSurfaceError::RecordedObservations(s.id))
    } else {
        None
    }
}

/// The fault of the first faulty source from `i` on.
pub open spec fn first_source_fault(sources: Seq<SourceIdentity>, i: int) -> Option<SourceSurfaceError>
    decreases sources.len() - i,
{
    if i < 0 || i >= sources.len() {
        None
    } else if holdout_source_fault(sources[i]) is Some {
        holdout_source_fault(sources[i])
    } else {
        first_source_fault(sources, i + 1)
    }
}

/// Checks the source corpus of a surface: the holdout's sources, in the
/// order given, must carry holdout identities and no recorded observation;
/// the D2 surface has no such requirement.
pub fn validate_source_surface(surface: StudySurface, sources: &Vec<SourceIdentity>) -> (r: Result<(), SourceSurfaceError>)
    ensures
        surface == StudySurface::D2 ==> r is Ok,
        surface == StudySurface::HoldoutV5 ==> (r is Ok <==> first_source_fault(sources@, 0) is None),
        surface == StudySurface::HoldoutV5 ==> (r matches Err(e) ==> first_source_fault(sources@, 0) == Some(e)),
{
    if surface != StudySurface::HoldoutV5 {
        return Ok(());
    }
    let mut i: usize = 0;
    while i < sources.len()
        invariant
            surface == StudySurface::HoldoutV5,
            i <= sources@.len(),
            first_source_fault(sources@, 0) == first_source_fault(sources@, i as int),
        decreases sources.len() - i,
    {
        let s = &sources[i];
        if !starts_with(s.id.as_str(), "v5h") {
            return Err(SourceSurfaceError::UnexpectedSourceId(s.id.clone()));
        }
        if !starts_with(s.request_id.as_str(), "holdout-v5-soft-v5h") {
            return Err(SourceSurfaceError::UnexpectedRequestId(s.request_id.clone()));
        }
        if s.recorded_observations > 0 {
            return Err(SourceSurfaceError::RecordedObservations(s.id.clone()));
        }
        i = i + 1;
    }
    Ok(())
}

/// Whether the string at `i` repeats an earlier one.
pub open spec fn repeats_earlier(ids: Seq<Seq<char>>, i: int) -> bool {
    exists|j: int| 0 <= j < i && #[trigger] ids[j] == ids[i]
}

/// Whether some string repeats an earlier one.
pub open spec fn has_repeat(ids: Seq<Seq<char>>) -> bool {
    exists|i: int| 0 <= i < ids.len() && #[trigger] repeats_earlier(ids, i)
}

/// Whether the string at `i` repeats an earlier one.
fn repeats_at(ids: &Vec<String>, i: usize) -> (r: bool)
    requires
        i < ids.len(),
    ensures
        r == repeats_earlier(ids@.map_values(|s: String| s@), i as int),
{
    let ghost v = ids@.map_values(|s: String| s@);
    let mut j: usize = 0;
    while j < i
        invariant
            i < ids.len(),
            j <= i,
            v == ids@.map_values(|s: String| s@),
            forall|m: int| 0 <= m < j ==> v[m] != v[i as int],
        decreases i - j,
    {
        if str_eq(ids[j].as_str(), ids[i].as_str()) {
            assert(v[j as int] == v[i as int]);
            return true;
        }
        j = j + 1;
    }
    false
}

/// Whether the source fixtures' ids are free of repeats, as indexing them by
/// id requires.
pub fn source_ids_unique(ids: &Vec<String>) -> (r: bool)
    ensures
        r == !has_repeat(ids@.map_values(|s: String| s@)),
{
    let ghost v = ids@.map_values(|s: String| s@);
    let mut i: usize = 0;
    while i < ids.len()
        invariant
            i <= ids.len(),
            v == ids@.map_values(|s: String| s@),
            forall|k: int| 0 <= k < i ==> !#[trigger] repeats_earlier(v, k),
        decreases ids.len() - i,
    {
        if repeats_at(ids, i) {
            return false;
        }
        i = i + 1;
    }
    true
}

/// Whether the source fixture at `i` repeats the id of an earlier one.
fn source_repeats_at(sources: &Vec<SourceFixture>, i: usize) -> (r: bool)
    requires
        i < sources.len(),
    ensures
        r == repeats_earlier(sources@.map_values(|s: SourceFixture| s.id@), i as int),
{
    let ghost v = sources@.map_values(|s: SourceFixture| s.id@);
    let mut j: usize = 0;
    while j < i
        invariant
            i < sources.len(),
            j <= i,
            v == sources@.map_values(|s: SourceFixture| s.id@),
            forall|m: int| 0 <= m < j ==> v[m] != v[i as int],
        decreases i - j,
    {
        if str_eq(sources[j].id.as_str(), sources[i].id.as_str()) {
            assert(v[j as int] == v[i as int]);
            return true;
        }
        j = j + 1;
    }
    false
}

/// Whether the source fixtures' ids are free of repeats.
pub fn source_fixture_ids_unique(sources: &Vec<SourceFixture>) -> (r: bool)
    ensures
        r == !has_repeat(sources@.map_values(|s: SourceFixture| s.id@)),
{
    let ghost v = sources@.map_values(|s: SourceFixture| s.id@);
    let mut i: usize = 0;
    while i < sources.len()
        invariant
            i <= sources.len(),
            v == sources@.map_values(|s: SourceFixture| s.id@),
            forall|k: int| 0 <= k < i ==> !#[trigger] repeats_earlier(v, k),
        decreases sources.len() - i,
    {
        if source_repeats_at(sources, i) {
            return false;
        }
        i = i + 1;
    }
    true
}

// ---------------------------------------------------------------------------
// Manifest resolution.
// ---------------------------------------------------------------------------

/// One variant of a study manifest, with the decidability check's verdict on
/// its artifact: the disposition, or why the check could not be made.
#[derive(Debug)]
pub struct ManifestVariant {
    pub id: String,
    pub expected_disposition: Disposition,
    pub assessed: Result<Disposition, String>,
}

/// One study manifest.
#[derive(Debug)]
pub struct StudyManifest {
    pub id: String,
    pub source_fixture_id: String,
    pub semantic_label: CalibrationLabel,
    pub variants: Vec<ManifestVariant>,
}

/// A source fixture by id and label.
#[derive(Debug)]
pub struct SourceFixture {
    pub id: String,
    pub label: CalibrationLabel,
}

/// Why the study manifests cannot be resolved.
#[derive(Debug, PartialEq, Eq)]
pub enum ResolutionError {
    /// Two source fixtures share an id, so they cannot be indexed by id.
    DuplicateSourceFixtureId,
    /// A holdout manifest id without the holdout prefix.
    HoldoutManifestId(String),
    InvalidOrDuplicateFixtureId(String),
    SourceFixtureReused(String),
    SourceFixtureNotFound(String),
    LabelMismatch(String),
    VariantCount(String),
    /// A blank or repeated variant id: the manifest id, then the variant id.
    InvalidOrDuplicateVariantId(String, String),
    /// The decidability check failed on a variant: the manifest id, the
    /// variant id and the check's message.
    AssessmentFailed(String, String, String),
    /// The check's disposition differs from the variant's expectation.
    DispositionMismatch(String, String),
    /// Not exactly one permit control and at most one forced variant.
    ControlShape(String),
    /// A forced variant on a semantically ambiguous fixture.
    InsufficiencyOnAmbiguous(String),
}

/// The index of the source fixture with id `id`.
pub open spec fn source_index(sources: Seq<SourceFixture>, id: Seq<char>) -> Option<int> {
    if exists|i: int| 0 <= i < sources.len() && (#[trigger] sources[i]).id@ == id {
        Some(choose|i: int| 0 <= i < sources.len() && (#[trigger] sources[i]).id@ == id)
    } else {
        None
    }
}

/// Whether the variant at `k` has a blank id or repeats an earlier one.
pub open spec fn bad_variant_id(vs: Seq<ManifestVariant>, k: int) -> bool {
    text::trim(vs[k].id@).len() == 0 || exists|j: int| 0 <= j < k && (#[trigger] vs[j]).id@ == vs[k].id@
}

/// What is wrong with the variant at `k` of manifest `m`, if anything.
pub open spec fn variant_fault(m: StudyManifest, k: int) -> Option<ResolutionError> {
    let v = m.variants@[k];
    if bad_variant_id(m.variants@, k) {
        Some(ResolutionError::InvalidOrDuplicateVariantId(m.id, v.id))
    } else {
        match v.assessed {
            Err(message) => Some(ResolutionError::AssessmentFailed(m.id, v.id, message)),
            Ok(d) => if d != v.expected_disposition {
                Some(ResolutionError::DispositionMismatch(m.id, v.id))
            } else {
                None
            },
        }
    }
}

/// The fault of the first faulty variant of `m` from `k` on.
pub open spec fn first_variant_fault(m: StudyManifest, k: int) -> Option<ResolutionError>
    decreases m.variants@.len() - k,
{
    if k < 0 || k >= m.variants@.len() {
        None
    } else if variant_fault(m, k) is Some {
        variant_fault(m, k)
    } else {
        first_variant_fault(m, k + 1)
    }
}

/// The number of variants with disposition `d`.
pub open spec fn disposition_count(vs: Seq<ManifestVariant>, d: Disposition) -> nat
    decreases vs.len(),
{
    if vs.len() == 0 {
        0
    } else {
        disposition_count(vs.drop_last(), d) + if vs.last().expected_disposition == d { 1nat } else { 0nat }
    }
}

/// What is wrong with the manifest at `i`, if anything, in the order checked.
pub open spec fn manifest_fault(surface: StudySurface, ms: Seq<StudyManifest>, sources: Seq<SourceFixture>, i: int) -> Option<ResolutionError> {
    let m = ms[i];
    if surface == StudySurface::HoldoutV5 && !text::has_prefix(m.id@, "v5d"@) {
        Some(ResolutionError::HoldoutManifestId(m.id))
    } else if text::trim(m.id@).len() == 0 || exists|j: int| 0 <= j < i && (#[trigger] ms[j]).id@ == m.id@ {
        Some(ResolutionError::InvalidOrDuplicateFixtureId(m.id))
    } else if exists|j: int| 0 <= j < i && (#[trigger] ms[j]).source_fixture_id@ == m.source_fixture_id@ {
        Some(ResolutionError::SourceFixtureReused(m.source_fixture_id))
    } else if source_index(sources, m.source_fixture_id@) is None {
        Some(ResolutionError::SourceFixtureNotFound(m.source_fixture_id))
    } else if sources[source_index(sources, m.source_fixture_id@)->0].label != m.semantic_label {
        Some(ResolutionError::LabelMismatch(m.id))
    } else if m.variants@.len() == 0 || m.variants@.len() > 2 {
        Some(ResolutionError::VariantCount(m.id))
    } else if first_variant_fault(m, 0) is Some {
        first_variant_fault(m, 0)
    } else if disposition_count(m.variants@, Disposition::Permit) != 1 || disposition_count(m.variants@, Disposition::ForceAbstain) > 1 {
        Some(ResolutionError::ControlShape(m.id))
    } else if disposition_count(m.variants@, Disposition::ForceAbstain) == 1 && m.semantic_label == CalibrationLabel::Ambiguous {
        Some(ResolutionError::InsufficiencyOnAmbiguous(m.id))
    } else {
        None
    }
}

/// The fault of the first faulty manifest from `i` on.
pub open spec fn first_manifest_fault(surface: StudySurface, ms: Seq<StudyManifest>, sources: Seq<SourceFixture>, i: int) -> Option<ResolutionError>
    decreases ms.len() - i,
{
    if i < 0 || i >= ms.len() {
        None
    } else if manifest_fault(surface, ms, sources, i) is Some {
        manifest_fault(surface, ms, sources, i)
    } else {
        first_manifest_fault(surface, ms, sources, i + 1)
    }
}

/// Checks the variants of one manifest and counts its permit controls and
/// forced variants.
fn check_variants(m: &StudyManifest) -> (r: Result<(usize, usize), ResolutionError>)
    ensures
        r matches Err(e) ==> first_variant_fault(*m, 0) == Some(e),
        r matches Ok((p, f)) ==> first_variant_fault(*m, 0) is None && p == disposition_count(m.variants@, Disposition::Permit)
            && f == disposition_count(m.variants@, Disposition::ForceAbstain),
{
    let ghost vs = m.variants@;
    let mut permits: usize = 0;
    let mut forced: usize = 0;
    let mut k: usize = 0;
    while k < m.variants.len()
        invariant
            vs == m.variants@,
            k <= vs.len(),
            first_variant_fault(*m, 0) == first_variant_fault(*m, k as int),
            permits == disposition_count(vs.subrange(0, k as int), Disposition::Permit),
            forced == disposition_count(vs.subrange(0, k as int), Disposition::ForceAbstain),
            permits + forced == k,
        decreases vs.len() - k,
    {
        let v = &m.variants[k];
        let blank = trim_str(v.id.as_str()).len() == 0;
        let mut repeated = false;
        let mut j: usize = 0;
        while j < k
            invariant
                vs == m.variants@,
                k < vs.len(),
                j <= k,
                *v == vs[k as int],
                repeated == exists|x: int| 0 <= x < j && (#[trigger] vs[x]).id@ == vs[k as int].id@,
            decreases k - j,
        {
            if str_eq(m.variants[j].id.as_str(), v.id.as_str()) {
                repeated = true;
            }
            j = j + 1;
        }
        if blank || repeated {
            return Err(ResolutionError::InvalidOrDuplicateVariantId(m.id.clone(), v.id.clone()));
        }
        proof {
            assert(vs.subrange(0, k + 1).drop_last() =~= vs.subrange(0, k as int));
        }
        match v.expected_disposition {
            Disposition::Permit => {
                permits = permits + 1;
            },
            Disposition::ForceAbstain => {
                forced = forced + 1;
            },
        }
        match &v.assessed {
            Err(message) => {
                return Err(ResolutionError::AssessmentFailed(m.id.clone(), v.id.clone(), message.clone()));
            },
            Ok(d) => {
                if *d != v.expected_disposition {
                    return Err(ResolutionError::DispositionMismatch(m.id.clone(), v.id.clone()));
                }
            },
        }
        k = k + 1;
    }
    assert(vs.subrange(0, vs.len() as int) =~= vs);
    Ok((permits, forced))
}

/// Finds the source fixture of a manifest.
fn find_source(sources: &Vec<SourceFixture>, id: &String) -> (r: Option<usize>)
    ensures
        r matches Some(i) ==> i < sources@.len() && sources@[i as int].id@ == id@,
        r is None ==> source_index(sources@, id@) is None,
{
    let mut i: usize = 0;
    while i < sources.len()
        invariant
            i <= sources@.len(),
            forall|k: int| 0 <= k < i ==> (#[trigger] sources@[k]).id@ != id@,
        decreases sources.len() - i,
    {
        if sources[i].id == *id {
            return Some(i);
        }
        i = i + 1;
    }
    None
}

/// Resolves the study manifests against the source fixtures, whose ids must be
/// unique (else nothing is resolved): every manifest must carry a fresh, non-blank id (with the holdout
/// prefix on the holdout surface), its own source fixture with the same label,
/// one permit control and at most one forced variant whose decidability
/// checks agree with their expectations, and no forced variant on an
/// ambiguous fixture. The index of each manifest's source fixture is returned.
pub fn resolve_study_fixtures(surface: StudySurface, manifests: &Vec<StudyManifest>, sources: &Vec<SourceFixture>) -> (r: Result<Vec<usize>, ResolutionError>)
    ensures
        has_repeat(sources@.map_values(|s: SourceFixture| s.id@)) ==> r == Err::<Vec<usize>, ResolutionError>(
            ResolutionError::DuplicateSourceFixtureId,
        ),
        !has_repeat(sources@.map_values(|s: SourceFixture| s.id@)) ==> {
            &&& r matches Err(e) ==> first_manifest_fault(surface, manifests@, sources@, 0) == Some(e)
            &&& r matches Ok(v) ==> first_manifest_fault(surface, manifests@, sources@, 0) is None && v@.len()
                == manifests@.len() && forall|i: int| 0 <= i < v@.len() ==> #[trigger] source_index(
                sources@,
                manifests@[i].source_fixture_id@,
            ) == Some(v@[i] as int)
            &&& r is Ok <==> first_manifest_fault(surface, manifests@, sources@, 0) is None
        },
{
    if !source_fixture_ids_unique(sources) {
        return Err(ResolutionError::DuplicateSourceFixtureId);
    }
    let ghost ms = manifests@;
    let ghost ss = sources@;
    let mut picked: Vec<usize> = Vec::new();
    let mut i: usize = 0;
    while i < manifests.len()
        invariant
            ms == manifests@,
            ss == sources@,
            !has_repeat(ss.map_values(|s: SourceFixture| s.id@)),
            i <= ms.len(),
            first_manifest_fault(surface, ms, ss, 0) == first_manifest_fault(surface, ms, ss, i as int),
            picked@.len() == i,
            forall|k: int| 0 <= k < i ==> #[trigger] source_index(ss, ms[k].source_fixture_id@) == Some(picked@[k] as int),
        decreases ms.len() - i,
    {
        let m = &manifests[i];
        if surface == StudySurface::HoldoutV5 && !starts_with(m.id.as_str(), "v5d") {
            return Err(ResolutionError::HoldoutManifestId(m.id.clone()));
        }
        let blank = trim_str(m.id.as_str()).len() == 0;
        let mut id_seen = false;
        let mut source_seen = false;
        let mut j: usize = 0;
        while j < i
            invariant
                ms == manifests@,
                i < ms.len(),
                j <= i,
                *m == ms[i as int],
                id_seen == exists|x: int| 0 <= x < j && (#[trigger] ms[x]).id@ == ms[i as int].id@,
                source_seen == exists|x: int| 0 <= x < j && (#[trigger] ms[x]).source_fixture_id@ == ms[i as int].source_fixture_id@,
            decreases i - j,
        {
            if str_eq(manifests[j].id.as_str(), m.id.as_str()) {
                id_seen = true;
            }
            if str_eq(manifests[j].source_fixture_id.as_str(), m.source_fixture_id.as_str()) {
                source_seen = true;
            }
            j = j + 1;
        }
        if blank || id_seen {
            return Err(ResolutionError::InvalidOrDuplicateFixtureId(m.id.clone()));
        }
        if source_seen {
            return Err(ResolutionError::SourceFixtureReused(m.source_fixture_id.clone()));
        }
        let found = find_source(sources, &m.source_fixture_id);
        let index = match found {
            None => {
                return Err(ResolutionError::SourceFixtureNotFound(m.source_fixture_id.clone()));
            },
            Some(x) => x,
        };
        proof {
            assert(ss[index as int].id@ == m.source_fixture_id@);
            assert(source_index(ss, m.source_fixture_id@) is Some);
            let w = source_index(ss, m.source_fixture_id@)->0;
            assert(ss[w].id@ == m.source_fixture_id@);
            assert(ss[index as int].id@ == m.source_fixture_id@);
            if w != index as int {
                let v = ss.map_values(|s: SourceFixture| s.id@);
                if w < index as int {
                    assert(v[w] == v[index as int]);
                    assert(repeats_earlier(v, index as int));
                } else {
                    assert(v[index as int] == v[w]);
                    assert(repeats_earlier(v, w));
                }
            }
        }
        if sources[index].label != m.semantic_label {
            return Err(ResolutionError::LabelMismatch(m.id.clone()));
        }
        if m.variants.len() == 0 || m.variants.len() > 2 {
            return Err(ResolutionError::VariantCount(m.id.clone()));
        }
        let (permits, forced) = match check_variants(m) {
            Err(e) => {
                return Err(e);
            },
            Ok(counts) => counts,
        };
        if permits != 1 || forced > 1 {
            return Err(ResolutionError::ControlShape(m.id.clone()));
        }
        if forced == 1 && m.semantic_label == CalibrationLabel::Ambiguous {
            return Err(ResolutionError::InsufficiencyOnAmbiguous(m.id.clone()));
        }
        picked.push(index);
        i = i + 1;
    }
    Ok(picked)
}

// ---------------------------------------------------------------------------
// Trials and checkpoints.
// ---------------------------------------------------------------------------

/// The seed of a trial: the base seed advanced by the trial number, none
/// without a base seed or past the largest `u64`.
pub fn trial_seed(seed: Option<u64>, trial: usize) -> (r: Option<u64>)
    ensures
        r == (match seed {
            Some(base) => if base + trial <= u64::MAX { Some((base + trial) as u64) } else { None },
            None => None,
        }),
{
    match seed {
        Some(base) => {
            if trial as u128 > (u64::MAX - base) as u128 {
                None
            } else {
                Some(base + trial as u64)
            }
        },
        None => None,
    }
}

/// Whether a run is still going or has finished.
#[derive(Debug, Clone, Copy, PartialEq, Eq, Structural)]
pub enum CheckpointRunStatus {
    InProgress,
    Completed,
}

/// Whether a checkpoint's cases may be scored.
#[derive(Debug, Clone, Copy, PartialEq, Eq, Structural)]
pub enum CheckpointSemanticStatus {
    PartialDoNotScore,
    OperationallyIncompleteDoNotScore,
    FullStudyComplete,
}

impl CheckpointSemanticStatus {
    /// The report name of the status.
    pub fn as_str(self) -> (r: &'static str)
        ensures
            r@ == (match self {
                CheckpointSemanticStatus::PartialDoNotScore => "partial_do_not_score"@,
                CheckpointSemanticStatus::OperationallyIncompleteDoNotScore => "operationally_incomplete_do_not_score"@,
                CheckpointSemanticStatus::FullStudyComplete => "full_study_complete"@,
            }),
    {
        match self {
            CheckpointSemanticStatus::PartialDoNotScore => "partial_do_not_score",
            CheckpointSemanticStatus::OperationallyIncompleteDoNotScore => "operationally_incomplete_do_not_score",
            CheckpointSemanticStatus::FullStudyComplete => "full_study_complete",
        }
    }
}

/// The progress a checkpoint records.
#[derive(Debug, Clone, Copy, PartialEq, Eq, Structural)]
pub struct CheckpointProgress {
    pub semantic_status: CheckpointSemanticStatus,
    pub started_provider_calls: usize,
    pub completed_provider_calls: usize,
    pub successful_provider_calls: usize,
    pub failed_provider_calls: usize,
}

/// The progress a checkpoint records after `completed` provider calls, of
/// which `successful` decided, with or without one more under way: a run in
/// progress is never scored, and a completed run is scored only when every
/// expected call was made and decided.
pub fn checkpoint_progress(
    run_status: CheckpointRunStatus,
    expected_provider_calls: usize,
    completed: usize,
    successful: usize,
    active_attempt: bool,
) -> (r: CheckpointProgress)
    requires
        successful <= completed,
        completed < usize::MAX,
    ensures
        r.semantic_status == (match run_status {
            CheckpointRunStatus::InProgress => CheckpointSemanticStatus::PartialDoNotScore,
            CheckpointRunStatus::Completed => if completed == expected_provider_calls && successful == expected_provider_calls {
                CheckpointSemanticStatus::FullStudyComplete
            } else {
                CheckpointSemanticStatus::OperationallyIncompleteDoNotScore
            },
        }),
        r.started_provider_calls == completed + (if active_attempt { 1int } else { 0int }),
        r.completed_provider_calls == completed,
        r.successful_provider_calls == successful,
        r.failed_provider_calls == completed - successful,
{
    let semantic_status = match run_status {
        CheckpointRunStatus::InProgress => CheckpointSemanticStatus::PartialDoNotScore,
        CheckpointRunStatus::Completed => {
            if completed == expected_provider_calls && successful == expected_provider_calls {
                CheckpointSemanticStatus::FullStudyComplete
            } else {
                CheckpointSemanticStatus::OperationallyIncompleteDoNotScore
            }
        },
    };
    CheckpointProgress {
        semantic_status,
        started_provider_calls: completed + if active_attempt { 1 } else { 0 },
        completed_provider_calls: completed,
        successful_provider_calls: successful,
        failed_provider_calls: completed - successful,
    }
}

} // verus!
