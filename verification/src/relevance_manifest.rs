//! The evidence-relevance calibration manifest: the bindings a manifest must
//! carry before a run, and the selection of the cases a run covers.
use vstd::prelude::*;
use crate::evidence_relevance::EXPECTED_CASES;
use crate::terms::strings_view;
use crate::text;
use crate::text::{contains_str, str_eq, to_ascii_lowercase, trim_str, chars_of};

verus! {

/// The calibration suite a run must use.
pub const EXPECTED_SUITE_ID: &'static str = "evidence-relevance-calibration-v19";
/// The issue the suite is bound to.
pub const EXPECTED_ISSUE: u64 = 462;
/// The status of an unobserved calibration suite.
pub const EXPECTED_STATUS: &'static str = "fresh_unobserved_calibration";
/// The annotation protocol the suite follows.
pub const EXPECTED_ANNOTATION_PROTOCOL_ID: &'static str = "evidence-relevance-effective-qualification-v19";
/// The fixed core the suite is annotated against.
pub const EXPECTED_FIXED_CORE_ID: &'static str = "evidence-relevance-fixed-core-v1";
/// The fixture directory of the suite, relative to the checkout.
pub const EXPECTED_RELATIVE_DIR: &'static str = "fixtures/evidence-relevance-calibration-v19";
/// The marker of a source rule that admits the production incident.
pub const PRODUCTION_INCIDENT_MARKER: &'static str = "production_incident_included";

/// The text fields of a calibration case that must not be blank.
#[derive(Debug)]
pub struct ManifestCase {
    pub id: String,
    pub family: String,
    pub task: String,
}

/// The bindings of a calibration manifest.
#[derive(Debug)]
pub struct Manifest {
    pub suite_id: String,
    pub issue: u64,
    pub status: String,
    pub source_rule: String,
    pub annotation_protocol_id: String,
    pub fixed_core_id: String,
    pub cases: Vec<ManifestCase>,
}

/// Why a manifest is refused.
#[derive(Debug, PartialEq, Eq)]
pub enum ManifestError {
    UnexpectedSuiteId,
    UnexpectedIssue,
    UnexpectedStatus,
    UnexpectedAnnotationProtocol,
    UnexpectedFixedCore,
    UnexpectedCaseCount,
    ProductionIncidentIncluded,
    BlankCaseField,
    DuplicateCaseId(String),
}

/// A case with a blank id, family or task.
pub open spec fn blank_case(c: ManifestCase) -> bool {
    text::trim(c.id@).len() == 0 || text::trim(c.family@).len() == 0 || text::trim(c.task@).len() == 0
}

/// Whether the case at `i` repeats the id of an earlier case.
pub open spec fn repeats_earlier_id(cases: Seq<ManifestCase>, i: int) -> bool {
    exists|j: int| 0 <= j < i && (#[trigger] cases[j]).id@ == cases[i].id@
}

/// The first case, from `i` on, that is blank or repeats an earlier id.
pub open spec fn first_bad_case(cases: Seq<ManifestCase>, i: int) -> Option<int>
    decreases cases.len() - i,
{
    if i < 0 || i >= cases.len() {
        None
    } else if blank_case(cases[i]) || repeats_earlier_id(cases, i) {
        Some(i)
    } else {
        first_bad_case(cases, i + 1)
    }
}

/// The first check a manifest fails, in the order they are made; `None`
/// when it passes them all.
pub open spec fn manifest_fault(m: Manifest) -> Option<ManifestError> {
    if m.suite_id@ != EXPECTED_SUITE_ID@ {
        Some(ManifestError::UnexpectedSuiteId)
    } else if m.issue != EXPECTED_ISSUE {
        Some(ManifestError::UnexpectedIssue)
    } else if m.status@ != EXPECTED_STATUS@ {
        Some(ManifestError::UnexpectedStatus)
    } else if m.annotation_protocol_id@ != EXPECTED_ANNOTATION_PROTOCOL_ID@ {
        Some(ManifestError::UnexpectedAnnotationProtocol)
    } else if m.fixed_core_id@ != EXPECTED_FIXED_CORE_ID@ {
        Some(ManifestError::UnexpectedFixedCore)
    } else if m.cases@.len() != EXPECTED_CASES {
        Some(ManifestError::UnexpectedCaseCount)
    } else if text::contains_seq(text::ascii_lowercase(m.source_rule@), PRODUCTION_INCIDENT_MARKER@) {
        Some(ManifestError::ProductionIncidentIncluded)
    } else {
        match first_bad_case(m.cases@, 0) {
            None => None,
            Some(i) => if blank_case(m.cases@[i]) {
                Some(ManifestError::BlankCaseField)
            } else {
                Some(ManifestError::DuplicateCaseId(m.cases@[i].id))
            },
        }
    }
}

/// Whether `s` is blank once trimmed.
fn is_blank(s: &String) -> (r: bool)
    ensures
        r == (text::trim(s@).len() == 0),
{
    trim_str(s.as_str()).len() == 0
}

/// Whether the case at `i` repeats the id of an earlier case.
fn repeats_id(cases: &Vec<ManifestCase>, i: usize) -> (r: bool)
    requires
        i < cases.len(),
    ensures
        r == repeats_earlier_id(cases@, i as int),
{
    let mut j: usize = 0;
    while j < i
        invariant
            i < cases.len(),
            j <= i,
            forall|k: int| 0 <= k < j ==> (#[trigger] cases@[k]).id@ != cases@[i as int].id@,
        decreases i - j,
    {
        if str_eq(cases[j].id.as_str(), cases[i].id.as_str()) {
            return true;
        }
        j = j + 1;
    }
    false
}

/// Checks the bindings of a calibration manifest.
pub fn validate_manifest(m: &Manifest) -> (r: Result<(), ManifestError>)
    ensures
        r matches Ok(_) <==> manifest_fault(*m) is None,
        r matches Err(e) ==> manifest_fault(*m) == Some(e),
{
    if !str_eq(m.suite_id.as_str(), EXPECTED_SUITE_ID) {
        return Err(ManifestError::UnexpectedSuiteId);
    }
    if m.issue != EXPECTED_ISSUE {
        return Err(ManifestError::UnexpectedIssue);
    }
    if !str_eq(m.status.as_str(), EXPECTED_STATUS) {
        return Err(ManifestError::UnexpectedStatus);
    }
    if !str_eq(m.annotation_protocol_id.as_str(), EXPECTED_ANNOTATION_PROTOCOL_ID) {
        return Err(ManifestError::UnexpectedAnnotationProtocol);
    }
    if !str_eq(m.fixed_core_id.as_str(), EXPECTED_FIXED_CORE_ID) {
        return Err(ManifestError::UnexpectedFixedCore);
    }
    if m.cases.len() != EXPECTED_CASES {
        return Err(ManifestError::UnexpectedCaseCount);
    }
    let rule = to_ascii_lowercase(&chars_of(m.source_rule.as_str()));
    if contains_str(&rule, PRODUCTION_INCIDENT_MARKER) {
        return Err(ManifestError::ProductionIncidentIncluded);
    }
    let mut i: usize = 0;
    while i < m.cases.len()
        invariant
            i <= m.cases@.len(),
            m.suite_id@ == EXPECTED_SUITE_ID@,
            m.issue == EXPECTED_ISSUE,
            m.status@ == EXPECTED_STATUS@,
            m.annotation_protocol_id@ == EXPECTED_ANNOTATION_PROTOCOL_ID@,
            m.fixed_core_id@ == EXPECTED_FIXED_CORE_ID@,
            m.cases@.len() == EXPECTED_CASES,
            !text::contains_seq(text::ascii_lowercase(m.source_rule@), PRODUCTION_INCIDENT_MARKER@),
            first_bad_case(m.cases@, 0) == first_bad_case(m.cases@, i as int),
        decreases m.cases.len() - i,
    {
        let c = &m.cases[i];
        if is_blank(&c.id) || is_blank(&c.family) || is_blank(&c.task) {
            return Err(ManifestError::BlankCaseField);
        }
        if repeats_id(&m.cases, i) {
            return Err(ManifestError::DuplicateCaseId(c.id.clone()));
        }
        i = i + 1;
    }
    Ok(())
}

/// Why a fixture selection is refused.
#[derive(Debug, PartialEq, Eq)]
pub enum SelectionError {
    UnknownFixture(String),
    DuplicateFixture(String),
}

/// The first index whose id is `id`.
#[verifier::opaque]
pub open spec fn first_with_id(ids: Seq<Seq<char>>, id: Seq<char>) -> Option<int> {
    if ids.contains(id) {
        Some(choose|i: int| 0 <= i < ids.len() && ids[i] == id && forall|k: int| 0 <= k < i ==> ids[k] != id)
    } else {
        None
    }
}

/// The cases a run covers, by index: every case when no fixture is named,
/// otherwise the case of each named fixture in turn. `Err((true, id))` names
/// the first unknown fixture, `Err((false, id))` the first one named twice.
pub open spec fn selection(ids: Seq<Seq<char>>, fixtures: Seq<Seq<char>>) -> Result<Seq<int>, (bool, Seq<char>)>
    decreases fixtures.len(),
{
    if fixtures.len() == 0 {
        Ok(Seq::empty())
    } else {
        match selection(ids, fixtures.drop_last()) {
            Err(e) => Err(e),
            Ok(chosen) => {
                let f = fixtures.last();
                match first_with_id(ids, f) {
                    None => Err((true, f)),
                    Some(i) => if fixtures.drop_last().contains(f) {
                        Err((false, f))
                    } else {
                        Ok(chosen.push(i))
                    },
                }
            },
        }
    }
}

/// The indices of `v`, as integers.
pub open spec fn indices(v: Seq<usize>) -> Seq<int> {
    v.map_values(|i: usize| i as int)
}

/// The first index of the case with id `id`.
fn find_case(case_ids: &Vec<String>, id: &String) -> (r: Option<usize>)
    ensures
        r matches Some(i) ==> first_with_id(strings_view(case_ids@), id@) == Some(i as int),
        r is None ==> first_with_id(strings_view(case_ids@), id@) is None,
{
    let ghost ids = strings_view(case_ids@);
    proof {
        reveal(first_with_id);
    }
    let mut i: usize = 0;
    while i < case_ids.len()
        invariant
            i <= case_ids.len(),
            ids == strings_view(case_ids@),
            forall|k: int| 0 <= k < i ==> ids[k] != id@,
        decreases case_ids.len() - i,
    {
        if case_ids[i] == *id {
            proof {
                reveal(first_with_id);
                assert(ids[i as int] == id@);
                assert(ids.contains(id@));
                let w = choose|w: int| 0 <= w < ids.len() && ids[w] == id@ && forall|k: int| 0 <= k < w ==> ids[k] != id@;
                if w < i {
                } else if w > i {
                    assert(ids[i as int] != id@);
                }
            }
            return Some(i);
        }
        i = i + 1;
    }
    proof {
        if ids.contains(id@) {
            let k = choose|k: int| 0 <= k < ids.len() && ids[k] == id@;
            assert(ids[k] != id@);
        }
    }
    None
}

/// Selects the cases a run covers, by index into the manifest's cases.
pub fn select_cases(case_ids: &Vec<String>, fixture_ids: &Vec<String>) -> (r: Result<Vec<usize>, SelectionError>)
    ensures
        fixture_ids.len() == 0 ==> (r matches Ok(v) && v@.len() == case_ids.len() && forall|i: int|
            0 <= i < v@.len() ==> v@[i] == i),
        fixture_ids.len() > 0 ==> match r {
            Ok(v) => selection(strings_view(case_ids@), strings_view(fixture_ids@)) == Ok::<Seq<int>, (bool, Seq<char>)>(indices(v@)),
            Err(SelectionError::UnknownFixture(id)) => selection(strings_view(case_ids@), strings_view(fixture_ids@)) == Err::<Seq<int>, (bool, Seq<char>)>((true, id@)),
            Err(SelectionError::DuplicateFixture(id)) => selection(strings_view(case_ids@), strings_view(fixture_ids@)) == Err::<Seq<int>, (bool, Seq<char>)>((false, id@)),
        },
{
    let ghost ids = strings_view(case_ids@);
    let ghost fixtures = strings_view(fixture_ids@);
    let mut chosen: Vec<usize> = Vec::new();
    if fixture_ids.len() == 0 {
        let mut i: usize = 0;
        while i < case_ids.len()
            invariant
                i <= case_ids.len(),
                chosen@.len() == i,
                forall|k: int| 0 <= k < i ==> chosen@[k] == k,
            decreases case_ids.len() - i,
        {
            chosen.push(i);
            i = i + 1;
        }
        return Ok(chosen);
    }
    proof {
        assert(fixtures.subrange(0, 0) =~= Seq::<Seq<char>>::empty());
        assert(indices(chosen@) =~= Seq::<int>::empty());
    }
    let mut n: usize = 0;
    while n < fixture_ids.len()
        invariant
            n <= fixture_ids.len(),
            ids == strings_view(case_ids@),
            fixtures == strings_view(fixture_ids@),
            selection(ids, fixtures.subrange(0, n as int)) == Ok::<Seq<int>, (bool, Seq<char>)>(indices(chosen@)),
        decreases fixture_ids.len() - n,
    {
        let id = &fixture_ids[n];
        let ghost before = fixtures.subrange(0, n as int);
        proof {
            assert(fixtures.subrange(0, n + 1).drop_last() =~= before);
            assert(fixtures.subrange(0, n + 1).last() == id@);
        }
        let found = find_case(case_ids, id);
        match found {
            None => {
                proof {
                    lemma_selection_fault_stays(ids, fixtures, n + 1);
                }
                return Err(SelectionError::UnknownFixture(id.clone()));
            },
            Some(i) => {
                let mut seen = false;
                let mut k: usize = 0;
                while k < n
                    invariant
                        k <= n,
                        n < fixture_ids.len(),
                        fixtures == strings_view(fixture_ids@),
                        *id == fixture_ids@[n as int],
                        seen == exists|m: int| 0 <= m < k && fixtures[m] == id@,
                    decreases n - k,
                {
                    if fixture_ids[k] == *id {
                        assert(fixtures[k as int] == id@);
                        seen = true;
                    }
                    k = k + 1;
                }
                proof {
                    if seen {
                        let m = choose|m: int| 0 <= m < n && fixtures[m] == id@;
                        assert(before[m] == id@);
                    }
                    if before.contains(id@) {
                        let m = choose|m: int| 0 <= m < before.len() && before[m] == id@;
                        assert(fixtures[m] == id@);
                    }
                }
                if seen {
                    proof {
                        lemma_selection_fault_stays(ids, fixtures, n + 1);
                    }
                    return Err(SelectionError::DuplicateFixture(id.clone()));
                }
                let ghost old_chosen = chosen@;
                chosen.push(i);
                proof {
                    assert(indices(chosen@) =~= indices(old_chosen).push(i as int));
                    assert(!before.contains(id@));
                    assert(first_with_id(ids, id@) == Some(i as int));
                    assert(selection(ids, before) == Ok::<Seq<int>, (bool, Seq<char>)>(indices(old_chosen)));
                    assert(selection(ids, fixtures.subrange(0, n + 1)) == Ok::<Seq<int>, (bool, Seq<char>)>(indices(chosen@)));
                }
            },
        }
        n = n + 1;
    }
    proof {
        assert(fixtures.subrange(0, fixtures.len() as int) =~= fixtures);
    }
    Ok(chosen)
}

/// Once a prefix of the fixtures is refused, every longer one is refused
/// with the same fault.
proof fn lemma_selection_fault_stays(ids: Seq<Seq<char>>, fixtures: Seq<Seq<char>>, n: int)
    requires
        0 <= n <= fixtures.len(),
        selection(ids, fixtures.subrange(0, n)) is Err,
    ensures
        selection(ids, fixtures) == selection(ids, fixtures.subrange(0, n)),
    decreases fixtures.len() - n,
{
    if n < fixtures.len() {
        let a = fixtures.subrange(0, n);
        let b = fixtures.subrange(0, n + 1);
        assert(b.drop_last() =~= a);
        assert(selection(ids, b) == selection(ids, a));
        lemma_selection_fault_stays(ids, fixtures, n + 1);
    } else {
        assert(fixtures.subrange(0, n) =~= fixtures);
    }
}

} // verus!
