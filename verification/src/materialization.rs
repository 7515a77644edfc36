//! The materialization study: which arm runs first for each fixture and trial,
//! and the classes given to its provider failures.
use vstd::prelude::*;
use crate::failures;
use crate::failures::{failure_class, JudgeFailure};

verus! {

/// Providers the study can run against.
#[derive(Debug, Clone, Copy, PartialEq, Eq, Structural)]
pub enum Provider {
    Mistral,
    Google,
}

/// The two arms compared by the study.
#[derive(Debug, Clone, Copy, PartialEq, Eq, Structural)]
pub enum StudyArm {
    V3FullJson,
    HarnessMaterializedDecision,
}

impl StudyArm {
    /// Both arms, baseline first.
    pub fn all() -> (r: [StudyArm; 2])
        ensures
            r@ == seq![StudyArm::V3FullJson, StudyArm::HarnessMaterializedDecision],
    {
        [StudyArm::V3FullJson, StudyArm::HarnessMaterializedDecision]
    }
}

/// The arm order of a fixture and trial: baseline first when the fixture
/// index plus the trial is even, materialized first otherwise.
pub open spec fn arm_order(fixture_index: int, trial: int) -> Seq<StudyArm> {
    if (fixture_index + trial) % 2 == 0 {
        seq![StudyArm::V3FullJson, StudyArm::HarnessMaterializedDecision]
    } else {
        seq![StudyArm::HarnessMaterializedDecision, StudyArm::V3FullJson]
    }
}

/// The order in which the arms run for a fixture and trial.
pub fn counterbalanced_arm_order(fixture_index: usize, trial: usize) -> (r: [StudyArm; 2])
    requires
        fixture_index + trial <= usize::MAX,
    ensures
        r@ == arm_order(fixture_index as int, trial as int),
{
    if (fixture_index + trial) % 2 == 0 {
        StudyArm::all()
    } else {
        [StudyArm::HarnessMaterializedDecision, StudyArm::V3FullJson]
    }
}

/// Each order runs both arms once, and the next fixture or the next trial
/// swaps which arm goes first.
pub proof fn arm_orders_alternate(fixture_index: int, trial: int)
    requires
        fixture_index >= 0,
        trial >= 0,
    ensures
        arm_order(fixture_index, trial).len() == 2,
        arm_order(fixture_index, trial)[0] != arm_order(fixture_index, trial)[1],
        arm_order(fixture_index + 1, trial)[0] != arm_order(fixture_index, trial)[0],
        arm_order(fixture_index, trial + 1)[0] != arm_order(fixture_index, trial)[0],
{
}

/// How the provider enforces the judge's JSON shape.
pub open spec fn enforcement_class_spec(provider: Provider) -> Seq<char> {
    match provider {
        Provider::Mistral => "strict_json_schema"@,
        Provider::Google => "response_json_schema"@,
    }
}

/// How the provider enforces the judge's JSON shape.
pub fn effective_enforcement_class(provider: Provider) -> (r: &'static str)
    ensures
        r@ == enforcement_class_spec(provider),
{
    match provider {
        Provider::Mistral => "strict_json_schema",
        Provider::Google => "response_json_schema",
    }
}

/// The lowercase name of a provider.
pub fn provider_name(provider: Provider) -> (r: &'static str)
    ensures
        r@ == (match provider {
            Provider::Mistral => "mistral"@,
            Provider::Google => "google"@,
        }),
{
    match provider {
        Provider::Mistral => "mistral",
        Provider::Google => "google",
    }
}

/// The class of a failed full-JSON baseline call.
pub fn format_failure_class(error: &JudgeFailure) -> (r: &'static str)
    ensures
        r@ == failures::judge_failure_class_spec(*error, "representation_protocol"@),
{
    failure_class(error, "representation_protocol")
}

/// The class of a failed materialized-decision call.
pub fn materialization_failure_class(error: &JudgeFailure) -> (r: &'static str)
    ensures
        r@ == failures::judge_failure_class_spec(*error, "materialization_protocol"@),
{
    failure_class(error, "materialization_protocol")
}

} // verus!
