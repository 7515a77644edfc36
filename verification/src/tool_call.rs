//! The knowledge-search tool's reply to one `tools/call`: a failure classed by
//! the tool's own report, or the harness part of the structured content with
//! its observation, facts and search state.
use vstd::prelude::*;
use crate::identity_gate;
use crate::identity_gate::{SearchState, StopReason, WikipediaCandidate};
use crate::json;
use crate::json::{
    json_array_length_at, json_boolean_at, json_has_value, json_is_object, json_string_at, json_string_map,
    json_unsigned_at, pointer_to,
};

verus! {

/// Why a tool call failed, and the external requests it reported.
#[derive(Debug, Clone, Copy, PartialEq, Eq, Structural)]
pub struct ToolFailure {
    pub kind: StopReason,
    pub external_requests: usize,
}

/// Where the search state of a reply was found.
#[derive(Debug, Clone, Copy, PartialEq, Eq, Structural)]
pub enum SearchStateSource {
    /// In the harness part of the structured content.
    Harness,
    /// Beside it, in the structured content.
    StructuredContent,
    /// Nowhere: an empty object stands in.
    Absent,
}

/// A successful reply: the observation text, the facts, and the search state.
#[derive(Debug)]
pub struct ToolResponse {
    pub observation: String,
    pub facts: Vec<(String, String)>,
    pub search_state_source: SearchStateSource,
    pub search_state: SearchState,
}

/// A search state with no field: the empty object.
pub open spec fn empty_state(s: SearchState) -> bool {
    &&& s.is_object
    &&& s.outcome_kind is None
    &&& s.suggested_query is None
    &&& s.suggested_query_origin is None
    &&& s.resolved_entity is None
    &&& s.corroboration_rank is None
    &&& s.corroboration_mode is None
    &&& s.direct_wikibase_verified is None
    &&& s.corroboration_entity_label is None
    &&& s.corroboration_entity_description is None
    &&& s.wikipedia_top is None
}

/// The search state read from the value at `base` in `b`: each field where it
/// holds a value of its type, and the first Wikipedia candidate when the
/// candidates are a non-empty array.
pub open spec fn state_decoded(b: Seq<u8>, base: Seq<char>, s: SearchState) -> bool {
    &&& s.is_object == json::json_object_at(b, base)
    &&& identity_gate::opt_string(s.outcome_kind) == json::json_str_at(b, base + "/outcome_kind"@)
    &&& identity_gate::opt_string(s.suggested_query) == json::json_str_at(b, base + "/suggested_query"@)
    &&& identity_gate::opt_string(s.suggested_query_origin) == json::json_str_at(b, base + "/suggested_query_origin"@)
    &&& identity_gate::opt_string(s.resolved_entity) == json::json_str_at(b, base + "/resolved_entity"@)
    &&& s.corroboration_rank == json::json_u64_at(b, base + "/corroboration_rank"@)
    &&& identity_gate::opt_string(s.corroboration_mode) == json::json_str_at(b, base + "/corroboration_mode"@)
    &&& s.direct_wikibase_verified == json::json_bool_at(b, base + "/direct_wikibase_verified"@)
    &&& identity_gate::opt_string(s.corroboration_entity_label) == json::json_str_at(b, base + "/corroboration_entity_label"@)
    &&& identity_gate::opt_string(s.corroboration_entity_description) == json::json_str_at(b, base + "/corroboration_entity_description"@)
    &&& match json::json_array_len_at(b, base + "/wikipedia_candidates"@) {
        Some(n) if n > 0 => match s.wikipedia_top {
            Some(t) => {
                &&& identity_gate::opt_string(t.title) == json::json_str_at(b, base + "/wikipedia_candidates/0/title"@)
                &&& identity_gate::opt_string(t.wikibase_item) == json::json_str_at(b, base + "/wikipedia_candidates/0/wikibase_item"@)
                &&& t.disambiguation == json::json_bool_at(b, base + "/wikipedia_candidates/0/disambiguation"@)
            },
            None => false,
        },
        _ => s.wikipedia_top is None,
    }
}

/// Reads the search state at `base` in the reply.
pub fn decode_search_state(bytes: &[u8], base: &str) -> (s: SearchState)
    ensures
        state_decoded(bytes@, base@, s),
{
    let candidates = json_array_length_at(bytes, pointer_to(base, "/wikipedia_candidates").as_str());
    let wikipedia_top = match candidates {
        Some(n) if n > 0 => Some(WikipediaCandidate {
            title: json_string_at(bytes, pointer_to(base, "/wikipedia_candidates/0/title").as_str()),
            wikibase_item: json_string_at(bytes, pointer_to(base, "/wikipedia_candidates/0/wikibase_item").as_str()),
            disambiguation: json_boolean_at(bytes, pointer_to(base, "/wikipedia_candidates/0/disambiguation").as_str()),
        }),
        _ => None,
    };
    SearchState {
        is_object: json_is_object(bytes, base),
        outcome_kind: json_string_at(bytes, pointer_to(base, "/outcome_kind").as_str()),
        suggested_query: json_string_at(bytes, pointer_to(base, "/suggested_query").as_str()),
        suggested_query_origin: json_string_at(bytes, pointer_to(base, "/suggested_query_origin").as_str()),
        resolved_entity: json_string_at(bytes, pointer_to(base, "/resolved_entity").as_str()),
        corroboration_rank: json_unsigned_at(bytes, pointer_to(base, "/corroboration_rank").as_str()),
        corroboration_mode: json_string_at(bytes, pointer_to(base, "/corroboration_mode").as_str()),
        direct_wikibase_verified: json_boolean_at(bytes, pointer_to(base, "/direct_wikibase_verified").as_str()),
        corroboration_entity_label: json_string_at(bytes, pointer_to(base, "/corroboration_entity_label").as_str()),
        corroboration_entity_description: json_string_at(
            bytes,
            pointer_to(base, "/corroboration_entity_description").as_str(),
        ),
        wikipedia_top,
    }
}

/// The failure a reply reports: a transport failure when the tool's
/// operational kind says so, a protocol failure otherwise, with the external
/// requests it reports, none when it reports none.
pub open spec fn reported_failure(b: Seq<u8>) -> ToolFailure {
    ToolFailure {
        kind: if json::json_str_at(b, "/error/data/reasoning_harness/operational_kind"@) == Some("transport"@) {
            StopReason::ToolTransportFailure
        } else {
            StopReason::ToolProtocolFailure
        },
        external_requests: match json::json_u64_at(b, "/error/data/reasoning_harness/external_requests"@) {
            Some(n) => n as usize,
            None => 0,
        },
    }
}

/// What a reply means: a protocol failure when it is no JSON or has no harness
/// part, the reported failure when it carries an error, and otherwise the
/// harness part's observation (empty when absent), facts (none when absent or
/// not an object of strings) and search state (from the harness part, else
/// from the structured content, else empty).
pub open spec fn response_holds(b: Seq<u8>, r: Result<ToolResponse, ToolFailure>) -> bool {
    let harness = "/result/structuredContent/reasoning_harness"@;
    if !json::json_has(b, ""@) {
        r == Err::<ToolResponse, ToolFailure>(ToolFailure { kind: StopReason::ToolProtocolFailure, external_requests: 0 })
    } else if json::json_has(b, "/error"@) {
        r == Err::<ToolResponse, ToolFailure>(reported_failure(b))
    } else if !json::json_has(b, harness) {
        r == Err::<ToolResponse, ToolFailure>(ToolFailure { kind: StopReason::ToolProtocolFailure, external_requests: 0 })
    } else {
        match r {
            Ok(t) => {
                &&& t.observation@ == match json::json_str_at(b, "/result/structuredContent/reasoning_harness/observation"@) {
                    Some(o) => o,
                    None => Seq::<char>::empty(),
                }
                &&& t.facts@.map_values(|e: (String, String)| (e.0@, e.1@)) == match json::json_string_map_at(
                    b,
                    "/result/structuredContent/reasoning_harness/facts"@,
                ) {
                    Some(m) => m,
                    None => Seq::<(Seq<char>, Seq<char>)>::empty(),
                }
                &&& if json::json_has(b, "/result/structuredContent/reasoning_harness/search_state"@) {
                    &&& t.search_state_source == SearchStateSource::Harness
                    &&& state_decoded(b, "/result/structuredContent/reasoning_harness/search_state"@, t.search_state)
                } else if json::json_has(b, "/result/structuredContent/search_state"@) {
                    &&& t.search_state_source == SearchStateSource::StructuredContent
                    &&& state_decoded(b, "/result/structuredContent/search_state"@, t.search_state)
                } else {
                    &&& t.search_state_source == SearchStateSource::Absent
                    &&& empty_state(t.search_state)
                }
            },
            Err(_) => false,
        }
    }
}

/// Decodes the tool's reply from the bytes it wrote to standard output.
pub fn decode_tool_response(stdout: &[u8]) -> (r: Result<ToolResponse, ToolFailure>)
    ensures
        response_holds(stdout@, r),
{
    let protocol = ToolFailure { kind: StopReason::ToolProtocolFailure, external_requests: 0 };
    if !json_has_value(stdout, "") {
        return Err(protocol);
    }
    if json_has_value(stdout, "/error") {
        let kind = match json_string_at(stdout, "/error/data/reasoning_harness/operational_kind") {
            Some(k) => if crate::text::str_eq(k.as_str(), "transport") {
                StopReason::ToolTransportFailure
            } else {
                StopReason::ToolProtocolFailure
            },
            None => StopReason::ToolProtocolFailure,
        };
        let external_requests = match json_unsigned_at(stdout, "/error/data/reasoning_harness/external_requests") {
            Some(n) => n as usize,
            None => 0,
        };
        return Err(ToolFailure { kind, external_requests });
    }
    if !json_has_value(stdout, "/result/structuredContent/reasoning_harness") {
        return Err(protocol);
    }
    let observation = match json_string_at(stdout, "/result/structuredContent/reasoning_harness/observation") {
        Some(o) => o,
        None => String::new(),
    };
    let facts = match json_string_map(stdout, "/result/structuredContent/reasoning_harness/facts") {
        Some(f) => f,
        None => Vec::new(),
    };
    let (search_state_source, search_state) = if json_has_value(
        stdout,
        "/result/structuredContent/reasoning_harness/search_state",
    ) {
        (SearchStateSource::Harness, decode_search_state(stdout, "/result/structuredContent/reasoning_harness/search_state"))
    } else if json_has_value(stdout, "/result/structuredContent/search_state") {
        (SearchStateSource::StructuredContent, decode_search_state(stdout, "/result/structuredContent/search_state"))
    } else {
        (SearchStateSource::Absent, SearchState {
            is_object: true,
            outcome_kind: None,
            suggested_query: None,
            suggested_query_origin: None,
            resolved_entity: None,
            corroboration_rank: None,
            corroboration_mode: None,
            direct_wikibase_verified: None,
            corroboration_entity_label: None,
            corroboration_entity_description: None,
            wikipedia_top: None,
        })
    };
    proof {
        assert(facts@.map_values(|e: (String, String)| (e.0@, e.1@)) =~= match json::json_string_map_at(
            stdout@,
            "/result/structuredContent/reasoning_harness/facts"@,
        ) {
            Some(m) => m,
            None => Seq::<(Seq<char>, Seq<char>)>::empty(),
        });
    }
    Ok(ToolResponse { observation, facts, search_state_source, search_state })
}

} // verus!
