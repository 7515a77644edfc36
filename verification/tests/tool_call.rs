use reasoning_harness_cli::identity_gate::StopReason;
use reasoning_harness_cli::tool_call::{decode_search_state, decode_tool_response, SearchStateSource, ToolFailure};

#[test]
fn unparsable_output_is_a_protocol_failure_without_requests() {
    let r = decode_tool_response(b"not json");
    assert_eq!(r.unwrap_err(), ToolFailure { kind: StopReason::ToolProtocolFailure, external_requests: 0 });
}

#[test]
fn transport_error_keeps_its_reported_requests() {
    let out = br#"{"error":{"code":-32000,"data":{"reasoning_harness":{"operational_kind":"transport","external_requests":3}}}}"#;
    let r = decode_tool_response(out);
    assert_eq!(r.unwrap_err(), ToolFailure { kind: StopReason::ToolTransportFailure, external_requests: 3 });
}

#[test]
fn other_error_is_a_protocol_failure_and_missing_requests_count_zero() {
    let out = br#"{"error":{"code":-32000,"data":{"reasoning_harness":{"operational_kind":"upstream_http"}}}}"#;
    let r = decode_tool_response(out);
    assert_eq!(r.unwrap_err(), ToolFailure { kind: StopReason::ToolProtocolFailure, external_requests: 0 });
    let bare = br#"{"error":{"code":-32600,"message":"bad request"}}"#;
    assert_eq!(
        decode_tool_response(bare).unwrap_err(),
        ToolFailure { kind: StopReason::ToolProtocolFailure, external_requests: 0 }
    );
}

#[test]
fn reply_without_harness_part_is_a_protocol_failure() {
    let out = br#"{"result":{"structuredContent":{"search_state":{}}}}"#;
    assert_eq!(
        decode_tool_response(out).unwrap_err(),
        ToolFailure { kind: StopReason::ToolProtocolFailure, external_requests: 0 }
    );
}

#[test]
fn harness_reply_gives_observation_facts_and_state() {
    let out = br#"{"result":{"structuredContent":{"reasoning_harness":{"observation":"found it","facts":{"zeta.fact":"Q2","alpha.fact":"Q9"},"search_state":{"outcome_kind":"fact_resolved","corroboration_rank":1,"direct_wikibase_verified":true,"resolved_entity":"Q9","wikipedia_candidates":[{"title":"Alpha","wikibase_item":"Q9","disambiguation":false},{"title":"Other"}]}}}}}"#;
    let r = decode_tool_response(out).unwrap();
    assert_eq!(r.observation, "found it");
    assert_eq!(
        r.facts,
        vec![("alpha.fact".to_string(), "Q9".to_string()), ("zeta.fact".to_string(), "Q2".to_string())]
    );
    assert_eq!(r.search_state_source, SearchStateSource::Harness);
    let s = r.search_state;
    assert!(s.is_object);
    assert_eq!(s.outcome_kind.as_deref(), Some("fact_resolved"));
    assert_eq!(s.corroboration_rank, Some(1));
    assert_eq!(s.direct_wikibase_verified, Some(true));
    assert_eq!(s.resolved_entity.as_deref(), Some("Q9"));
    assert_eq!(s.suggested_query, None);
    let top = s.wikipedia_top.unwrap();
    assert_eq!(top.title.as_deref(), Some("Alpha"));
    assert_eq!(top.wikibase_item.as_deref(), Some("Q9"));
    assert_eq!(top.disambiguation, Some(false));
}

#[test]
fn search_state_falls_back_to_structured_content() {
    let out = br#"{"result":{"structuredContent":{"reasoning_harness":{},"search_state":{"suggested_query":"Alpha, Region"}}}}"#;
    let r = decode_tool_response(out).unwrap();
    assert_eq!(r.observation, "");
    assert!(r.facts.is_empty());
    assert_eq!(r.search_state_source, SearchStateSource::StructuredContent);
    assert_eq!(r.search_state.suggested_query.as_deref(), Some("Alpha, Region"));
}

#[test]
fn absent_search_state_is_an_empty_object() {
    let out = br#"{"result":{"structuredContent":{"reasoning_harness":{"observation":"none","facts":["not","an","object"]}}}}"#;
    let r = decode_tool_response(out).unwrap();
    assert_eq!(r.observation, "none");
    assert!(r.facts.is_empty());
    assert_eq!(r.search_state_source, SearchStateSource::Absent);
    assert!(r.search_state.is_object);
    assert_eq!(r.search_state.outcome_kind, None);
    assert!(r.search_state.wikipedia_top.is_none());
}

#[test]
fn non_object_search_state_is_reported_as_such() {
    let out = br#"{"result":{"structuredContent":{"reasoning_harness":{"search_state":"broken"}}}}"#;
    let r = decode_tool_response(out).unwrap();
    assert_eq!(r.search_state_source, SearchStateSource::Harness);
    assert!(!r.search_state.is_object);
    assert_eq!(r.search_state.outcome_kind, None);
}

#[test]
fn empty_candidate_list_gives_no_top_candidate() {
    let state = decode_search_state(br#"{"s":{"wikipedia_candidates":[],"corroboration_mode":"direct"}}"#, "/s");
    assert!(state.is_object);
    assert!(state.wikipedia_top.is_none());
    assert_eq!(state.corroboration_mode.as_deref(), Some("direct"));
}
