use reasoning_harness_cli::identity_gate::{
    canonical_identity_context_query, dev_cases, grounded_identity_context_search,
    identity_context_progress_item, is_false_acceptance, is_semantic_false_decision,
    normalize_query, novelty_items, percentile, planner_action_resolution,
    qualify_identity_for_query, query_terms, suggested_query, target_progress_items,
    trusted_identity_context_search_remaining, CaseSpec, ExpectedOutcome, NoveltyFields,
    PlannerAction, SearchState, StopReason, SuggestionUpdate, WikipediaCandidate,
    MAX_ACTION_REPAIRS_PER_OBSERVATION,
};
use reasoning_harness_cli::identity_gate::{
    action_offer, aggregate, next_no_progress_rounds, qualified_observation, planner_seed, resolved_outcome,
    round_precheck, sample_result, title_retry_allowed, tool_failure_kind, ActionOffer,
    CaseReport,
};

#[test]
fn unknown_expectation_treats_any_fact_decision_as_false_acceptance() {
    assert!(is_false_acceptance(ExpectedOutcome::Unknown, ExpectedOutcome::Accept));
    assert!(is_false_acceptance(ExpectedOutcome::Unknown, ExpectedOutcome::Reject));
    assert!(!is_false_acceptance(ExpectedOutcome::Unknown, ExpectedOutcome::Unknown));
    assert!(is_false_acceptance(ExpectedOutcome::Reject, ExpectedOutcome::Accept));
    assert!(!is_false_acceptance(ExpectedOutcome::Reject, ExpectedOutcome::Reject));
    assert!(!is_false_acceptance(ExpectedOutcome::Accept, ExpectedOutcome::Accept));
}

#[test]
fn semantic_false_decision_is_symmetric_for_terminal_wrong_answers() {
    assert!(is_semantic_false_decision(
        ExpectedOutcome::Accept,
        ExpectedOutcome::Reject
    ));
    assert!(is_semantic_false_decision(
        ExpectedOutcome::Reject,
        ExpectedOutcome::Accept
    ));
    assert!(is_semantic_false_decision(
        ExpectedOutcome::Unknown,
        ExpectedOutcome::Accept
    ));
    assert!(is_semantic_false_decision(
        ExpectedOutcome::Unknown,
        ExpectedOutcome::Reject
    ));
    assert!(!is_semantic_false_decision(
        ExpectedOutcome::Accept,
        ExpectedOutcome::Unknown
    ));
    assert!(!is_semantic_false_decision(
        ExpectedOutcome::Accept,
        ExpectedOutcome::Accept
    ));
}

fn case(context: Option<&'static str>) -> CaseSpec {
    CaseSpec {
        id: "synthetic",
        task: "Determine the fact for Alpha.",
        initial_query: "Alpha",
        identity_context: context,
        property_id: "P17",
        value_kind: "entity",
        fact_key: "alpha.fact",
        target_value: "Q1",
        expected: ExpectedOutcome::Accept,
    }
}

fn empty_state() -> SearchState {
    SearchState {
        is_object: true,
        outcome_kind: None,
        suggested_query: None,
        suggested_query_origin: None,
        resolved_entity: None,
        corroboration_rank: None,
        corroboration_mode: None,
        direct_wikibase_verified: None,
        corroboration_entity_label: None,
        corroboration_entity_description: None,
        wikipedia_top: None,
    }
}

fn suggesting(query: &str) -> SearchState {
    let mut state = empty_state();
    state.suggested_query = Some(query.into());
    state.suggested_query_origin = Some("harness_trusted_identity_context".into());
    state
}

fn action(name: &str, query: Option<&str>) -> PlannerAction {
    PlannerAction { action: name.into(), query: query.map(str::to_string) }
}

#[test]
fn query_terms_are_lowercase_distinct_and_sorted() {
    assert_eq!(query_terms("Newport, WALES newport"), vec!["newport".to_string(), "wales".to_string()]);
    assert_eq!(normalize_query("Wales (Newport)"), "newport wales");
    assert_eq!(normalize_query("  ;; "), "");
    assert_eq!(normalize_query("Zürich, Åland"), "zürich åland");
}

#[test]
fn grounded_search_keeps_surface_and_context_and_adds_nothing() {
    assert!(grounded_identity_context_search(case(Some("Region")), "Alpha, Region"));
    assert!(grounded_identity_context_search(case(Some("Region")), "region alpha"));
    assert!(!grounded_identity_context_search(case(Some("Region")), "Alpha"));
    assert!(!grounded_identity_context_search(case(Some("Region")), "Alpha Region country"));
    assert!(!grounded_identity_context_search(case(None), "Alpha, Region"));
    assert_eq!(
        identity_context_progress_item(case(Some("Big Region")), "alpha region big").unwrap(),
        "trusted_identity_context:big region"
    );
    assert!(identity_context_progress_item(case(Some("Region")), "Alpha").is_none());
    assert_eq!(canonical_identity_context_query(case(Some("Region"))).unwrap(), "Alpha, Region");
    assert!(canonical_identity_context_query(case(None)).is_none());
    assert!(trusted_identity_context_search_remaining(case(Some("Region")), &vec![]));
    assert!(!trusted_identity_context_search_remaining(case(Some("Region")), &vec!["alpha region".to_string()]));
    assert!(!trusted_identity_context_search_remaining(case(None), &vec![]));
}

#[test]
fn planner_actions_are_resolved_before_any_tool_call() {
    let c = case(Some("Region"));
    let none: Vec<String> = vec![];
    assert_eq!(
        planner_action_resolution(c, &action("search", Some("Alpha plus Region")), &suggesting("Alpha, Region"), &none),
        Err("canonical_suggestion_available_use_follow")
    );
    assert_eq!(
        planner_action_resolution(c, &action("follow_suggested_query", None), &suggesting(" Alpha, Region "), &none),
        Ok((Some("Alpha, Region".to_string()), true))
    );
    assert_eq!(
        planner_action_resolution(c, &action("follow_suggested_query", None), &empty_state(), &none),
        Err("missing_suggested_query")
    );
    assert_eq!(
        planner_action_resolution(c, &action("search", Some("  ")), &empty_state(), &none),
        Err("missing_search_query")
    );
    assert_eq!(
        planner_action_resolution(c, &action("search", Some("Alpha (Region)")), &empty_state(), &vec!["alpha region".to_string()]),
        Err("duplicate_search_query")
    );
    assert_eq!(
        planner_action_resolution(c, &action("search", Some("Alpha country")), &empty_state(), &none),
        Err("search_not_grounded_in_trusted_identity_context")
    );
    assert_eq!(
        planner_action_resolution(c, &action("search", Some(" Region Alpha ")), &empty_state(), &none),
        Ok((Some("Region Alpha".to_string()), false))
    );
    assert_eq!(planner_action_resolution(c, &action("stop", None), &empty_state(), &none), Ok((None, false)));
    assert_eq!(planner_action_resolution(c, &action("jump", None), &empty_state(), &none), Err("unknown_action"));
    let mut foreign = suggesting("Alpha, Candidate Region");
    foreign.suggested_query_origin = Some("adapter".into());
    assert!(suggested_query(&foreign).is_none());
}

#[test]
fn stop_reasons_and_cases_and_percentiles() {
    assert!(StopReason::ToolProtocolFailure.operational());
    assert!(!StopReason::MaxRounds.operational());
    assert!(StopReason::ModelTokenBudget.budget());
    assert!(!StopReason::NoProgress.budget());
    let cases = dev_cases();
    assert_eq!(cases[3].identity_context, Some("Wales"));
    assert_eq!(cases[6].expected, ExpectedOutcome::Reject);
    assert_eq!(percentile(&[], 50), 0);
    assert_eq!(percentile(&[30, 10, 20], 50), 20);
    assert_eq!(percentile(&[30, 10, 20, 40], 95), 40);
}

fn v6_case(context: Option<&'static str>) -> CaseSpec {
    CaseSpec {
        id: "synthetic",
        task: "synthetic",
        initial_query: "Alpha",
        identity_context: context,
        property_id: "P1",
        value_kind: "entity",
        fact_key: "alpha.fact",
        target_value: "Q9",
        expected: ExpectedOutcome::Unknown,
    }
}

fn state_of_kind(kind: &str) -> SearchState {
    let mut state = empty_state();
    state.outcome_kind = Some(kind.into());
    state
}

/// The search state of an upstream fact that only rank 2 corroborates.
fn rank2_fact() -> SearchState {
    let mut state = state_of_kind("fact_resolved");
    state.resolved_entity = Some("Q1".into());
    state.corroboration_rank = Some(2);
    state.wikipedia_top = Some(WikipediaCandidate {
        title: Some("Alpha".into()),
        wikibase_item: Some("Q1".into()),
        disambiguation: Some(false),
    });
    state
}

fn no_novelty() -> NoveltyFields {
    NoveltyFields {
        wikidata_candidate_ids: vec![],
        title_retry_candidate_ids: vec![],
        identity_reasons: vec![],
        wikipedia_top_entity: None,
        wikipedia_top_title: None,
        outcome_kind: None,
        identity_reason: None,
        validation_reason: None,
        candidate_titles: vec![],
        candidate_entities: vec![],
    }
}

#[test]
fn rank2_with_trusted_context_remains_unadmitted_and_gets_canonical_suggestion() {
    let c = v6_case(Some("Region"));
    let qualified = qualify_identity_for_query(c, c.initial_query, &rank2_fact());
    assert!(qualified.fact_resolved);
    assert_eq!(qualified.identity_supported, Some(false));
    assert_eq!(qualified.suggestion, SuggestionUpdate::Suggest("Alpha, Region".into()));
    assert!(qualified.reasons.iter().any(|v| *v == "cross_source_identity_evidence_insufficient"));
}

#[test]
fn rank2_without_trusted_context_remains_unadmitted_and_stops() {
    let c = v6_case(None);
    let qualified = qualify_identity_for_query(c, c.initial_query, &rank2_fact());
    assert_eq!(qualified.identity_supported, Some(false));
    assert_eq!(qualified.suggestion, SuggestionUpdate::ClearAndStop);
}

#[test]
fn canonical_follow_executes_exact_suggestion() {
    let c = v6_case(Some("Region"));
    let tried = vec![normalize_query("Alpha")];
    let (query, followed) =
        planner_action_resolution(c, &action("follow_suggested_query", None), &suggesting("Alpha, Region"), &tried).unwrap();
    assert_eq!(query.as_deref(), Some("Alpha, Region"));
    assert!(followed);
}

#[test]
fn freeform_search_is_unavailable_while_canonical_suggestion_exists() {
    let c = v6_case(Some("Region"));
    assert_eq!(
        planner_action_resolution(c, &action("search", Some("Alpha, Region")), &suggesting("Alpha, Region"), &vec![]),
        Err("canonical_suggestion_available_use_follow")
    );
}

#[test]
fn unavailable_follow_is_typed_invalid_with_zero_external_requests() {
    let c = v6_case(Some("Region"));
    let error = planner_action_resolution(
        c,
        &action("follow_suggested_query", None),
        &state_of_kind("identity_insufficient"),
        &vec![],
    )
    .expect_err("follow without suggestion must be unavailable");
    assert_eq!(error, "missing_suggested_query");
}

#[test]
fn planner_cannot_invent_identity_context() {
    let c = v6_case(None);
    assert_eq!(
        planner_action_resolution(c, &action("search", Some("Alpha country")), &empty_state(), &vec![]),
        Err("search_not_grounded_in_trusted_identity_context")
    );
}

#[test]
fn exact_trusted_context_is_allowed_without_suggestion_but_extra_terms_are_not() {
    let c = v6_case(Some("Region"));
    let (query, followed) =
        planner_action_resolution(c, &action("search", Some("Alpha (Region)")), &empty_state(), &vec![]).unwrap();
    assert_eq!(query.as_deref(), Some("Alpha (Region)"));
    assert!(!followed);
    assert_eq!(
        planner_action_resolution(c, &action("search", Some("Alpha plus Region")), &empty_state(), &vec![]),
        Err("search_not_grounded_in_trusted_identity_context")
    );
}

#[test]
fn semantic_duplicate_and_a_b_a_cycle_are_rejected() {
    let c = v6_case(Some("Region"));
    let tried = vec![normalize_query("Alpha"), normalize_query("Alpha, Region")];
    assert_eq!(
        planner_action_resolution(c, &action("search", Some("Alpha (Region)")), &empty_state(), &tried),
        Err("duplicate_search_query")
    );
}

#[test]
fn candidate_churn_is_novelty_not_target_progress() {
    let c = v6_case(None);
    let state = state_of_kind("search_unresolved");
    assert!(target_progress_items(c, "Alpha", &state, &vec![]).is_empty());
    let mut a = no_novelty();
    a.outcome_kind = Some("search_unresolved".into());
    a.wikidata_candidate_ids = vec!["Q1".into()];
    let mut b = no_novelty();
    b.outcome_kind = Some("search_unresolved".into());
    b.wikidata_candidate_ids = vec!["Q2".into()];
    assert_ne!(novelty_items(&a), novelty_items(&b));
    assert_eq!(
        novelty_items(&a),
        vec!["outcome_kind:search_unresolved".to_string(), "wikidata_candidate_ids:Q1".to_string()]
    );
}

#[test]
fn bare_rank1_fact_with_trusted_context_is_not_admitted() {
    let mut upstream = rank2_fact();
    upstream.corroboration_rank = Some(1);
    let qualified = qualify_identity_for_query(v6_case(Some("Region")), "Alpha", &upstream);
    assert_eq!(qualified.identity_supported, Some(false));
    assert!(qualified.context_required);
    assert!(!qualified.context_verified);
    assert_eq!(qualified.suggestion, SuggestionUpdate::Suggest("Alpha, Region".into()));
    assert!(qualified.reasons.iter().any(|v| *v == "trusted_identity_context_not_verified_by_query"));
}

#[test]
fn rank1_fact_after_canonical_context_query_is_admitted() {
    let mut upstream = rank2_fact();
    upstream.corroboration_rank = Some(1);
    upstream.corroboration_entity_label = Some("Alpha".into());
    upstream.corroboration_entity_description = Some("synthetic entity in Region".into());
    let qualified = qualify_identity_for_query(v6_case(Some("Region")), "Alpha, Region", &upstream);
    assert_eq!(qualified.identity_supported, Some(true));
    assert!(qualified.context_verified);
    assert_eq!(
        qualified.identity_reason,
        Some("rank1_cross_source_agreement_with_trusted_context_metadata")
    );
}

#[test]
fn ambiguous_bare_surface_with_trusted_context_gets_canonical_followup() {
    let qualified = qualify_identity_for_query(v6_case(Some("Region")), "Alpha", &state_of_kind("ambiguous"));
    assert!(!qualified.fact_resolved);
    assert_eq!(qualified.identity_supported, None);
    assert_eq!(qualified.suggestion, SuggestionUpdate::Suggest("Alpha, Region".into()));
    assert!(!qualified.context_verified);
}

#[test]
fn ambiguity_after_context_query_does_not_loop_the_same_context() {
    let qualified = qualify_identity_for_query(v6_case(Some("Region")), "Alpha, Region", &state_of_kind("ambiguous"));
    assert_eq!(qualified.suggestion, SuggestionUpdate::ClearAndStop);
    let tried = vec![normalize_query("Alpha"), normalize_query("Alpha, Region")];
    assert!(!trusted_identity_context_search_remaining(v6_case(Some("Region")), &tried));
}

fn direct_wikibase_fact() -> SearchState {
    let mut upstream = rank2_fact();
    upstream.corroboration_rank = None;
    upstream.corroboration_mode = Some("wikipedia_wikibase_direct".into());
    upstream.direct_wikibase_verified = Some(true);
    upstream
}

#[test]
fn trusted_context_direct_wikibase_verification_can_admit_without_search_rank() {
    let mut upstream = direct_wikibase_fact();
    upstream.corroboration_entity_label = Some("Alpha".into());
    upstream.corroboration_entity_description = Some("synthetic entity in Region".into());
    let qualified = qualify_identity_for_query(v6_case(Some("Region")), "Alpha, Region", &upstream);
    assert_eq!(qualified.identity_supported, Some(true));
    assert!(qualified.context_verified);
    assert_eq!(
        qualified.identity_reason,
        Some("direct_wikibase_verification_with_trusted_context_metadata")
    );
}

#[test]
fn direct_wikibase_verification_never_relaxes_bare_surface_rank_rule() {
    let mut upstream = direct_wikibase_fact();
    upstream.corroboration_entity_description = Some("synthetic entity in Region".into());
    let qualified = qualify_identity_for_query(v6_case(None), "Alpha", &upstream);
    assert_eq!(qualified.identity_supported, Some(false));
    assert!(qualified.reasons.iter().any(|v| *v == "cross_source_identity_evidence_insufficient"));
}

#[test]
fn direct_wikibase_verification_without_context_metadata_remains_unadmitted() {
    let mut upstream = direct_wikibase_fact();
    upstream.corroboration_entity_description = Some("synthetic entity elsewhere".into());
    let qualified = qualify_identity_for_query(v6_case(Some("Region")), "Alpha, Region", &upstream);
    assert_eq!(qualified.identity_supported, Some(false));
    assert!(!qualified.context_metadata_compatible);
}

#[test]
fn context_query_without_compatible_candidate_metadata_is_not_admitted() {
    let mut upstream = rank2_fact();
    upstream.corroboration_rank = Some(1);
    upstream.corroboration_entity_description = Some("synthetic entity elsewhere".into());
    let qualified = qualify_identity_for_query(v6_case(Some("Region")), "Alpha, Region", &upstream);
    assert_eq!(qualified.identity_supported, Some(false));
    assert!(qualified.context_query_grounded);
    assert!(!qualified.context_metadata_compatible);
    assert!(!qualified.context_verified);
    assert_eq!(qualified.suggestion, SuggestionUpdate::ClearAndStop);
}

#[test]
fn adapter_candidate_suggestion_is_not_a_planner_action() {
    let mut state = state_of_kind("entity_disagreement");
    state.suggested_query = Some("Alpha, Candidate Region".into());
    assert!(suggested_query(&state).is_none());
    let error = planner_action_resolution(
        v6_case(Some("Region")),
        &action("follow_suggested_query", None),
        &state,
        &vec![normalize_query("Alpha, Region")],
    )
    .unwrap_err();
    assert_eq!(error, "missing_suggested_query");
}

#[test]
fn repair_limit_exhaustion_remains_safe_unknown() {
    let c = v6_case(None);
    let tried: Vec<String> = vec![];
    let mut observation = state_of_kind("ambiguous");
    let invalid = action("search", Some("Alpha country"));
    let mut exhausted = false;
    for attempt in 0..=MAX_ACTION_REPAIRS_PER_OBSERVATION {
        let reason = planner_action_resolution(c, &invalid, &observation, &tried).unwrap_err();
        assert_eq!(reason, "search_not_grounded_in_trusted_identity_context");
        if attempt == MAX_ACTION_REPAIRS_PER_OBSERVATION {
            exhausted = true;
            break;
        }
        observation = state_of_kind("invalid_planner_action");
    }
    assert!(exhausted);
    let qualified = qualify_identity_for_query(c, "Alpha", &observation);
    assert_ne!(qualified.identity_supported, Some(true));
    assert!(!StopReason::PlannerActionRepairExhausted.operational());
}

#[test]
fn planner_is_offered_follow_then_context_search_then_stop() {
    let c = v6_case(Some("Region"));
    assert_eq!(action_offer(c, &suggesting("Alpha, Region"), &vec![]), ActionOffer::FollowOrStop);
    assert_eq!(
        action_offer(c, &suggesting("Alpha, Region"), &vec![normalize_query("Alpha, Region")]),
        ActionOffer::StopOnly
    );
    assert_eq!(action_offer(c, &empty_state(), &vec![normalize_query("Alpha")]), ActionOffer::SearchOrStop);
    assert_eq!(action_offer(v6_case(None), &empty_state(), &vec![]), ActionOffer::StopOnly);
    assert!(title_retry_allowed(c, "Alpha, Region"));
    assert!(!title_retry_allowed(c, "Alpha"));
    assert!(!title_retry_allowed(v6_case(None), "Alpha"));
}

#[test]
fn rounds_stop_on_budgets_duplicates_failures_and_resolved_values() {
    assert_eq!(round_precheck(30_000, 0, false), Some(StopReason::WallClockBudget));
    assert_eq!(round_precheck(10, 10, true), Some(StopReason::MaxToolCalls));
    assert_eq!(round_precheck(10, 9, true), Some(StopReason::DuplicateQuery));
    assert_eq!(round_precheck(10, 9, false), None);
    assert_eq!(tool_failure_kind(Some("transport")), StopReason::ToolTransportFailure);
    assert_eq!(tool_failure_kind(Some("timeout")), StopReason::ToolProtocolFailure);
    assert_eq!(tool_failure_kind(None), StopReason::ToolProtocolFailure);
    let c = v6_case(None);
    assert_eq!(resolved_outcome(c, "Q9"), (ExpectedOutcome::Accept, StopReason::ResolvedSupported));
    assert_eq!(resolved_outcome(c, "Q8"), (ExpectedOutcome::Reject, StopReason::ResolvedRefuted));
    assert_eq!(next_no_progress_rounds(1, 0), 2);
    assert_eq!(next_no_progress_rounds(1, 3), 0);
    assert_eq!(next_no_progress_rounds(usize::MAX, 0), usize::MAX);
    assert_eq!(sample_result(StopReason::ResolvedSupported, ExpectedOutcome::Accept, ExpectedOutcome::Accept, 1), (false, true, true));
    assert_eq!(sample_result(StopReason::MaxRounds, ExpectedOutcome::Unknown, ExpectedOutcome::Unknown, 0), (false, false, false));
    assert_eq!(sample_result(StopReason::ToolTransportFailure, ExpectedOutcome::Unknown, ExpectedOutcome::Unknown, 0), (true, false, false));
}

#[test]
fn planner_seed_mixes_trial_round_attempt_and_case_id() {
    // "ab" has byte sum 97 + 98.
    assert_eq!(planner_seed(2, 3, 1, "ab"), 2 * 10_000 + 3 + 100 + 195);
    assert_eq!(planner_seed(0, 0, 0, ""), 0);
    assert_eq!(planner_seed(u64::MAX, 1, 1, "ab"), u64::MAX);
}

fn report(expected: ExpectedOutcome, final_outcome: ExpectedOutcome, stop_reason: StopReason, elapsed_ms: u64) -> CaseReport {
    let (operational_failure, passed, recovered) = sample_result(stop_reason, final_outcome, expected, 0);
    CaseReport {
        expected,
        final_outcome,
        stop_reason,
        passed,
        operational_failure,
        rounds: 2,
        tool_calls: 2,
        external_requests: 3,
        planner_calls: 2,
        model_tokens: 100,
        elapsed_ms,
        identity_insufficient_observations: 1,
        identity_supported_observations: 0,
        invalid_action_observations: 0,
        invalid_actions_blocked_before_external_request: 0,
        follow_suggested_query_actions: 1,
        recovered_after_invalid_action: recovered,
        context_unverified_fact_admissions: 0,
    }
}

#[test]
fn benchmark_aggregate_counts_outcomes_and_totals() {
    let samples = [
        report(ExpectedOutcome::Accept, ExpectedOutcome::Accept, StopReason::ResolvedSupported, 100),
        report(ExpectedOutcome::Unknown, ExpectedOutcome::Reject, StopReason::ResolvedRefuted, 300),
        report(ExpectedOutcome::Accept, ExpectedOutcome::Unknown, StopReason::NoProgress, 200),
        report(ExpectedOutcome::Accept, ExpectedOutcome::Unknown, StopReason::ToolProtocolFailure, 400),
    ];
    let totals = aggregate(&samples, 4, 1);
    assert_eq!(totals.samples, 4);
    assert_eq!(totals.counts.passed_samples, 1);
    assert_eq!(totals.counts.false_acceptances, 1);
    assert_eq!(totals.counts.false_abstentions, 1);
    assert_eq!(totals.counts.semantic_false_decisions, 1);
    assert_eq!(totals.counts.operational_unresolved, 1);
    assert_eq!(totals.counts.tool_failures, 1);
    assert_eq!(totals.counts.no_progress_stops, 1);
    assert_eq!(totals.counts.identity_insufficient_accept_cases, 3);
    assert_eq!(totals.counts.recovered_identity_insufficient_accept_cases, 1);
    assert_eq!(totals.totals.external_requests, 12);
    assert_eq!(totals.totals.model_tokens, 400);
    assert_eq!(totals.p50_elapsed_ms, 300);
    assert_eq!(totals.p95_elapsed_ms, 400);
    assert_eq!(totals.max_elapsed_ms, 400);
}

#[test]
fn canonical_context_query_always_passes_the_grounding_check() {
    for context in ["Region", "North Region", "Wales (UK)"] {
        let c = v6_case(Some(context));
        let q = canonical_identity_context_query(c).unwrap();
        assert_eq!(q, format!("Alpha, {context}"));
        assert!(grounded_identity_context_search(c, &q));
    }
    assert_eq!(canonical_identity_context_query(v6_case(None)), None);
}

#[test]
fn normal_form_is_a_fixed_point() {
    for v in ["Alpha (Region)", "Alpha, Region", "  WALES newport;; Newport ", ""] {
        let once = normalize_query(v);
        assert_eq!(normalize_query(&once), once);
    }
    assert_eq!(normalize_query("Alpha (Region)"), "alpha region");
    assert_eq!(normalize_query("Alpha, Region"), "alpha region");
}

#[test]
fn unresolved_non_object_state_leaves_the_suggestion_unchanged() {
    let mut state = empty_state();
    state.is_object = false;
    let qualified = qualify_identity_for_query(v6_case(Some("Region")), "Alpha", &state);
    assert!(!qualified.fact_resolved);
    assert_eq!(qualified.suggestion, SuggestionUpdate::Unchanged);
}

#[test]
fn qualified_observation_explains_what_the_harness_withheld() {
    let withheld = qualify_identity_for_query(v6_case(Some("Region")), "Alpha", &rank2_fact());
    assert_eq!(
        qualified_observation(&withheld, "up").as_deref(),
        Some("Harness identity qualification withheld upstream fact: reasons=cross_source_identity_evidence_insufficient,trusted_identity_context_not_verified_by_query; trusted context requires both a bounded context query and deterministic compatibility with corroborating candidate metadata; upstream_observation=up")
    );
    let mut broken = rank2_fact();
    broken.is_object = false;
    let invalid = qualify_identity_for_query(v6_case(None), "Alpha", &broken);
    assert_eq!(
        qualified_observation(&invalid, "up").as_deref(),
        Some("Harness identity qualification withheld upstream fact: invalid search-state shape; upstream_observation=up")
    );
    let unresolved = qualify_identity_for_query(v6_case(Some("Region")), "Alpha", &state_of_kind("no_match"));
    assert_eq!(
        qualified_observation(&unresolved, "up").as_deref(),
        Some("Harness requires trusted identity context before identity sufficiency; canonical follow-up is available only from Harness-owned context; upstream_observation=up")
    );
    let grounded = qualify_identity_for_query(v6_case(Some("Region")), "Alpha, Region", &state_of_kind("no_match"));
    assert_eq!(qualified_observation(&grounded, "up"), None);
    let mut rank1 = rank2_fact();
    rank1.corroboration_rank = Some(1);
    let admitted = qualify_identity_for_query(v6_case(None), "Alpha", &rank1);
    assert_eq!(admitted.identity_supported, Some(true));
    assert_eq!(qualified_observation(&admitted, "up"), None);
}

#[test]
fn development_cases_carry_their_answer_keys() {
    let cases = dev_cases();
    let keys: Vec<(&str, &str, &str)> = cases.iter().map(|c| (c.id, c.fact_key, c.target_value)).collect();
    assert_eq!(
        keys,
        vec![
            ("bratislava_country_direct", "bratislava.country", "Q214"),
            ("lisbon_country_context_agreement", "lisbon.country", "Q45"),
            ("newcastle_country_context_conflict", "newcastle.country", "Q408"),
            ("newport_country_ambiguous_context", "newport.country", "Q145"),
            ("lincoln_ambiguity_abstention", "lincoln.country", "Q30"),
            ("hamilton_ambiguity_abstention", "hamilton.country", "Q16"),
            ("hamburg_wrong_country_refutation", "hamburg.country", "Q142"),
            ("zagreb_country_direct", "zagreb.country", "Q224"),
        ]
    );
    assert!(cases.iter().all(|c| c.property_id == "P17" && c.value_kind == "entity"));
    assert_eq!(cases[6].task, "Check the claim that Hamburg is in France. Acquire external evidence before deciding whether the claim is supported.");
}
