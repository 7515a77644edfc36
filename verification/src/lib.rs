//! Verified decision logic of the reasoning-harness command-line tools.
pub mod acceptance;
pub mod auth;
pub mod claims;
pub mod counting;
pub mod cross_model;
pub mod cross_model_report;
pub mod decidability;
pub mod decidability_fixtures;
pub mod dogfood;
pub mod dogfood_report;
pub mod evidence_need;
pub mod evidence_relevance;
pub mod external_info;
pub mod failures;
pub mod format_invariance;
pub mod identity_gate;
pub mod identity_probe;
pub mod identity_rounds;
pub mod json;
pub mod knowledge;
pub mod materialization;
pub mod materialization_report;
pub mod mcp_product;
pub mod order;
pub mod relevance_calls;
pub mod relevance_manifest;
pub mod relevance_metrics;
pub mod relevance_steps;
pub mod tally;
pub mod terms;
pub mod text;
pub mod tool_call;
