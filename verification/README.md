# reasoning-harness-cli

The decision logic of the Reasoning Harness command-line studies and product
adapters, verified with Verus.

- `src/` — the verified library: provider-failure classification and
  redaction, credential input handling, study corpora and fixture selection,
  counterbalanced run orders, decision and calibration metrics, the identity
  gate of the MCP knowledge benchmark and its rounds as a state machine
  (`identity_rounds`), the decoding of the knowledge tool's JSON reply
  (`tool_call`, over the JSON lookups of `json`), the evidence-relevance
  observations and their merging (`relevance_calls`), the model calls of a
  relevance stage and the study's run over its cases as state machines
  (`relevance_steps`), the product dogfood and external-information reports,
  and the MCP product adapter's routing, argument construction and output
  envelope check. Each public function states what it returns in `ensures`
  (the benchmark case tables field by field; for a clock reading, what holds
  of every reading, with the computation on it stated exactly); laws that span functions are
  public proof functions.
- `tests/` — scenario tests on concrete values.
- `app/` — the `reason-mcp` process: argument parsing, JSON-RPC over stdio,
  temporary files and the native `reason` child process, with every decision
  taken by the library. The study and benchmark drivers, which run their
  cases through the harness core and provider adapters, are not part of it.
