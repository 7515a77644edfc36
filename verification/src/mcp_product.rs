//! The MCP product adapter: JSON-RPC request routing, the bounded reading of the
//! native command's output, and the literal, closed argument list of
//! `reason ask` built from a tool call.
use vstd::prelude::*;
use crate::terms;
use crate::json;
use crate::json::{json_has_value, json_string_at};
use crate::text;
use crate::text::{chars_of, contains_chars, str_eq, trim_str, u64_to_string};

verus! {

/// Default largest request line, in bytes.
pub const DEFAULT_MAX_REQUEST_BYTES: usize = 2097152;
/// Default largest response, in bytes.
pub const DEFAULT_MAX_RESPONSE_BYTES: usize = 8388608;
/// Default native command timeout, in milliseconds.
pub const DEFAULT_NATIVE_TIMEOUT_MS: u64 = 30000;
/// The MCP protocol version the server speaks.
pub const MCP_PROTOCOL_VERSION: &'static str = "2026-07-28";
/// The server's identifier in result metadata.
pub const MCP_PRODUCT_SERVER_ID: &'static str = "reasoning_harness_mcp_v1";
/// The output contract the native command's envelope must carry.
pub const CLI_OUTPUT_CONTRACT: &'static str = "reason-cli-output-v1";
/// Bytes of the native command's standard error that are read.
pub const STDERR_LIMIT: u64 = 65536;

/// Providers `reason ask` can be asked to use.
#[derive(Debug, Clone, Copy, PartialEq, Eq, Structural)]
pub enum AskProvider {
    Mistral,
    Google,
    Nvidia,
}

impl AskProvider {
    /// The provider's value on the `reason` command line.
    pub open spec fn cli_value_spec(self) -> Seq<char> {
        match self {
            AskProvider::Mistral => "mistral"@,
            AskProvider::Google => "google"@,
            AskProvider::Nvidia => "nvidia"@,
        }
    }

    /// The provider's value on the `reason` command line.
    pub fn cli_value(self) -> (r: &'static str)
        ensures
            r@ == self.cli_value_spec(),
    {
        match self {
            AskProvider::Mistral => "mistral",
            AskProvider::Google => "google",
            AskProvider::Nvidia => "nvidia",
        }
    }
}

/// The schemas `reason schema` can print.
#[derive(Debug, Clone, Copy, PartialEq, Eq, Structural)]
pub enum SchemaKind {
    Artifact,
    Candidate,
    Config,
    SemanticCheck,
}

impl SchemaKind {
    /// The schema's value on the `reason` command line.
    pub open spec fn cli_value_spec(self) -> Seq<char> {
        match self {
            SchemaKind::Artifact => "artifact"@,
            SchemaKind::Candidate => "candidate"@,
            SchemaKind::Config => "config"@,
            SchemaKind::SemanticCheck => "semantic-check"@,
        }
    }

    /// The schema's value on the `reason` command line.
    pub fn cli_value(self) -> (r: &'static str)
        ensures
            r@ == self.cli_value_spec(),
    {
        match self {
            SchemaKind::Artifact => "artifact",
            SchemaKind::Candidate => "candidate",
            SchemaKind::Config => "config",
            SchemaKind::SemanticCheck => "semantic-check",
        }
    }
}

/// Why running the native command failed.
#[derive(Debug, Clone, Copy, PartialEq, Eq, Structural)]
pub enum NativeFailure {
    Spawn,
    Timeout,
    OutputTooLarge,
    Protocol,
    Io,
}

impl NativeFailure {
    /// The operational class reported for the failure.
    pub open spec fn class_spec(self) -> Seq<char> {
        match self {
            NativeFailure::Spawn => "native_spawn"@,
            NativeFailure::Timeout => "timeout"@,
            NativeFailure::OutputTooLarge => "native_output_too_large"@,
            NativeFailure::Protocol => "native_protocol"@,
            NativeFailure::Io => "native_io"@,
        }
    }

    /// The operational class reported for the failure.
    pub fn class(&self) -> (r: &'static str)
        ensures
            r@ == self.class_spec(),
    {
        match self {
            NativeFailure::Spawn => "native_spawn",
            NativeFailure::Timeout => "timeout",
            NativeFailure::OutputTooLarge => "native_output_too_large",
            NativeFailure::Protocol => "native_protocol",
            NativeFailure::Io => "native_io",
        }
    }
}

// ---------------------------------------------------------------------------
// Bounded output.
// ---------------------------------------------------------------------------

/// How many bytes to read to detect output beyond `limit`: one more than the
/// limit, or too large when that does not fit in a `u64`.
pub fn read_allowance(limit: usize) -> (r: Result<u64, NativeFailure>)
    ensures
        limit < u64::MAX ==> r == Ok::<u64, NativeFailure>((limit + 1) as u64),
        limit >= u64::MAX ==> r == Err::<u64, NativeFailure>(NativeFailure::OutputTooLarge),
{
    let value = limit as u64;
    if value == u64::MAX {
        return Err(NativeFailure::OutputTooLarge);
    }
    Ok(value + 1)
}

/// The output of the native command once read up to the allowance: an I/O
/// failure stays one, and more bytes than the limit is output too large.
pub fn read_bounded(read: Option<Vec<u8>>, limit: usize) -> (r: Result<Vec<u8>, NativeFailure>)
    ensures
        read is None ==> r == Err::<Vec<u8>, NativeFailure>(NativeFailure::Io),
        read is Some && read->0.len() > limit ==> r == Err::<Vec<u8>, NativeFailure>(NativeFailure::OutputTooLarge),
        read is Some && read->0.len() <= limit ==> r is Ok && r->Ok_0@ == read->0@,
{
    match read {
        None => Err(NativeFailure::Io),
        Some(bytes) => {
            if bytes.len() > limit {
                Err(NativeFailure::OutputTooLarge)
            } else {
                Ok(bytes)
            }
        },
    }
}

// ---------------------------------------------------------------------------
// Native arguments.
// ---------------------------------------------------------------------------

/// A key that can stand in `key=value`: not blank and free of `=` and line breaks.
pub open spec fn valid_key(key: Seq<char>) -> bool {
    text::trim(key).len() > 0 && !key.contains('=') && !key.contains('\n') && !key.contains('\r')
}

/// Joins a key and a value into one `key=value` argument.
pub fn key_value_arg(key: &str, value: &str) -> (r: Result<String, NativeFailure>)
    ensures
        valid_key(key@) ==> r is Ok && r->Ok_0@ == key@ + "="@ + value@,
        !valid_key(key@) ==> r == Err::<String, NativeFailure>(NativeFailure::Protocol),
{
    let k = chars_of(key);
    let trimmed = trim_str(key);
    if trimmed.len() == 0 || has_char(&k, '=') || has_char(&k, '\n') || has_char(&k, '\r') {
        return Err(NativeFailure::Protocol);
    }
    let mut out = String::from_str(key);
    out.append("=");
    out.append(value);
    Ok(out)
}

/// Whether `v` holds `c`.
fn has_char(v: &Vec<char>, c: char) -> (r: bool)
    ensures
        r == v@.contains(c),
{
    match text::find_char(v, c) {
        Some(_) => true,
        None => false,
    }
}

/// A `reason ask` tool call.
#[derive(Debug)]
pub struct AskToolInput {
    pub task: String,
    pub provider: AskProvider,
    pub model: String,
    pub facts: Vec<(String, String)>,
    pub hypotheses: Vec<(String, String)>,
    pub resolver_facts: Vec<(String, String)>,
    pub max_tokens: Option<u32>,
    pub seed: Option<u64>,
    pub max_resolution_attempts: Option<usize>,
}

/// Key-value pairs by views.
pub open spec fn pairs_view(v: Seq<(String, String)>) -> Seq<(Seq<char>, Seq<char>)> {
    v.map_values(|p: (String, String)| (p.0@, p.1@))
}


/// `flag value` for every value, in order.
pub open spec fn flagged(flag: Seq<char>, values: Seq<Seq<char>>) -> Seq<Seq<char>>
    decreases values.len(),
{
    if values.len() == 0 {
        Seq::empty()
    } else {
        flagged(flag, values.drop_last()) + seq![flag, values.last()]
    }
}

/// `key=value` for every pair, in order.
pub open spec fn joined_pairs(pairs: Seq<(Seq<char>, Seq<char>)>) -> Seq<Seq<char>> {
    pairs.map_values(|p: (Seq<char>, Seq<char>)| p.0 + "="@ + p.1)
}

/// Every key of the pairs can stand in `key=value`.
pub open spec fn valid_keys(pairs: Seq<(Seq<char>, Seq<char>)>) -> bool {
    forall|i: int| 0 <= i < pairs.len() ==> valid_key(#[trigger] pairs[i].0)
}

/// An optional numeric option as arguments.
pub open spec fn optional_number(flag: Seq<char>, value: Option<nat>) -> Seq<Seq<char>> {
    match value {
        Some(n) => seq![flag, text::decimal(n)],
        None => Seq::empty(),
    }
}

/// Whether a tool call can become arguments: a task and a model that are not
/// blank, no zero token or attempt limit, and valid fact and hypothesis keys.
pub open spec fn ask_input_valid(input: AskToolInput) -> bool {
    &&& text::trim(input.task@).len() > 0
    &&& text::trim(input.model@).len() > 0
    &&& input.max_tokens != Some(0u32)
    &&& input.max_resolution_attempts != Some(0usize)
    &&& valid_keys(pairs_view(input.facts@))
    &&& valid_keys(pairs_view(input.hypotheses@))
    &&& valid_keys(pairs_view(input.resolver_facts@))
}

/// The arguments of `reason ask` for a valid tool call: provider and model,
/// the optional limits, one `--file` per context file, the facts,
/// hypotheses and resolver facts, the closed output options, and the task after
/// the option terminator.
pub open spec fn ask_args(input: AskToolInput, context_paths: Seq<Seq<char>>) -> Seq<Seq<char>> {
    seq!["--provider"@, input.provider.cli_value_spec(), "--model"@, input.model@]
        + optional_number("--max-tokens"@, match input.max_tokens { Some(n) => Some(n as nat), None => None })
        + optional_number("--seed"@, match input.seed { Some(n) => Some(n as nat), None => None })
        + optional_number("--max-resolution-attempts"@, match input.max_resolution_attempts { Some(n) => Some(n as nat), None => None })
        + flagged("--file"@, context_paths)
        + flagged("--fact"@, joined_pairs(pairs_view(input.facts@)))
        + flagged("--hypothesis"@, joined_pairs(pairs_view(input.hypotheses@)))
        + flagged("--resolver-fact"@, joined_pairs(pairs_view(input.resolver_facts@)))
        + seq!["--no-config"@, "--format"@, "json"@, "--"@, input.task@]
}

/// Appends `flag value` for every value.
fn push_flagged(args: &mut Vec<String>, flag: &str, values: &[String])
    ensures
        terms::strings_view(final(args)@) == terms::strings_view(old(args)@) + flagged(flag@, terms::strings_view(values@)),
{
    let ghost start = terms::strings_view(args@);
    let mut i: usize = 0;
    while i < values.len()
        invariant
            i <= values.len(),
            terms::strings_view(args@) == start + flagged(flag@, terms::strings_view(values@.subrange(0, i as int))),
        decreases values.len() - i,
    {
        proof {
            assert(terms::strings_view(values@.subrange(0, i + 1)).drop_last() =~= terms::strings_view(values@.subrange(0, i as int)));
            assert(terms::strings_view(values@.subrange(0, i + 1)).last() == values@[i as int]@);
        }
        let ghost before = terms::strings_view(args@);
        args.push(String::from_str(flag));
        args.push(values[i].clone());
        assert(terms::strings_view(args@) =~= before + seq![flag@, values@[i as int]@]);
        i = i + 1;
        assert(terms::strings_view(args@) =~= start + flagged(flag@, terms::strings_view(values@.subrange(0, i as int))));
    }
    assert(values@.subrange(0, values.len() as int) =~= values@);
}

/// Appends `flag key=value` for every pair, or fails on the first invalid key.
fn push_pairs(args: &mut Vec<String>, flag: &str, pairs: &Vec<(String, String)>) -> (ok: bool)
    ensures
        ok == valid_keys(pairs_view(pairs@)),
        ok ==> terms::strings_view(final(args)@) == terms::strings_view(old(args)@) + flagged(flag@, joined_pairs(pairs_view(pairs@))),
{
    let ghost start = terms::strings_view(args@);
    let ghost pv = pairs_view(pairs@);
    let mut i: usize = 0;
    while i < pairs.len()
        invariant
            i <= pairs.len(),
            pv == pairs_view(pairs@),
            forall|k: int| 0 <= k < i ==> valid_key(#[trigger] pv[k].0),
            terms::strings_view(args@) == start + flagged(flag@, joined_pairs(pv.subrange(0, i as int))),
        decreases pairs.len() - i,
    {
        let (key, value) = &pairs[i];
        assert(pv[i as int] == (key@, value@));
        match key_value_arg(key.as_str(), value.as_str()) {
            Ok(kv) => {
                proof {
                    assert(joined_pairs(pv.subrange(0, i + 1)).drop_last() =~= joined_pairs(pv.subrange(0, i as int)));
                    assert(joined_pairs(pv.subrange(0, i + 1)).last() == key@ + "="@ + value@);
                }
                let ghost before = terms::strings_view(args@);
                args.push(String::from_str(flag));
                args.push(kv);
                assert(terms::strings_view(args@) =~= before + seq![flag@, key@ + "="@ + value@]);
                i = i + 1;
                assert(terms::strings_view(args@) =~= start + flagged(flag@, joined_pairs(pv.subrange(0, i as int))));
            },
            Err(_) => {
                assert(!valid_key(pv[i as int].0));
                return false;
            },
        }
    }
    assert(pv.subrange(0, pairs.len() as int) =~= pv);
    true
}

/// Builds the literal argument list of `reason ask` from a tool call and the
/// paths its context texts were written to.
pub fn build_ask_args(input: &AskToolInput, context_paths: &[String]) -> (r: Result<Vec<String>, NativeFailure>)
    ensures
        ask_input_valid(*input) ==> r is Ok && terms::strings_view(r->Ok_0@) == ask_args(*input, terms::strings_view(context_paths@)),
        !ask_input_valid(*input) ==> r == Err::<Vec<String>, NativeFailure>(NativeFailure::Protocol),
{
    if trim_str(input.task.as_str()).len() == 0 || trim_str(input.model.as_str()).len() == 0 {
        return Err(NativeFailure::Protocol);
    }
    if input.max_tokens == Some(0u32) || input.max_resolution_attempts == Some(0usize) {
        return Err(NativeFailure::Protocol);
    }
    let mut args: Vec<String> = Vec::new();
    args.push(String::from_str("--provider"));
    args.push(String::from_str(input.provider.cli_value()));
    args.push(String::from_str("--model"));
    args.push(input.model.clone());
    let ghost base = terms::strings_view(args@);
    assert(base =~= seq!["--provider"@, input.provider.cli_value_spec(), "--model"@, input.model@]);
    if let Some(n) = input.max_tokens {
        args.push(String::from_str("--max-tokens"));
        args.push(u64_to_string(n as u64));
    }
    assert(terms::strings_view(args@) =~= base + optional_number("--max-tokens"@, match input.max_tokens { Some(n) => Some(n as nat), None => None }));
    let ghost after_tokens = terms::strings_view(args@);
    if let Some(n) = input.seed {
        args.push(String::from_str("--seed"));
        args.push(u64_to_string(n));
    }
    assert(terms::strings_view(args@) =~= after_tokens + optional_number("--seed"@, match input.seed { Some(n) => Some(n as nat), None => None }));
    let ghost after_seed = terms::strings_view(args@);
    if let Some(n) = input.max_resolution_attempts {
        args.push(String::from_str("--max-resolution-attempts"));
        args.push(u64_to_string(n as u64));
    }
    assert(terms::strings_view(args@) =~= after_seed + optional_number("--max-resolution-attempts"@, match input.max_resolution_attempts { Some(n) => Some(n as nat), None => None }));
    push_flagged(&mut args, "--file", context_paths);
    if !push_pairs(&mut args, "--fact", &input.facts) {
        return Err(NativeFailure::Protocol);
    }
    if !push_pairs(&mut args, "--hypothesis", &input.hypotheses) {
        return Err(NativeFailure::Protocol);
    }
    if !push_pairs(&mut args, "--resolver-fact", &input.resolver_facts) {
        return Err(NativeFailure::Protocol);
    }
    let ghost before_tail = terms::strings_view(args@);
    args.push(String::from_str("--no-config"));
    args.push(String::from_str("--format"));
    args.push(String::from_str("json"));
    args.push(String::from_str("--"));
    args.push(input.task.clone());
    assert(terms::strings_view(args@) =~= before_tail + seq!["--no-config"@, "--format"@, "json"@, "--"@, input.task@]);
    assert(terms::strings_view(args@) =~= ask_args(*input, terms::strings_view(context_paths@)));
    Ok(args)
}

/// The arguments of `reason run` on an input file and a candidate file.
pub fn run_args(input_path: &str, candidate_path: &str) -> (r: Vec<String>)
    ensures
        terms::strings_view(r@) == seq!["run"@, "--input"@, input_path@, "--candidate"@, candidate_path@, "--no-config"@,
            "--format"@, "json"@],
{
    let r = vec![
        String::from_str("run"),
        String::from_str("--input"),
        String::from_str(input_path),
        String::from_str("--candidate"),
        String::from_str(candidate_path),
        String::from_str("--no-config"),
        String::from_str("--format"),
        String::from_str("json"),
    ];
    assert(terms::strings_view(r@) =~= seq!["run"@, "--input"@, input_path@, "--candidate"@, candidate_path@, "--no-config"@,
        "--format"@, "json"@]);
    r
}

/// The arguments of `reason verify` on an artifact file.
pub fn verify_args(artifact_path: &str) -> (r: Vec<String>)
    ensures
        terms::strings_view(r@) == seq!["verify"@, artifact_path@, "--format"@, "json"@],
{
    let r = vec![
        String::from_str("verify"),
        String::from_str(artifact_path),
        String::from_str("--format"),
        String::from_str("json"),
    ];
    assert(terms::strings_view(r@) =~= seq!["verify"@, artifact_path@, "--format"@, "json"@]);
    r
}

/// The arguments of `reason schema` for one schema.
pub fn schema_args(kind: SchemaKind) -> (r: Vec<String>)
    ensures
        r@.len() == 2,
        r@[0]@ == "schema"@,
        r@[1]@ == kind.cli_value_spec(),
{
    vec![String::from_str("schema"), String::from_str(kind.cli_value())]
}

/// Whether the native command's output envelope is the one expected: the
/// CLI output contract, answering the command that was run.
pub fn native_envelope_accepted(schema_version: Option<&str>, command: Option<&str>, expected_command: &str) -> (r: bool)
    ensures
        r == (schema_version is Some && schema_version->0@ == CLI_OUTPUT_CONTRACT@ && command is Some
            && command->0@ == expected_command@),
{
    match (schema_version, command) {
        (Some(v), Some(c)) => str_eq(v, CLI_OUTPUT_CONTRACT) && str_eq(c, expected_command),
        _ => false,
    }
}

/// Whether the bytes a native command wrote are an accepted output envelope:
/// JSON whose `schema_version` is the CLI output contract and whose `command`
/// is the command that was run.
pub fn native_output_accepted(stdout: &[u8], expected_command: &str) -> (r: bool)
    ensures
        r == (json::json_has(stdout@, ""@) && json::json_str_at(stdout@, "/schema_version"@) == Some(CLI_OUTPUT_CONTRACT@)
            && json::json_str_at(stdout@, "/command"@) == Some(expected_command@)),
{
    if !json_has_value(stdout, "") {
        return false;
    }
    let schema_version = json_string_at(stdout, "/schema_version");
    let command = json_string_at(stdout, "/command");
    let schema_version_str: Option<&str> = match &schema_version {
        Some(v) => Some(v.as_str()),
        None => None,
    };
    let command_str: Option<&str> = match &command {
        Some(c) => Some(c.as_str()),
        None => None,
    };
    native_envelope_accepted(schema_version_str, command_str, expected_command)
}

/// The task is always the last argument and comes right after the option
/// terminator, so a task can never be read as an option.
pub proof fn task_follows_option_terminator(input: AskToolInput, context_paths: Seq<Seq<char>>)
    ensures
        ask_args(input, context_paths).last() == input.task@,
        ask_args(input, context_paths)[ask_args(input, context_paths).len() - 2] == "--"@,
{
}

// ---------------------------------------------------------------------------
// JSON-RPC routing.
// ---------------------------------------------------------------------------

/// What the server does with a request.
#[derive(Debug, Clone, Copy, PartialEq, Eq, Structural)]
pub enum RequestRoute {
    /// Answer error -32600: not JSON-RPC 2.0.
    InvalidVersion,
    Discover,
    ListTools,
    CallTool,
    /// Answer error -32602: a tool call without parameters.
    MissingParams,
    Ping,
    /// Answer error -32601.
    MethodNotFound,
}

/// Routes a request by its version, method and whether it has parameters.
pub fn route_request(jsonrpc: &str, method: &str, has_params: bool) -> (r: RequestRoute)
    ensures
        jsonrpc@ != "2.0"@ ==> r == RequestRoute::InvalidVersion,
        jsonrpc@ == "2.0"@ ==> r == (if method@ == "server/discover"@ {
            RequestRoute::Discover
        } else if method@ == "tools/list"@ {
            RequestRoute::ListTools
        } else if method@ == "tools/call"@ {
            if has_params { RequestRoute::CallTool } else { RequestRoute::MissingParams }
        } else if method@ == "ping"@ {
            RequestRoute::Ping
        } else {
            RequestRoute::MethodNotFound
        }),
{
    if !str_eq(jsonrpc, "2.0") {
        return RequestRoute::InvalidVersion;
    }
    if str_eq(method, "server/discover") {
        RequestRoute::Discover
    } else if str_eq(method, "tools/list") {
        RequestRoute::ListTools
    } else if str_eq(method, "tools/call") {
        if has_params { RequestRoute::CallTool } else { RequestRoute::MissingParams }
    } else if str_eq(method, "ping") {
        RequestRoute::Ping
    } else {
        RequestRoute::MethodNotFound
    }
}

/// The error code of a route that answers with an error.
pub fn route_error_code(route: RequestRoute) -> (r: Option<i64>)
    ensures
        r == (match route {
            RequestRoute::InvalidVersion => Some(-32600i64),
            RequestRoute::MissingParams => Some(-32602i64),
            RequestRoute::MethodNotFound => Some(-32601i64),
            _ => None,
        }),
{
    match route {
        RequestRoute::InvalidVersion => Some(-32600),
        RequestRoute::MissingParams => Some(-32602),
        RequestRoute::MethodNotFound => Some(-32601),
        _ => None,
    }
}

/// The native tools the server exposes.
#[derive(Debug, Clone, Copy, PartialEq, Eq, Structural)]
pub enum Tool {
    Ask,
    Run,
    Verify,
    Schema,
}

/// The tool named in a call; an unknown name is a protocol failure.
pub fn tool_for_name(name: &str) -> (r: Result<Tool, NativeFailure>)
    ensures
        r == (if name@ == "reason_ask"@ {
            Ok::<Tool, NativeFailure>(Tool::Ask)
        } else if name@ == "reason_run"@ {
            Ok(Tool::Run)
        } else if name@ == "reason_verify"@ {
            Ok(Tool::Verify)
        } else if name@ == "reason_schema"@ {
            Ok(Tool::Schema)
        } else {
            Err(NativeFailure::Protocol)
        }),
{
    if str_eq(name, "reason_ask") {
        Ok(Tool::Ask)
    } else if str_eq(name, "reason_run") {
        Ok(Tool::Run)
    } else if str_eq(name, "reason_verify") {
        Ok(Tool::Verify)
    } else if str_eq(name, "reason_schema") {
        Ok(Tool::Schema)
    } else {
        Err(NativeFailure::Protocol)
    }
}

/// How a failed tool call is answered: a protocol failure is JSON-RPC error
/// -32602; any other failure is a tool result carrying its operational class.
#[derive(Debug, Clone, Copy, PartialEq, Eq, Structural)]
pub enum FailureAnswer {
    InvalidParams,
    OperationalToolError(NativeFailure),
}

/// How a failed tool call is answered.
pub fn failure_answer(failure: NativeFailure) -> (r: FailureAnswer)
    ensures
        failure == NativeFailure::Protocol ==> r == FailureAnswer::InvalidParams,
        failure != NativeFailure::Protocol ==> r == FailureAnswer::OperationalToolError(failure),
{
    match failure {
        NativeFailure::Protocol => FailureAnswer::InvalidParams,
        other => FailureAnswer::OperationalToolError(other),
    }
}

/// Refuses a server configuration with a zero limit or timeout.
pub fn check_serve_config(max_request_bytes: usize, max_response_bytes: usize, native_timeout_ms: u64) -> (r: Result<(), String>)
    ensures
        (max_request_bytes == 0 || max_response_bytes == 0 || native_timeout_ms == 0) ==> r is Err
            && r->Err_0@ == "request/response limits and native timeout must be greater than zero"@,
        !(max_request_bytes == 0 || max_response_bytes == 0 || native_timeout_ms == 0) ==> r is Ok,
{
    if max_request_bytes == 0 || max_response_bytes == 0 || native_timeout_ms == 0 {
        return Err(String::from_str("request/response limits and native timeout must be greater than zero"));
    }
    Ok(())
}

/// What the server does with one input line.
#[derive(Debug, PartialEq, Eq)]
pub enum LineAction {
    /// A blank line is skipped.
    Skip,
    /// Answer error -32600: the request is over the byte limit.
    TooLarge,
    /// Parse the request bytes.
    Parse(Vec<u8>),
}

/// The line without its trailing line-break bytes.
pub open spec fn strip_line_breaks(line: Seq<u8>) -> Seq<u8>
    decreases line.len(),
{
    if line.len() > 0 && (line.last() == 10u8 || line.last() == 13u8) {
        strip_line_breaks(line.drop_last())
    } else {
        line
    }
}

/// Decides what to do with one input line.
pub fn request_line(line: Vec<u8>, max_request_bytes: usize) -> (r: LineAction)
    ensures
        strip_line_breaks(line@).len() == 0 ==> r == LineAction::Skip,
        strip_line_breaks(line@).len() > 0 && strip_line_breaks(line@).len() > max_request_bytes ==> r
            == LineAction::TooLarge,
        strip_line_breaks(line@).len() > 0 && strip_line_breaks(line@).len() <= max_request_bytes ==> (r
            matches LineAction::Parse(bytes) && bytes@ == strip_line_breaks(line@)),
{
    let mut line = line;
    let ghost received = line@;
    while line.len() > 0 && (line[line.len() - 1] == 10u8 || line[line.len() - 1] == 13u8)
        invariant
            strip_line_breaks(received) == strip_line_breaks(line@),
        decreases line.len(),
    {
        line.pop();
    }
    if line.len() == 0 {
        return LineAction::Skip;
    }
    if line.len() > max_request_bytes {
        return LineAction::TooLarge;
    }
    LineAction::Parse(line)
}

} // verus!
