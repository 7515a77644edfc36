use reasoning_harness_cli::mcp_product::native_output_accepted;
use reasoning_harness_cli::mcp_product::{
    build_ask_args, check_serve_config, failure_answer, key_value_arg, read_allowance,
    read_bounded, request_line, route_error_code, route_request, tool_for_name, AskProvider,
    AskToolInput, FailureAnswer, LineAction, NativeFailure, RequestRoute, SchemaKind, Tool,
};

fn ask_input(task: &str) -> AskToolInput {
    AskToolInput {
        task: task.into(),
        provider: AskProvider::Google,
        model: "model-x".into(),
        facts: vec![("status.code".into(), "200".into())],
        hypotheses: vec![("service.ready".into(), "true".into())],
        resolver_facts: vec![],
        max_tokens: Some(256),
        seed: Some(7),
        max_resolution_attempts: Some(2),
    }
}

#[test]
fn ask_args_are_literal_closed_and_task_is_after_option_terminator() {
    let input = ask_input("--not-an-option");
    let args = build_ask_args(&input, &["/tmp/invocation/context-0.txt".to_string()]).unwrap();
    let terminator = args.iter().position(|arg| arg == "--").unwrap();
    assert_eq!(&args[terminator + 1], "--not-an-option");
    assert!(args.windows(2).any(|pair| pair == ["--fact", "status.code=200"]));
    assert!(args.windows(2).any(|pair| pair == ["--hypothesis", "service.ready=true"]));
    assert!(!args.iter().any(|arg| arg == "--config" || arg == "--receipts"));
    assert_eq!(
        args,
        vec![
            "--provider", "google", "--model", "model-x", "--max-tokens", "256", "--seed", "7",
            "--max-resolution-attempts", "2", "--file", "/tmp/invocation/context-0.txt", "--fact",
            "status.code=200", "--hypothesis", "service.ready=true", "--no-config", "--format",
            "json", "--", "--not-an-option",
        ]
    );
}

#[test]
fn ask_inputs_that_cannot_become_arguments_are_protocol_failures() {
    assert_eq!(build_ask_args(&ask_input("  "), &[]), Err(NativeFailure::Protocol));
    let mut zero_tokens = ask_input("task");
    zero_tokens.max_tokens = Some(0);
    assert_eq!(build_ask_args(&zero_tokens, &[]), Err(NativeFailure::Protocol));
    let mut bad_key = ask_input("task");
    bad_key.facts = vec![("a=b".into(), "c".into())];
    assert_eq!(build_ask_args(&bad_key, &[]), Err(NativeFailure::Protocol));
    let mut plain = ask_input("task");
    plain.max_tokens = None;
    plain.seed = None;
    plain.max_resolution_attempts = None;
    plain.facts = vec![];
    plain.hypotheses = vec![];
    assert_eq!(
        build_ask_args(&plain, &[]).unwrap(),
        vec!["--provider", "google", "--model", "model-x", "--no-config", "--format", "json", "--", "task"]
    );
    assert_eq!(key_value_arg("k", "v=w").unwrap(), "k=v=w");
    assert_eq!(key_value_arg(" ", "v"), Err(NativeFailure::Protocol));
    assert_eq!(key_value_arg("a\nb", "v"), Err(NativeFailure::Protocol));
}

#[test]
fn requests_are_routed_by_version_method_and_params() {
    assert_eq!(route_request("1.0", "ping", false), RequestRoute::InvalidVersion);
    assert_eq!(route_request("2.0", "server/discover", false), RequestRoute::Discover);
    assert_eq!(route_request("2.0", "tools/list", false), RequestRoute::ListTools);
    assert_eq!(route_request("2.0", "tools/call", true), RequestRoute::CallTool);
    assert_eq!(route_request("2.0", "tools/call", false), RequestRoute::MissingParams);
    assert_eq!(route_request("2.0", "ping", false), RequestRoute::Ping);
    assert_eq!(route_request("2.0", "resources/list", true), RequestRoute::MethodNotFound);
    assert_eq!(route_error_code(RequestRoute::InvalidVersion), Some(-32600));
    assert_eq!(route_error_code(RequestRoute::MissingParams), Some(-32602));
    assert_eq!(route_error_code(RequestRoute::MethodNotFound), Some(-32601));
    assert_eq!(route_error_code(RequestRoute::Ping), None);
}

#[test]
fn tool_list_exposes_only_selected_native_surfaces() {
    assert_eq!(tool_for_name("reason_ask"), Ok(Tool::Ask));
    assert_eq!(tool_for_name("reason_run"), Ok(Tool::Run));
    assert_eq!(tool_for_name("reason_verify"), Ok(Tool::Verify));
    assert_eq!(tool_for_name("reason_schema"), Ok(Tool::Schema));
    assert_eq!(tool_for_name("reason_config"), Err(NativeFailure::Protocol));
    assert_eq!(SchemaKind::SemanticCheck.cli_value(), "semantic-check");
    assert_eq!(failure_answer(NativeFailure::Protocol), FailureAnswer::InvalidParams);
    assert_eq!(
        failure_answer(NativeFailure::Timeout),
        FailureAnswer::OperationalToolError(NativeFailure::Timeout)
    );
    assert_eq!(NativeFailure::OutputTooLarge.class(), "native_output_too_large");
}

#[test]
fn input_lines_and_native_output_are_bounded() {
    assert_eq!(request_line(b"\r\n".to_vec(), 10), LineAction::Skip);
    assert_eq!(request_line(b"{}\n".to_vec(), 10), LineAction::Parse(b"{}".to_vec()));
    assert_eq!(request_line(b"{\"a\":1}\r\n".to_vec(), 3), LineAction::TooLarge);
    assert_eq!(read_allowance(10), Ok(11));
    assert_eq!(read_bounded(None, 10), Err(NativeFailure::Io));
    assert_eq!(read_bounded(Some(vec![0; 11]), 10), Err(NativeFailure::OutputTooLarge));
    assert_eq!(read_bounded(Some(vec![1, 2]), 2), Ok(vec![1, 2]));
    assert!(check_serve_config(1, 1, 1).is_ok());
    assert_eq!(
        check_serve_config(0, 1, 1),
        Err("request/response limits and native timeout must be greater than zero".to_string())
    );
}

#[test]
fn native_output_must_carry_the_contract_and_the_command_run() {
    let ok = br#"{"schema_version":"reason-cli-output-v1","command":"verify","result":{}}"#;
    assert!(native_output_accepted(ok, "verify"));
    assert!(!native_output_accepted(ok, "run"));
    assert!(!native_output_accepted(br#"{"schema_version":"reason-cli-output-v0","command":"verify"}"#, "verify"));
    assert!(!native_output_accepted(br#"{"command":"verify"}"#, "verify"));
    assert!(!native_output_accepted(b"verify", "verify"));
}
