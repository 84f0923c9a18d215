use agent_context::cli::{
    build_invocation, check_raw_call, end_of_lines, extract_tool_response, read_line,
    request_line, socket_path, socket_source, validate_memory_input, CliError, Commands, MemoryArguments, MemoryOperation,
    ReadStep, SocketSource,
};
use agent_context::embedded_mcp::{
    call_context_tool, call_context_tool_unwired, escape_pipes, list_history,
    list_history_unwired, memory_without_thread, run_memory_proxy, CallContextMcpTool,
    ListHistoryMcpTool, MemoryProxyError, MemoryProxyMcpTool, MemoryProxyOperation,
};
use agent_context::json::Json;
use agent_context::mcp_bridge::{
    adapt_tool, answer_call, handle_line, input_error, invocation_result, output_error, plan_call,
    status_output, BridgeState, LineAction, NoopEventStreamProvider,
};
use agent_context::memory::MemoryError;
use agent_context::message::{Message, UserMessage, UserMessageContent};
use agent_context::thread::{CompletionMode, Thread};
use agent_context::tools::context_compaction::{plan_execution, ExecutionError};
use agent_context::tools::list_history_tool::ListHistoryToolInput;
use agent_context::tools::ToolKind;

fn object(fields: Vec<(&str, Json)>) -> Json {
    Json::Object(fields.into_iter().map(|(k, v)| (k.to_string(), v)).collect())
}

fn text(t: &str) -> Json {
    Json::Text(t.to_string())
}

fn shown<T: std::fmt::Debug>(value: &T) -> String {
    format!("{:?}", value)
}

fn no_arguments() -> MemoryArguments {
    MemoryArguments {
        start_index: None,
        end_index: None,
        memory_handle: None,
        summary: None,
        auto: false,
        max_preview_chars: None,
        restore_insert_index: None,
        remove_placeholder: false,
        replace_placeholder_with: None,
    }
}

fn thread_of(n: usize) -> Thread {
    let mut thread = Thread::new("write".to_string(), CompletionMode::Normal, None, None);
    for i in 0..n {
        thread.messages.push(Message::User(UserMessage {
            id: format!("u{}", i),
            content: vec![UserMessageContent::Text(format!("m{}", i))],
        }));
    }
    thread
}

#[test]
fn schema_and_metadata_export() {
    let schema = object(vec![
        ("type", text("object")),
        (
            "properties",
            object(vec![("msg", Json::Null), ("times", Json::Null)]),
        ),
    ]);
    let meta = adapt_tool("fake_tool", "bridge::export::tests::FakeTool", ToolKind::Other, schema);
    assert_eq!(meta.name, "fake_tool");
    assert!(matches!(meta.input_schema, Json::Object(_)));
    assert_eq!(meta.description, "FakeTool (exported)");
}

#[test]
fn the_socket_is_found_directly_or_through_a_file() {
    let some = |s: &str| Some(s.to_string());
    assert!(matches!(
        socket_source(&some("/s"), &some("/f")),
        SocketSource::Path(p) if p == "/s"
    ));
    assert!(matches!(socket_source(&None, &some("/f")), SocketSource::File(f) if f == "/f"));
    assert!(matches!(socket_source(&None, &None), SocketSource::File(_)));
    assert_eq!(socket_path("/f", " /tmp/s.sock\n").unwrap(), "/tmp/s.sock");
    let e = socket_path("/f", " \n").unwrap_err();
    assert_eq!(e.message(), "socket path file /f was empty");
}

#[test]
fn a_history_call_holds_what_was_given() {
    let (name, arguments) = build_invocation(&Commands::ListHistory {
        start: Some(2),
        limit: None,
        max_chars_per_message: Some(9),
        include_full_markdown: true,
    })
    .unwrap();
    assert_eq!(name, "list_history");
    assert_eq!(
        request_line(&name, &arguments),
        "{\"jsonrpc\":\"2.0\",\"id\":1,\"method\":\"tools/call\",\"params\":{\"name\":\"list_history\",\
         \"arguments\":{\"start\":2,\"max_chars_per_message\":9,\"include_full_markdown\":true}}}"
    );
}

#[test]
fn memory_calls_are_checked() {
    let call = |operation, arguments| build_invocation(&Commands::Memory { operation, arguments });
    let (name, arguments) = call(
        MemoryOperation::Store,
        MemoryArguments {
            start_index: Some(1),
            end_index: Some(2),
            summary: Some("s".to_string()),
            auto: true,
            ..no_arguments()
        },
    )
    .unwrap();
    assert_eq!(name, "memory");
    assert_eq!(
        shown(&arguments),
        shown(&object(vec![
            ("operation", text("store")),
            ("start_index", Json::Unsigned(1)),
            ("end_index", Json::Unsigned(2)),
            ("summary", text("s")),
            ("auto", Json::Bool(true)),
        ]))
    );
    let e = call(MemoryOperation::Store, no_arguments()).unwrap_err();
    assert_eq!(e.message(), "store operation requires --start-index and --end-index");
    let e = call(MemoryOperation::Load, no_arguments()).unwrap_err();
    assert_eq!(e.message(), "load operation requires --memory-handle");
    let e = call(MemoryOperation::Restore, no_arguments()).unwrap_err();
    assert_eq!(e.message(), "restore operation requires --memory-handle");
    assert!(call(MemoryOperation::List, no_arguments()).is_ok());
    assert!(call(MemoryOperation::Prune, no_arguments()).is_ok());
    assert_eq!(
        validate_memory_input(&object(vec![])).unwrap_err().message(),
        "memory invocation missing operation"
    );
    assert_eq!(
        validate_memory_input(&object(vec![("operation", text("fly"))])).unwrap_err().message(),
        "unknown memory operation: fly"
    );
}

#[test]
fn raw_calls_are_checked() {
    let call = |name: &str, arguments: Option<&str>| {
        build_invocation(&Commands::RawCall {
            name: name.to_string(),
            arguments: arguments.map(|a| a.to_string()),
        })
    };
    assert_eq!(shown(&call("list_history", None).unwrap().1), shown(&object(vec![])));
    assert_eq!(shown(&call("list_history", Some("  ")).unwrap().1), shown(&object(vec![])));
    assert!(matches!(call("memory", Some("{")), Err(CliError::BadArguments(_))));
    assert_eq!(
        call("memory", None).unwrap_err().message(),
        "memory RawCall requires 'operation' field in arguments"
    );
    assert_eq!(
        call("other", None).unwrap_err().message(),
        "unsupported tool 'other'. Allowed: list_history, memory"
    );
    let (_, arguments) = call("memory", Some("{\"operation\": [1, -2, null]}")).unwrap();
    assert_eq!(
        shown(&arguments),
        shown(&object(vec![(
            "operation",
            Json::Array(vec![Json::Unsigned(1), Json::Signed(-2), Json::Null])
        )]))
    );
    assert!(check_raw_call("list_history", &Json::Null).is_ok());
}

#[test]
fn the_answer_to_the_request_is_waited_for() {
    assert!(matches!(read_line("\n"), ReadStep::More));
    assert!(matches!(read_line("not json\n"), ReadStep::More));
    assert!(matches!(read_line("{\"id\":7}\n"), ReadStep::More));
    let line = "{\"id\":1,\"result\":{\"content\":[{\"text\":\"a\"},{\"x\":0},{\"text\":\"b\"}]}}\n";
    match read_line(line) {
        ReadStep::Done(response) => {
            assert_eq!(response.concatenated_text, "a\nb");
            assert_eq!(response.full_json, line.trim());
        }
        other => panic!("{:?}", other),
    }
    assert_eq!(end_of_lines().message(), "did not receive a valid response for request id 1");
}

#[test]
fn only_the_answering_line_is_kept() {
    let first = "{\"jsonrpc\":\"2.0\",\"id\":7,\"result\":{}}";
    let second = "{\"jsonrpc\":\"2.0\",\"id\":1,\"result\":{\"content\":[{\"text\":\"ok\"}]}}";
    assert!(matches!(read_line(first), ReadStep::More));
    match read_line(&format!("  {}\n", second)) {
        ReadStep::Done(response) => {
            assert_eq!(response.concatenated_text, "ok");
            assert_eq!(response.full_json, second);
        }
        other => panic!("{:?}", other),
    }
}

#[test]
fn broken_answers_are_told_apart() {
    let e = extract_tool_response(&object(vec![("error", text("boom"))])).unwrap_err();
    assert_eq!(e.message(), "tool error: \"boom\"");
    let e = extract_tool_response(&object(vec![])).unwrap_err();
    assert_eq!(e.message(), "missing result field");
    let e = extract_tool_response(&object(vec![("result", object(vec![]))])).unwrap_err();
    assert_eq!(e.message(), "missing content array");
    let empty = object(vec![("result", object(vec![("content", Json::Array(vec![]))]))]);
    assert_eq!(extract_tool_response(&empty).unwrap(), "<no text content>");
}

fn state() -> BridgeState {
    BridgeState::bootstrap("bridge::StubStatusTool", object(vec![]))
}

#[test]
fn lines_that_are_no_requests_are_skipped() {
    let state = state();
    assert!(matches!(handle_line("", &state), LineAction::Skip));
    assert!(matches!(handle_line("  \t", &state), LineAction::Skip));
    assert!(matches!(handle_line("{", &state), LineAction::Skip));
}

#[test]
fn the_bridge_introduces_itself_and_its_tools() {
    let state = state();
    match handle_line("{\"id\":3,\"method\":\"initialize\"}", &state) {
        LineAction::Answer(answer) => {
            assert_eq!(answer.get("id").and_then(|i| i.as_u64()), Some(3));
            let result = answer.get("result").unwrap();
            assert_eq!(
                result.get("protocolVersion").and_then(|v| v.as_str()).map(|s| s.as_str()),
                Some("2024-11-05")
            );
        }
        other => panic!("{:?}", other),
    }
    match handle_line("{\"id\":\"x\",\"method\":\"tools/list\"}", &state) {
        LineAction::Answer(answer) => {
            let tools = answer.get("result").unwrap().get("tools").unwrap().as_array().unwrap();
            assert_eq!(tools.len(), 1);
            assert_eq!(
                tools[0].get("name").and_then(|n| n.as_str()).map(|s| s.as_str()),
                Some("bridge_status")
            );
            assert_eq!(
                tools[0].get("description").and_then(|n| n.as_str()).map(|s| s.as_str()),
                Some("StubStatusTool (exported)")
            );
        }
        other => panic!("{:?}", other),
    }
}

fn error_of(action: LineAction) -> (u64, String) {
    match action {
        LineAction::Answer(answer) => {
            let error = answer.get("error").unwrap();
            (
                error.get("code").and_then(|c| c.as_u64()).unwrap(),
                error.get("message").and_then(|m| m.as_str()).unwrap().clone(),
            )
        }
        other => panic!("{:?}", other),
    }
}

#[test]
fn calls_that_cannot_be_made_are_refused() {
    let mut state = state();
    assert_eq!(
        error_of(handle_line("{\"method\":\"fly\"}", &state)),
        (400, "Unsupported method: fly".to_string())
    );
    assert_eq!(
        error_of(handle_line("{}", &state)),
        (400, "Unsupported method: <missing>".to_string())
    );
    assert_eq!(
        error_of(handle_line("{\"method\":\"tools/call\"}", &state)),
        (500, "Missing string field 'name'".to_string())
    );
    assert_eq!(
        error_of(handle_line("{\"method\":\"tools/call\",\"params\":{\"name\":\"x\"}}", &state)),
        (500, "Unknown tool 'x'".to_string())
    );
    let line = "{\"id\":5,\"method\":\"tools/call\",\"params\":{\"name\":\"bridge_status\"}}";
    assert_eq!(
        error_of(handle_line(line, &state)),
        (
            500,
            "Bridge not yet fully initialized; tool 'bridge_status' unavailable".to_string()
        )
    );
    state.ready = true;
    match handle_line(line, &state) {
        LineAction::Call { id, call } => {
            assert_eq!(id.as_u64(), Some(5));
            assert_eq!(call.name, "bridge_status");
            assert_eq!(shown(&call.arguments), shown(&object(vec![])));
        }
        other => panic!("{:?}", other),
    }
    assert!(plan_call(&object(vec![("name", text("bridge_status"))]), &state).is_ok());
}

#[test]
fn a_registered_tool_takes_the_place_of_one_of_its_name() {
    let mut state = state();
    state.register(adapt_tool("a", "x::A", ToolKind::Read, Json::Null));
    assert_eq!(state.tools.len(), 2);
    state.register(adapt_tool("a", "x::B", ToolKind::Read, Json::Null));
    assert_eq!(state.tools.len(), 2);
    assert!(state.tools.iter().any(|t| t.description == "B (exported)"));
}

#[test]
fn results_are_shown_as_text_where_they_are_text() {
    let answer = answer_call(Json::Unsigned(1), Ok(invocation_result(text("t"))));
    let content = answer.get("result").unwrap().get("content").unwrap().as_array().unwrap();
    assert_eq!(content.len(), 2);
    let answer = answer_call(Json::Unsigned(1), Ok(invocation_result(status_output())));
    let content = answer.get("result").unwrap().get("content").unwrap().as_array().unwrap();
    assert_eq!(content.len(), 1);
    let answer = answer_call(Json::Null, Err("why".to_string()));
    assert_eq!(error_of(LineAction::Answer(answer)), (500, "why".to_string()));
    assert_eq!(
        input_error("t", "bad", &object(vec![("a", Json::Unsigned(1))])),
        "Failed to deserialize input for tool 't': bad. Raw: {\"a\":1}"
    );
    assert_eq!(
        output_error("t", "bad"),
        "Serialization error for tool 't' output: bad"
    );
    let id = NoopEventStreamProvider.call_id("ls");
    assert!(id.starts_with("mcp-ls-"));
    assert_eq!(id.len(), "mcp-ls-".len() + 36);
}

#[test]
fn executions_are_planned() {
    let mut thread = thread_of(0);
    thread.add_tool("memory");
    let execution = plan_execution(Some(&thread), "memory", None).unwrap();
    assert_eq!(execution.run_id, "memory_exec");
    assert_eq!(shown(&execution.input), shown(&object(vec![])));
    assert!(matches!(
        plan_execution(Some(&thread), "call_context_tool", None),
        Err(ExecutionError::CallContextToolUnavailable)
    ));
    assert!(matches!(
        plan_execution(None, "memory", None),
        Err(ExecutionError::ThreadGone)
    ));
    let e = plan_execution(Some(&thread), "fly", None).unwrap_err();
    assert!(e.message().contains("fly"));
}

#[test]
fn pipes_are_escaped() {
    assert_eq!(escape_pipes("a|b"), "a\\|b");
}

#[test]
fn the_history_is_listed_through_the_server() {
    let thread = thread_of(3);
    let input = ListHistoryToolInput {
        start: 1,
        limit: 50,
        max_chars_per_message: 160,
        include_full_markdown: false,
    };
    let (output, said) = list_history(Some(&thread), &input);
    assert_eq!(output.total_messages, 3);
    assert_eq!(output.messages_shown, 2);
    assert_eq!(output.messages[0].index, 1);
    assert!(output.full_markdown.is_none());
    assert!(said.contains("m1") && said.contains("m2") && !said.contains("m0"));
    let (output, _) = list_history(None, &input);
    assert_eq!(output.total_messages, 0);
    let (output, _) = list_history_unwired(&input);
    assert_eq!(output.messages_shown, 0);
    let all = ListHistoryToolInput { start: 0, include_full_markdown: true, ..input };
    let (output, _) = list_history(Some(&thread), &all);
    assert_eq!(output.full_markdown.unwrap().len(), 3);
}

#[test]
fn the_archive_is_worked_on_through_the_server() {
    let mut thread = thread_of(4);
    let store = MemoryProxyOperation::Store { start: 0, end: 2, summary: None };
    let (output, said) = run_memory_proxy(&mut thread, &store, 3).unwrap();
    assert!(output.success);
    assert_eq!(output.message, "segment stored");
    assert!(said.starts_with("# Stored Memory Segment\n\n```json\n{\n  \"id\": 0,\n"));
    let (output, _) =
        run_memory_proxy(&mut thread, &MemoryProxyOperation::List { limit: None }, 3).unwrap();
    assert_eq!(output.message, "1 segments");
    let (output, said) =
        run_memory_proxy(&mut thread, &MemoryProxyOperation::Stats, 3).unwrap();
    assert_eq!(
        output.stats.unwrap().get("messages").and_then(|m| m.as_u64()),
        Some(2)
    );
    assert!(said.starts_with("# Memory Stats"));
    let load = MemoryProxyOperation::Load { id: 0, include_messages: true };
    let (output, _) = run_memory_proxy(&mut thread, &load, 3).unwrap();
    assert_eq!(output.restored_messages.unwrap().len(), 2);
    let (output, _) =
        run_memory_proxy(&mut thread, &MemoryProxyOperation::Restore { id: 0 }, 3).unwrap();
    assert_eq!(output.message, "segment restored (messages reinserted)");
    assert_eq!(thread.messages.len(), 4);
    let (_, said) =
        run_memory_proxy(&mut thread, &MemoryProxyOperation::Prune { id: 0 }, 3).unwrap();
    assert_eq!(said, "# Pruned Memory Segment\n\nRemoved 0\n");
    let e = run_memory_proxy(&mut thread, &MemoryProxyOperation::Prune { id: 0 }, 3).unwrap_err();
    assert_eq!(e, MemoryProxyError::Memory(MemoryError::NoSegment { id: 0 }));
    let empty = MemoryProxyOperation::Store { start: 2, end: 2, summary: None };
    let e = run_memory_proxy(&mut thread, &empty, 3).unwrap_err();
    assert_eq!(e.message(), "start must be < end");
    let (output, said) = memory_without_thread(&MemoryProxyOperation::Stats);
    assert!(!output.success);
    assert_eq!(output.operation, "stats");
    assert_eq!(said, "# Memory\n\nNo active thread available.");
    let (output, _) = memory_without_thread(&MemoryProxyOperation::Restore { id: 3 });
    assert_eq!(output.operation, "restore { id: 3 }");
}

#[test]
fn context_tools_are_not_wired() {
    let input = object(vec![("a", Json::Bool(true))]);
    let (output, said) = call_context_tool("t", &input);
    assert!(!output.success);
    assert_eq!(
        said,
        "# Call Context Tool\n\nRequested tool: t\nNot yet wired to execution context.\n\
         Input: Object {\"a\": Bool(true)}\n"
    );
    let (output, said) = call_context_tool_unwired("t", &Json::Null);
    assert!(output.message.contains("'t'"));
    assert!(said.ends_with("Input: Null\n"));
}

#[test]
fn clients_are_told_of_the_tools() {
    assert_eq!(ListHistoryMcpTool::name(), "list_history");
    assert_eq!(MemoryProxyMcpTool::name(), "memory");
    assert_eq!(CallContextMcpTool::name(), "call_context_tool");
    let notes = ListHistoryMcpTool::annotations();
    assert_eq!(
        (notes.title, notes.read_only_hint, notes.destructive_hint, notes.idempotent_hint),
        ("List Conversation History", Some(true), Some(false), Some(true))
    );
    assert_eq!(MemoryProxyMcpTool::annotations().destructive_hint, Some(false));
    assert_eq!(CallContextMcpTool::annotations().read_only_hint, None);
}
