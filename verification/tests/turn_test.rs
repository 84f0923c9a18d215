use agent_context::json::Json;
use agent_context::message::{
    AgentMessage, AgentMessageContent, Message, MessageImage, RequestMessage, ToolResultContent,
    ToolUse, UserMessage, UserMessageContent,
};
use agent_context::message::{MessageContent, Role};
use agent_context::retry::{
    handle_completion_error, retry_strategy_for, CompletionFailure, Delay, RetryStatus,
    RetryStrategy,
};
use agent_context::summary::{
    all_first_lines_of, merge_block_text, next_layer_of, single_line_of, ChunkPlan, LineCollector,
    SummaryAction, SummaryError, SummaryEvent, SummaryRun, SummaryStart,
};
use agent_context::thread::{CompletionMode, DbLanguageModel, Model, ModelInfo, ModelUsage, Thread};
use agent_context::tools::ToolKind;
use agent_context::turn::{
    tool_result_of, CompletionError, CompletionEvent, CompletionIntent, EventOutcome, StopReason,
    ToolLook, ToolOutput, ToolStep, TurnEnd, TurnError, TurnProgress, TurnStep, IMAGE_ERROR,
    TOOL_CANCELED_MESSAGE,
};

fn look(title: &str, kind: ToolKind) -> Option<ToolLook> {
    Some(ToolLook { title: title.to_string(), kind })
}

fn thread() -> Thread {
    let model = Model {
        name: DbLanguageModel { provider: "p".to_string(), model: "m".to_string() },
        info: ModelInfo {
            max_tokens: 100,
            max_tokens_in_burn_mode: 200,
            supports_images: false,
        },
    };
    Thread::new("write".to_string(), CompletionMode::Burn, Some(model), None)
}

fn words(t: &str) -> Vec<UserMessageContent> {
    vec![UserMessageContent::Text(t.to_string())]
}

fn call(id: &str, name: &str, complete: bool) -> CompletionEvent {
    CompletionEvent::ToolUse(ToolUse {
        id: id.to_string(),
        name: name.to_string(),
        raw_input: "{}".to_string(),
        input: Json::Object(vec![]),
        is_input_complete: complete,
    })
}

#[test]
fn a_call_is_shown_as_its_tool_presents_it() {
    let mut t = thread();
    let wanted = ToolUse {
        id: "c".to_string(),
        name: "memory".to_string(),
        raw_input: "{}".to_string(),
        input: Json::Bool(true),
        is_input_complete: false,
    };
    let shown = t.show_call(&wanted, look("Memory stats", ToolKind::Read));
    assert_eq!((shown.title.as_str(), shown.kind), ("memory", ToolKind::Other));
    t.add_tool("memory");
    let shown = t.show_call(&wanted, look("Memory stats", ToolKind::Read));
    assert_eq!((shown.id.as_str(), shown.title.as_str()), ("c", "Memory stats"));
    assert_eq!(shown.kind, ToolKind::Read);
    assert!(matches!(shown.input, Json::Bool(true)));
}

#[test]
fn a_turn_needs_a_model_and_a_profile() {
    let mut t = thread();
    assert_eq!(t.send("u".to_string(), words("q"), false), Err(TurnError::NoProfile));
    assert_eq!(TurnError::NoProfile.message(), "Profile not found");
    t.model = None;
    assert_eq!(t.send("v".to_string(), words("q"), true), Err(TurnError::NoModel));
    assert_eq!(t.messages.len(), 1);
    assert_eq!(t.resume(true), Err(TurnError::NoModel));
}

#[test]
fn a_turn_begins_where_the_message_stands() {
    let mut t = thread();
    t.summary = Some("s".to_string());
    assert_eq!(t.send("u".to_string(), words("q"), true), Ok(0));
    assert!(t.running_turn);
    assert_eq!(t.summary, None);
    assert_eq!(t.resume(true), Ok(1));
    assert_eq!(t.messages[1].to_markdown(), "[resume]\n");
    assert!(t.cancel());
    assert!(!t.cancel());
}

#[test]
fn texts_of_the_model_run_together() {
    let mut t = thread();
    t.handle_completion_event(CompletionEvent::Text("a".to_string())).unwrap();
    match t.handle_completion_event(CompletionEvent::Text("b".to_string())).unwrap() {
        EventOutcome::ShowText(shown) => assert_eq!(shown, "b"),
        other => panic!("{:?}", other),
    }
    t.handle_completion_event(CompletionEvent::Thinking {
        text: "h".to_string(),
        signature: None,
    })
    .unwrap();
    t.handle_completion_event(CompletionEvent::Thinking {
        text: "i".to_string(),
        signature: Some("sig".to_string()),
    })
    .unwrap();
    let pending = t.pending_message.as_ref().unwrap();
    assert_eq!(pending.content.len(), 2);
    assert!(matches!(&pending.content[0], AgentMessageContent::Text(s) if s == "ab"));
    assert!(matches!(
        &pending.content[1],
        AgentMessageContent::Thinking { text, signature: Some(s) } if text == "hi" && s == "sig"
    ));
    t.flush_pending_message();
    assert_eq!(t.messages.len(), 1);
    t.flush_pending_message();
    assert_eq!(t.messages.len(), 1);
}

#[test]
fn tool_calls_are_answered_or_run() {
    let mut t = thread();
    match t.handle_completion_event(call("1", "none", true)).unwrap() {
        EventOutcome::ToolCall { is_new: true, step: ToolStep::Answer(result) } => {
            assert!(result.is_error);
            match result.content {
                ToolResultContent::Text(text) => {
                    assert_eq!(text, "No tool named none exists")
                }
                other => panic!("{:?}", other),
            }
        }
        other => panic!("{:?}", other),
    }
    t.add_tool("ls");
    assert!(t.tool("ls") && !t.tool("rm"));
    assert!(matches!(
        t.handle_completion_event(call("2", "ls", false)).unwrap(),
        EventOutcome::ToolCall { is_new: true, step: ToolStep::Wait }
    ));
    assert!(matches!(
        t.handle_completion_event(call("2", "ls", true)).unwrap(),
        EventOutcome::ToolCall { is_new: false, step: ToolStep::Run }
    ));
    assert_eq!(t.pending_message.as_ref().unwrap().content.len(), 2);
    // What was not answered is cancelled.
    t.cancel();
    match &t.messages[0] {
        Message::Agent(m) => {
            assert_eq!(m.tool_results.len(), 2);
            assert!(m.tool_results.iter().any(|r| matches!(
                &r.content,
                ToolResultContent::Text(s) if s == TOOL_CANCELED_MESSAGE
            )));
        }
        other => panic!("{:?}", other),
    }
}

#[test]
fn a_result_is_found_under_its_call() {
    let mut t = thread();
    t.add_tool("ls");
    t.handle_completion_event(call("1", "ls", true)).unwrap();
    let result = tool_result_of(
        "1".to_string(),
        "ls".to_string(),
        Ok(ToolOutput {
            llm_output: ToolResultContent::Text("out".to_string()),
            raw_output: Json::Null,
        }),
        false,
    );
    t.insert_tool_result(result);
    t.flush_pending_message();
    match &t.messages[0] {
        Message::Agent(m) => {
            assert_eq!(m.tool_results.len(), 1);
            assert!(!m.tool_results[0].is_error);
        }
        other => panic!("{:?}", other),
    }
}

#[test]
fn images_are_refused_by_models_that_take_none() {
    let image = || {
        Ok(ToolOutput {
            llm_output: ToolResultContent::Image(MessageImage {
                source: "x".to_string(),
                width: 1,
                height: 1,
            }),
            raw_output: Json::Null,
        })
    };
    let refused = tool_result_of("1".to_string(), "t".to_string(), image(), false);
    assert!(refused.is_error);
    assert!(matches!(refused.content, ToolResultContent::Text(s) if s == IMAGE_ERROR));
    assert!(!tool_result_of("1".to_string(), "t".to_string(), image(), true).is_error);
    let failed =
        tool_result_of("1".to_string(), "t".to_string(), Err("broken".to_string()), true);
    assert!(matches!(failed.content, ToolResultContent::Text(s) if s == "broken"));
}

#[test]
fn a_model_may_stop_for_cause() {
    let mut t = thread();
    assert!(matches!(
        t.handle_completion_event(CompletionEvent::Stop(StopReason::MaxTokens)),
        Err(CompletionError::MaxTokens)
    ));
    assert!(matches!(
        t.handle_completion_event(CompletionEvent::Stop(StopReason::Refusal)),
        Err(CompletionError::Refusal)
    ));
    assert!(t.handle_completion_event(CompletionEvent::Stop(StopReason::EndTurn)).is_ok());
    assert!(t.handle_completion_event(CompletionEvent::ToolUseLimitReached).is_ok());
    assert!(t.tool_use_limit_reached);
}

#[test]
fn the_next_step_of_a_turn() {
    let mut t = thread();
    let mut progress = TurnProgress { attempt: 0, intent: CompletionIntent::UserPrompt };
    assert_eq!(t.finish_request(&mut progress, None, true), (TurnStep::Continue, true));
    assert_eq!(progress.intent, CompletionIntent::ToolResults);
    assert_eq!(t.finish_request(&mut progress, None, false), (TurnStep::EndTurn, true));
    t.set_title("T".to_string());
    t.tool_use_limit_reached = true;
    assert_eq!(
        t.finish_request(&mut progress, None, true),
        (TurnStep::ToolUseLimitReached, false)
    );
    let busy = Some(CompletionFailure::HttpResponseError { status: 429 });
    for (attempt, secs) in [(1, 5), (2, 10), (3, 20), (4, 40)] {
        assert_eq!(
            t.finish_request(&mut progress, busy, false),
            (
                TurnStep::Retry(RetryStatus {
                    attempt,
                    max_attempts: 4,
                    duration: Delay { secs, nanos: 0 },
                }),
                false
            )
        );
    }
    assert_eq!(t.finish_request(&mut progress, busy, false), (TurnStep::Fail, false));
}

#[test]
fn an_answer_that_broke_off_is_resumed() {
    let mut t = thread();
    let mut progress = TurnProgress { attempt: 1, intent: CompletionIntent::ToolResults };
    t.prepare_retry(&mut progress);
    assert!(t.messages.is_empty());
    t.messages.push(Message::Agent(AgentMessage { content: vec![], tool_results: vec![] }));
    t.prepare_retry(&mut progress);
    assert!(matches!(t.messages[1], Message::Resume));
    assert_eq!(progress, TurnProgress { attempt: 1, intent: CompletionIntent::UserPrompt });
}

#[test]
fn a_refused_question_is_taken_back() {
    let mut t = thread();
    let ix = t.send("u".to_string(), words("q"), true).unwrap();
    t.handle_completion_event(CompletionEvent::Text("no".to_string())).unwrap();
    assert_eq!(t.finish_turn(ix, Some(CompletionError::Refusal), false), TurnEnd::Refused);
    assert!(t.messages.is_empty());
    assert!(!t.running_turn);
    assert_eq!(t.finish_turn(0, Some(CompletionError::MaxTokens), false), TurnEnd::OutOfTokens);
    assert_eq!(t.finish_turn(0, None, true), TurnEnd::Failed);
    assert_eq!(t.finish_turn(0, None, false), TurnEnd::Done);
}

#[test]
fn a_thread_is_cut_before_a_message() {
    let mut t = thread();
    t.send("u1".to_string(), words("a"), true).unwrap();
    t.update_token_usage(ModelUsage { input_tokens: 1, ..ModelUsage::none() });
    t.handle_completion_event(CompletionEvent::Text("b".to_string())).unwrap();
    t.send("u2".to_string(), words("c"), true).unwrap();
    t.update_token_usage(ModelUsage { input_tokens: 2, ..ModelUsage::none() });
    assert!(!t.truncate("other"));
    let before = t.messages.len();
    assert!(t.truncate("u2"));
    assert!(t.messages.len() < before);
    assert_eq!(t.request_token_usage.len(), 1);
    assert_eq!(t.request_token_usage[0].0, "u1");
}

#[test]
fn failures_are_retried_as_their_kind_asks() {
    let fixed = |secs, max_attempts| {
        Some(RetryStrategy::Fixed { delay: Delay { secs, nanos: 0 }, max_attempts })
    };
    assert_eq!(
        retry_strategy_for(&CompletionFailure::HttpResponseError { status: 429 }),
        Some(RetryStrategy::ExponentialBackoff {
            initial_delay: Delay { secs: 5, nanos: 0 },
            max_attempts: 4,
        })
    );
    for status in [401, 403, 413] {
        assert_eq!(
            retry_strategy_for(&CompletionFailure::HttpResponseError { status }),
            None
        );
    }
    assert_eq!(
        retry_strategy_for(&CompletionFailure::HttpResponseError { status: 500 }),
        fixed(5, 3)
    );
    assert_eq!(
        retry_strategy_for(&CompletionFailure::HttpResponseError { status: 302 }),
        fixed(5, 2)
    );
    assert_eq!(
        retry_strategy_for(&CompletionFailure::ServerOverloaded {
            retry_after: Some(Delay { secs: 9, nanos: 0 }),
        }),
        fixed(9, 4)
    );
    assert_eq!(
        retry_strategy_for(&CompletionFailure::UpstreamProviderError {
            status: 529,
            retry_after: None,
        }),
        fixed(5, 4)
    );
    assert_eq!(
        retry_strategy_for(&CompletionFailure::UpstreamProviderError {
            status: 418,
            retry_after: None,
        }),
        fixed(5, 2)
    );
    assert_eq!(retry_strategy_for(&CompletionFailure::AuthenticationError), None);
    assert_eq!(retry_strategy_for(&CompletionFailure::PromptTooLarge), None);
    // In normal mode nothing is retried.
    let overloaded = CompletionFailure::ServerOverloaded { retry_after: None };
    assert_eq!(handle_completion_error(CompletionMode::Normal, &overloaded, 1), None);
    assert!(handle_completion_error(CompletionMode::Burn, &overloaded, 4).is_some());
    assert_eq!(handle_completion_error(CompletionMode::Burn, &overloaded, 5), None);
}

fn strings(all: &[&str]) -> Vec<String> {
    all.iter().map(|s| s.to_string()).collect()
}

#[test]
fn a_title_is_one_line() {
    assert_eq!(single_line_of(&strings(&["My ", "title\nmore", "never"])), "My title");
    assert_eq!(single_line_of(&strings(&["A", "B"])), "AB");
    assert_eq!(all_first_lines_of(&strings(&["a\nx", "b"])), "ab");
    let mut collector = LineCollector::new();
    assert!(collector.push("one"));
    assert!(!collector.push(" line\nrest"));
    assert!(!collector.push("x"));
    assert_eq!(collector.kept, "one line");
}

#[test]
fn chunks_cover_the_conversation() {
    // Three messages fit at a time; two neighbours share one.
    let mut plan = ChunkPlan::new(5);
    while !plan.done {
        let fits = plan.end - plan.start < 3;
        plan.step(fits);
    }
    assert_eq!(plan.chunks, vec![(0, 3), (2, 5)]);
    let mut plan = ChunkPlan::new(1);
    plan.step(false);
    assert!(plan.done);
    assert_eq!(plan.chunks, vec![(0, 1)]);
}

#[test]
fn every_plan_of_chunks_ends() {
    // Nothing fits: each message is a chunk of its own.
    let mut plan = ChunkPlan::new(4);
    let mut steps = 0;
    while !plan.done && steps < 24 {
        plan.step(false);
        steps += 1;
    }
    assert!(plan.done);
    assert_eq!(plan.chunks, vec![(0, 1), (1, 2), (2, 3), (3, 4)]);
}

#[test]
fn layers_are_joined_in_pairs() {
    assert_eq!(next_layer_of(&strings(&["a", "b", "c"])), vec!["a\n\nb", "c"]);
    assert_eq!(next_layer_of(&strings(&["a"])), vec!["a"]);
    let block = merge_block_text(&strings(&["a", "b"]));
    assert!(block.contains("a") && block.contains("b"));
}

fn request(t: &str) -> RequestMessage {
    RequestMessage {
        role: Role::User,
        content: vec![MessageContent::Text(t.to_string())],
        cache: false,
    }
}

#[test]
fn a_short_conversation_is_summarised_at_once() {
    let (mut run, action) = SummaryRun::new(vec![request("a")], "p".to_string(), 10);
    assert!(matches!(action, SummaryAction::Count(_)));
    match run.step(SummaryEvent::Counted(Some(10))) {
        Some(SummaryAction::Summarize(requests)) => assert_eq!(requests.len(), 2),
        other => panic!("{:?}", other),
    }
    match run.step(SummaryEvent::Summarized(Some("s".to_string()))) {
        Some(SummaryAction::Finish(s)) => assert_eq!(s, "s"),
        other => panic!("{:?}", other),
    }
    // Nothing is waited for any more.
    assert!(run.step(SummaryEvent::Counted(None)).is_none());
}

#[test]
fn a_long_conversation_is_summarised_in_parts() {
    let all = vec![request("a"), request("b"), request("c")];
    let (mut run, _) = SummaryRun::new(all, "p".to_string(), 10);
    // Too long as a whole; two messages fit.
    assert!(matches!(
        run.step(SummaryEvent::Counted(Some(30))),
        Some(SummaryAction::Count(_))
    ));
    run.step(SummaryEvent::Counted(Some(5)));
    run.step(SummaryEvent::Counted(Some(10)));
    run.step(SummaryEvent::Counted(Some(15)));
    run.step(SummaryEvent::Counted(Some(5)));
    match run.step(SummaryEvent::Counted(Some(10))) {
        Some(SummaryAction::SummarizeEach(parts)) => assert_eq!(parts.len(), 2),
        other => panic!("{:?}", other),
    }
    assert!(matches!(
        run.step(SummaryEvent::SummarizedEach(vec![Some("x".to_string()), None])),
        Some(SummaryAction::Count(_))
    ));
    assert!(matches!(
        run.step(SummaryEvent::Counted(Some(99))),
        Some(SummaryAction::Summarize(_))
    ));
    match run.step(SummaryEvent::Summarized(None)) {
        Some(SummaryAction::Fail(e)) => assert_eq!(e, SummaryError::RequestFailed),
        other => panic!("{:?}", other),
    }
}

#[test]
fn a_summary_fails_where_every_part_does() {
    let (mut run, _) = SummaryRun::new(vec![request("a")], "p".to_string(), 10);
    run.step(SummaryEvent::Counted(Some(30)));
    run.step(SummaryEvent::Counted(None));
    match run.step(SummaryEvent::SummarizedEach(vec![None])) {
        Some(SummaryAction::Fail(e)) => {
            assert_eq!(e, SummaryError::AllChunksFailed);
            assert!(!e.message("why").is_empty());
        }
        other => panic!("{:?}", other),
    }
}

#[test]
fn a_summary_puts_the_archive_back_and_rebuilds_it() {
    let mut t = thread();
    for i in 0..4 {
        t.messages.push(Message::User(UserMessage {
            id: format!("u{}", i),
            content: words("hello"),
        }));
    }
    t.store_memory_segment_with_summary(0, 2, Some("old"), 1).unwrap();
    match t.begin_summary() {
        SummaryStart::Fail(e) => assert_eq!(e, SummaryError::NoModel),
        other => panic!("{:?}", other),
    }
    t.set_summarization_model(true);
    let ranges = match t.begin_summary() {
        SummaryStart::Run { requests, ranges } => {
            assert_eq!(requests.len(), 4);
            ranges
        }
        other => panic!("{:?}", other),
    };
    assert_eq!(t.messages.len(), 4);
    t.finish_summary(ranges, "new".to_string(), 2);
    assert_eq!(t.messages.len(), 2);
    assert_eq!(t.memory_segments[0].summary, "old");
    match t.begin_summary() {
        SummaryStart::Ready(s) => assert_eq!(s, "new"),
        other => panic!("{:?}", other),
    }
}
