use agent_context::active_thread::GlobalActiveThread;
use agent_context::authorization::{Permission, PermissionOptionKind, ToolCallEventStream};
use agent_context::completion::{
    block_of_content, content_of_block, system_prompt_token_count_heuristic, ContentBlock,
    OfferedTool, ReplayEvent,
};
use agent_context::ids::PromptId;
use agent_context::json::Json;
use agent_context::markdown::{code_block_text, codeblock_tag, inline_code_text};
use agent_context::message::{
    AgentMessage, AgentMessageContent, LineRange, MentionUri, Message, MessageContent,
    MessageImage, Role, ToolResult, ToolResultContent, ToolUse, UserMessage, UserMessageContent,
};
use agent_context::project_snapshot::{worktree_snapshot, ProjectSnapshot, Repository};
use agent_context::request::{EMPTY_TOOL_RESULT, RESUME_TEXT};
use agent_context::thread::{
    CompletionMode, DbLanguageModel, Model, ModelInfo, ModelUsage, Thread, TitleUpdated,
    TokenUsage, TokenUsageUpdated,
};
use agent_context::token_usage::{
    heuristic_per_message, heuristic_token_count, precise_per_message_tokens,
    precise_per_message_tokens_batched, precise_per_message_tokens_try, precise_tokens_for_slice,
    precise_tokens_for_slice_try, TokenCountError,
};
use agent_context::tools::ToolKind;
use agent_context::turn::{CompletionIntent, TurnError};

fn text(t: &str) -> UserMessageContent {
    UserMessageContent::Text(t.to_string())
}

fn said(id: &str, t: &str) -> Message {
    Message::User(UserMessage { id: id.to_string(), content: vec![text(t)] })
}

fn answered(t: &str) -> Message {
    Message::Agent(AgentMessage {
        content: vec![AgentMessageContent::Text(t.to_string())],
        tool_results: vec![],
    })
}

fn info() -> ModelInfo {
    ModelInfo { max_tokens: 1000, max_tokens_in_burn_mode: 4000, supports_images: true }
}

fn model(name: &str) -> Model {
    Model {
        name: DbLanguageModel { provider: "zed.dev".to_string(), model: name.to_string() },
        info: info(),
    }
}

fn empty() -> Thread {
    Thread::new("write".to_string(), CompletionMode::Normal, Some(model("large")), None)
}

fn usage(input: u64, output: u64) -> ModelUsage {
    ModelUsage {
        input_tokens: input,
        output_tokens: output,
        cache_creation_input_tokens: 3,
        cache_read_input_tokens: 4,
    }
}

fn is_v4(id: &str) -> bool {
    let parts: Vec<&str> = id.split('-').collect();
    parts.iter().map(|p| p.len()).collect::<Vec<_>>() == vec![8, 4, 4, 4, 12]
        && parts[2].starts_with('4')
        && id.chars().all(|c| c == '-' || c.is_ascii_hexdigit())
}

#[test]
fn a_new_thread_is_empty() {
    let thread = empty();
    assert!(thread.is_empty());
    assert_eq!(thread.title(), "New Thread");
    assert_eq!(thread.profile(), "write");
    assert_eq!(thread.completion_mode(), CompletionMode::Normal);
    assert!(is_v4(thread.id()));
    assert_ne!(thread.id(), empty().id());
    assert!(thread.last_message().is_none());
    assert!(!thread.summarization_model());
    let mut thread = thread;
    thread.set_profile("ask".to_string());
    assert_eq!(thread.profile(), "ask");
    assert_eq!(thread.model(), Some(info()));
}

#[test]
fn prompts_have_identifiers_of_their_own() {
    let a = PromptId::new();
    assert!(is_v4(&a.to_text()));
    assert_ne!(a, PromptId::new());
    let mut thread = empty();
    let before = thread.prompt_id.to_text();
    thread.advance_prompt_id();
    assert_ne!(thread.prompt_id.to_text(), before);
}

#[test]
fn a_title_is_news_once() {
    let mut thread = empty();
    assert_eq!(thread.set_title("A".to_string()), Some(TitleUpdated));
    assert_eq!(thread.set_title("A".to_string()), None);
    assert_eq!(thread.title(), "A");
    assert!(!thread.is_empty());
}

#[test]
fn a_title_is_asked_of_a_model() {
    let mut thread = empty();
    thread.messages.push(said("u", "hi"));
    assert!(thread.generate_title("title?", "summary?", 0).is_none());
    thread.set_summarization_model(true);
    let start = thread.generate_title("title?", "summary?", 0).unwrap();
    assert!(thread.pending_title_generation);
    assert_eq!(start.requests.len(), 2);
    match &start.requests[1].content[0] {
        MessageContent::Text(t) => assert_eq!(t, "title?"),
        other => panic!("{:?}", other),
    }
    let (requests, ranges) = start.summary.unwrap();
    assert_eq!(requests.len(), 2);
    assert!(ranges.is_empty());
    assert_eq!(thread.finish_title(None), None);
    assert!(!thread.pending_title_generation);
    assert_eq!(thread.title(), "New Thread");
    thread.summary = Some("known".to_string());
    let start = thread.generate_title("title?", "summary?", 0).unwrap();
    assert!(start.summary.is_none());
    assert_eq!(thread.finish_title(Some("T".to_string())), Some(TitleUpdated));
    assert_eq!(thread.title(), "T");
}

#[test]
fn a_thread_comes_back_from_the_database() {
    let snapshot = ProjectSnapshot {
        worktree_snapshots: vec![worktree_snapshot(
            Some("/w".to_string()),
            Some(Repository {
                current_branch: Some("main".to_string()),
                local: true,
                remote_url: Some("r".to_string()),
                head_sha: Some("h".to_string()),
                diff: None,
            }),
        )],
        timestamp_ms: 12,
    };
    let mut thread = Thread::new(
        "ask".to_string(),
        CompletionMode::Burn,
        Some(model("large")),
        Some(snapshot),
    );
    thread.messages.push(said("u1", "hi"));
    thread.update_token_usage(usage(10, 20));
    thread.set_title("T".to_string());
    thread.summary = Some("S".to_string());
    let db = thread.to_db();
    assert_eq!(db.title, "T");
    assert_eq!(db.profile, Some("ask".to_string()));
    assert_eq!(db.model.as_ref().unwrap().model, "large");
    assert_eq!(db.updated_at_ms, thread.updated_at_ms);
    assert!(db.updated_at_ms > 0);
    let back = Thread::from_db(
        "id".to_string(),
        db,
        Some(model("large")),
        Some(model("small")),
        "default".to_string(),
    );
    assert_eq!(back.id(), "id");
    assert_eq!(back.title(), "T");
    assert_eq!(back.profile(), "ask");
    assert_eq!(back.completion_mode(), CompletionMode::Burn);
    assert_eq!(back.summary, Some("S".to_string()));
    assert_eq!(back.to_markdown(), thread.to_markdown());
    assert_eq!(back.model_name.as_ref().unwrap().model, "large");
    assert_eq!(back.updated_at_ms, thread.updated_at_ms);
    assert_eq!(back.request_token_usage, vec![("u1".to_string(), usage(10, 20))]);
    let git = back.initial_project_snapshot.as_ref().unwrap().worktree_snapshots[0]
        .git_state
        .as_ref()
        .unwrap();
    assert_eq!(git.current_branch, Some("main".to_string()));
}

#[test]
fn a_thread_without_a_known_model_takes_the_default() {
    let mut db = empty().to_db();
    db.profile = None;
    db.completion_mode = None;
    db.title = String::new();
    let back = Thread::from_db(
        "id".to_string(),
        db,
        None,
        Some(model("small")),
        "default".to_string(),
    );
    assert_eq!(back.model_name.as_ref().unwrap().model, "small");
    assert_eq!(back.profile(), "default");
    assert_eq!(back.completion_mode(), CompletionMode::Normal);
    assert!(back.is_empty());
}

#[test]
fn of_a_repository_elsewhere_only_the_branch_is_known() {
    let snapshot = worktree_snapshot(
        Some("/w".to_string()),
        Some(Repository {
            current_branch: Some("b".to_string()),
            local: false,
            remote_url: Some("r".to_string()),
            head_sha: None,
            diff: None,
        }),
    );
    let git = snapshot.git_state.unwrap();
    assert_eq!((git.current_branch, git.remote_url), (Some("b".to_string()), None));
    let gone = worktree_snapshot(None, None);
    assert_eq!(gone.worktree_path, "");
    assert!(gone.git_state.is_none());
}

#[test]
fn usage_is_kept_under_the_last_user_message() {
    let mut thread = empty();
    assert_eq!(thread.update_token_usage(usage(1, 1)), None);
    thread.messages.push(said("u1", "a"));
    let expected = TokenUsage { max_tokens: 1000, used_tokens: 37 };
    assert_eq!(
        thread.update_token_usage(usage(10, 20)),
        Some(TokenUsageUpdated(Some(expected)))
    );
    thread.update_token_usage(usage(11, 20));
    assert_eq!(thread.request_token_usage.len(), 1);
    assert_eq!(thread.latest_token_usage().unwrap().used_tokens, 38);
    assert_eq!(
        thread.set_completion_mode(CompletionMode::Burn),
        Some(TokenUsageUpdated(Some(TokenUsage { max_tokens: 4000, used_tokens: 38 })))
    );
    assert_eq!(thread.set_completion_mode(CompletionMode::Burn), None);
    let (updated, capabilities) = thread.set_model(Model {
        name: DbLanguageModel { provider: "p".to_string(), model: "m".to_string() },
        info: ModelInfo { supports_images: false, ..info() },
    });
    assert_eq!(updated, None);
    assert!(!capabilities.image && !capabilities.audio && capabilities.embedded_context);
    assert!(Thread::prompt_capabilities(&None).image);
    let most = ModelUsage { input_tokens: u64::MAX, ..usage(0, 1) };
    assert_eq!(most.total_tokens(), u64::MAX);
    assert_eq!(ModelUsage::none().total_tokens(), 0);
}

#[test]
fn the_active_thread_is_the_one_set_last() {
    let mut active = GlobalActiveThread::init_active_thread();
    assert_eq!(active.active_thread(), None);
    active.set_active_thread(Some("a".to_string()));
    assert_eq!(active.active_thread(), Some("a".to_string()));
    active.set_active_thread(None);
    assert_eq!(active.active_thread(), None);
}

#[test]
fn permission_is_asked_and_answered() {
    let stream = ToolCallEventStream { tool_use_id: "t".to_string(), can_keep: true };
    assert!(stream.authorize("Run".to_string(), true).is_none());
    let asked = stream.authorize("Run".to_string(), false).unwrap();
    assert_eq!((asked.tool_call_id.as_str(), asked.title.as_str()), ("t", "Run"));
    let offered: Vec<(&str, &str, PermissionOptionKind)> =
        asked.options.iter().map(|o| (o.id, o.name, o.kind)).collect();
    assert_eq!(
        offered,
        vec![
            ("always_allow", "Always Allow", PermissionOptionKind::AllowAlways),
            ("allow", "Allow", PermissionOptionKind::AllowOnce),
            ("deny", "Deny", PermissionOptionKind::RejectOnce),
        ]
    );
    assert_eq!(stream.answered("always_allow"), Permission::GrantedAndKept);
    assert_eq!(stream.answered("allow"), Permission::Granted);
    assert_eq!(stream.answered("deny"), Permission::Denied);
    assert_eq!(stream.answered("else"), Permission::Denied);
    let stream = ToolCallEventStream { tool_use_id: "t".to_string(), can_keep: false };
    assert_eq!(stream.answered("always_allow"), Permission::Granted);
}

#[test]
fn code_is_set_between_enough_ticks() {
    assert_eq!(inline_code_text("ls"), "`ls`");
    assert_eq!(inline_code_text("a `b` c"), "``a `b` c``");
    assert_eq!(code_block_text("rs", "x"), "```rs\nx\n```\n");
    assert_eq!(codeblock_tag("/a/b.rs", None), "rs /a/b.rs");
    assert_eq!(
        codeblock_tag("/a/b.rs", Some(LineRange { start: 2, end: 4 })),
        "rs /a/b.rs:3-5"
    );
    assert_eq!(
        codeblock_tag("/a/b.rs", Some(LineRange { start: 2, end: 2 })),
        "rs /a/b.rs:3"
    );
}

fn tool_use(id: &str) -> ToolUse {
    ToolUse {
        id: id.to_string(),
        name: "ls".to_string(),
        raw_input: "{}".to_string(),
        input: Json::Object(vec![]),
        is_input_complete: true,
    }
}

fn result(id: &str, content: &str) -> ToolResult {
    ToolResult {
        tool_use_id: id.to_string(),
        tool_name: "ls".to_string(),
        is_error: false,
        content: ToolResultContent::Text(content.to_string()),
        output: None,
    }
}

#[test]
fn an_answer_makes_two_requests_where_tools_ran() {
    let m = AgentMessage {
        content: vec![
            AgentMessageContent::Text("t".to_string()),
            AgentMessageContent::ToolUse(tool_use("1")),
            AgentMessageContent::ToolUse(tool_use("2")),
        ],
        tool_results: vec![result("1", "")],
    };
    let requests = m.to_request();
    assert_eq!(requests.len(), 2);
    assert_eq!((requests[0].role, requests[1].role), (Role::Assistant, Role::User));
    // A call that has no result is left out.
    assert_eq!(requests[0].content.len(), 2);
    match &requests[1].content[0] {
        MessageContent::ToolResult(r) => match &r.content {
            ToolResultContent::Text(t) => assert_eq!(t, EMPTY_TOOL_RESULT),
            other => panic!("{:?}", other),
        },
        other => panic!("{:?}", other),
    }
    let resumed = Message::Resume.to_request();
    match &resumed[0].content[0] {
        MessageContent::Text(t) => assert_eq!(t, RESUME_TEXT),
        other => panic!("{:?}", other),
    }
    assert_eq!(Message::Resume.to_markdown(), "[resume]\n");
    assert_eq!(Message::Resume.role(), Role::User);
    assert!(answered("x").as_agent_message().is_some());
    assert!(Message::Resume.as_agent_message().is_none());
}

#[test]
fn mentions_are_put_into_a_context() {
    let m = UserMessage {
        id: "u".to_string(),
        content: vec![
            text("look"),
            UserMessageContent::Mention {
                uri: MentionUri::File { abs_path: "/a/b.rs".to_string() },
                link: "[@b.rs](file:///a/b.rs)".to_string(),
                content: "fn x() {}".to_string(),
            },
            UserMessageContent::Mention {
                uri: MentionUri::Fetch { url: "http://e".to_string() },
                link: "[@e](http://e)".to_string(),
                content: "page".to_string(),
            },
        ],
    };
    assert_eq!(
        m.to_markdown(),
        "## User\n\nlook\n[@b.rs](file:///a/b.rs)\n\nfn x() {}\n[@e](http://e)\n\npage\n"
    );
    let request = m.to_request();
    let all: Vec<String> = request
        .content
        .iter()
        .map(|c| match c {
            MessageContent::Text(t) => t.clone(),
            other => panic!("{:?}", other),
        })
        .collect();
    assert_eq!(all[0], "look");
    assert_eq!(all[1], "[@b.rs](file:///a/b.rs)");
    assert_eq!(all[2], "[@e](http://e)");
    assert!(all[3].starts_with("<context>\nThe following items were attached by the user."));
    let whole = all[3..].concat();
    assert!(whole.contains("<files>\n```rs /a/b.rs\nfn x() {}\n```\n"));
    assert!(whole.contains("<fetched_urls>\nFetch: http://e\n\npage"));
    assert!(whole.contains("</context>"));
    assert!(!whole.contains("<symbols>"));
}

#[test]
fn the_markdown_of_a_thread_joins_its_messages() {
    let mut thread = empty();
    thread.messages.push(said("u", "q"));
    thread.messages.push(answered("a"));
    assert_eq!(thread.to_markdown(), "## User\n\nq\n\n## Assistant\n\na\n");
    thread.pending_message = Some(AgentMessage {
        content: vec![AgentMessageContent::Text("b".to_string())],
        tool_results: vec![],
    });
    assert_eq!(
        thread.to_markdown(),
        "## User\n\nq\n\n## Assistant\n\na\n\n## Assistant\n\nb\n"
    );
    assert_eq!(thread.last_message().unwrap().to_markdown(), "## Assistant\n\nb\n");
}

#[test]
fn a_request_holds_the_prompt_and_the_messages() {
    let mut thread = empty();
    thread.messages.push(said("u", "q"));
    let tools = vec![
        OfferedTool {
            name: "ls".to_string(),
            description: "d".to_string(),
            input_schema: Some(Json::Null),
        },
        OfferedTool { name: "no".to_string(), description: "d".to_string(), input_schema: None },
    ];
    let request = thread
        .build_completion_request(CompletionIntent::UserPrompt, "system", &tools)
        .unwrap();
    assert_eq!(request.messages.len(), 2);
    assert_eq!(request.messages[0].role, Role::System);
    assert!(request.messages[1].cache);
    assert!(request.tools.is_empty());
    thread.running_turn = true;
    let request = thread
        .build_completion_request(CompletionIntent::UserPrompt, "system", &tools)
        .unwrap();
    assert_eq!(request.tools.len(), 1);
    assert_eq!(&request.thread_id, thread.id());
    thread.model = None;
    let e = thread
        .build_completion_request(CompletionIntent::UserPrompt, "system", &tools)
        .unwrap_err();
    assert_eq!(e, TurnError::NoModel);
    assert_eq!(e.message(), "No language model configured");
}

#[test]
fn counted_tokens_are_news_where_they_differ() {
    let mut thread = empty();
    thread.messages.push(said("u", "1234"));
    thread.messages.push(answered("12345678"));
    let requests = thread.requests_to_count().unwrap();
    assert_eq!(requests.len(), 2);
    let counted = vec![Ok(5), Err("no".to_string())];
    assert!(thread.take_precise_usage(&requests, &counted, 1000));
    // The second prefix is estimated: twelve characters at four to a token.
    assert_eq!(thread.precise_per_message_tokens, Some(vec![5, 0]));
    assert_eq!(thread.precise_active_tokens, Some(3));
    assert!(!thread.take_precise_usage(&requests, &counted, 1000));
    assert!(thread.take_precise_usage(&requests, &vec![Ok(5), Ok(9)], 1000));
    assert_eq!(thread.precise_per_message_tokens, Some(vec![5, 4]));
    assert_eq!(thread.precise_active_tokens, Some(9));
    thread.model = None;
    assert!(thread.requests_to_count().is_none());
}

#[test]
fn tokens_are_estimated_from_characters() {
    let thread = {
        let mut t = empty();
        t.messages.push(said("u", "12345678"));
        t.messages.push(answered("1"));
        t
    };
    let requests = thread.requests_to_count().unwrap();
    assert_eq!(heuristic_token_count(&requests), 2);
    assert_eq!(heuristic_per_message(&requests), vec![2, 1]);
    assert_eq!(heuristic_token_count(&vec![]), 1);
    assert_eq!(system_prompt_token_count_heuristic("12345678"), 2);
    assert_eq!(precise_tokens_for_slice(&requests, &Ok(7)), 7);
    assert_eq!(precise_tokens_for_slice(&requests, &Ok(0)), 2);
    assert_eq!(precise_tokens_for_slice(&requests, &Err("e".to_string())), 2);
    assert_eq!(precise_tokens_for_slice(&vec![], &Ok(7)), 0);
    assert_eq!(precise_tokens_for_slice_try(&requests, &Ok(7)).unwrap(), 7);
    assert!(matches!(
        precise_tokens_for_slice_try(&requests, &Ok(0)),
        Err(TokenCountError::ZeroForSlice)
    ));
    assert!(matches!(
        precise_tokens_for_slice_try(&requests, &Err("e".to_string())),
        Err(TokenCountError::Model(_))
    ));
    assert_eq!(precise_per_message_tokens_try(&vec![Ok(3), Ok(8)]).unwrap(), vec![3, 5]);
    assert!(matches!(
        precise_per_message_tokens_try(&vec![Ok(3), Ok(0)]),
        Err(TokenCountError::ZeroForPrefix(1))
    ));
    let counted = vec![Ok(3), Ok(8)];
    assert_eq!(precise_per_message_tokens(&requests, &counted), (vec![3, 5], 8));
    assert_eq!(
        precise_per_message_tokens_batched(&requests, &counted, 1).unwrap(),
        (vec![3, 5], 8)
    );
    assert!(matches!(
        precise_per_message_tokens_batched(&requests, &counted, 0),
        Err(TokenCountError::EmptyBatch)
    ));
}

#[test]
fn a_thread_is_shown_again() {
    let mut thread = empty();
    thread.messages.push(said("u", "q"));
    thread.messages.push(Message::Agent(AgentMessage {
        content: vec![
            AgentMessageContent::Thinking { text: "h".to_string(), signature: None },
            AgentMessageContent::RedactedThinking("x".to_string()),
            AgentMessageContent::ToolUse(tool_use("1")),
        ],
        tool_results: vec![result("1", "r")],
    }));
    thread.messages.push(Message::Resume);
    let events = thread.replay(&vec!["ls".to_string()]);
    assert!(matches!(&events[0], ReplayEvent::UserMessage(id) if id == "u"));
    assert!(matches!(&events[1], ReplayEvent::AgentThinking(t) if t == "h"));
    assert!(matches!(events.last(), Some(ReplayEvent::ToolCall { failed: false, .. })));
    let events = thread.replay(&vec![]);
    assert!(matches!(events.last(), Some(ReplayEvent::UnknownToolCall { .. })));
    let shown = events.last().unwrap().shown(None).unwrap();
    assert_eq!(shown.kind, ToolKind::Other);
    assert!(events[0].shown(None).is_none());
}

#[test]
fn content_comes_from_blocks_and_goes_back() {
    match content_of_block(ContentBlock::Text("t".to_string())) {
        UserMessageContent::Text(t) => assert_eq!(t, "t"),
        other => panic!("{:?}", other),
    }
    match content_of_block(ContentBlock::Audio) {
        UserMessageContent::Text(t) => assert_eq!(t, "[audio]"),
        other => panic!("{:?}", other),
    }
    match content_of_block(ContentBlock::BlobResource) {
        UserMessageContent::Text(t) => assert_eq!(t, "[blob]"),
        other => panic!("{:?}", other),
    }
    match content_of_block(ContentBlock::ResourceLink {
        name: "n".to_string(),
        uri: "u".to_string(),
        mention: None,
    }) {
        UserMessageContent::Text(t) => assert_eq!(t, "[n](u)"),
        other => panic!("{:?}", other),
    }
    match block_of_content(&text("t"), "") {
        ContentBlock::Text(t) => assert_eq!(t, "t"),
        other => panic!("{:?}", other),
    }
    let image = UserMessageContent::Image(MessageImage {
        source: "data".to_string(),
        width: 1,
        height: 2,
    });
    match block_of_content(&image, "") {
        ContentBlock::Image { data } => assert_eq!(data, "data"),
        other => panic!("{:?}", other),
    }
}
