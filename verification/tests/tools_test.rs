use std::collections::HashSet;

use agent_context::json::Json;
use agent_context::memory::MemoryError;
use agent_context::message::{Message, UserMessage, UserMessageContent};
use agent_context::templates::{contains, stands_alone, ProjectContext, SystemPromptTemplate};
use agent_context::thread::{CompletionMode, DbLanguageModel, Model, ModelInfo, Thread, TokenUsage};
use agent_context::tools::analyze_images_tool::{
    bytes_format, check_image_file, default_show_thumbnails, extension_format, image_place, AnalysisEvent, AnalysisStep,
    AnalyzeError, AnalyzeImagesInput, AnalyzeImagesTool, ImageError, ImageFormat, ImagePlace,
    OutputFormat,
};
use agent_context::tools::chat_tools::{
    adapter_missing, retrieval_mode, show_value, ChatGetInput, ChatGetTool, ChatSearchInput,
    ChatSearchTool, RetrievalMode,
};
use agent_context::tools::detect_binaries_tool::{
    after_attempt, build_effective_groups, default_max_concurrency, default_version_timeout_ms,
    is_executable, report_of, version_argument, version_line, DetectBinariesSettings,
    DetectBinariesTool, DetectBinariesToolInput, ProbeError, ProbeStep,
};
use agent_context::tools::enhanced_terminal_tool::{
    directory_candidates, prepare_command, process_command_output, resolve_shell_path,
    resolve_working_directory, shell_candidates, timeout_message, DirectoryError,
    EnhancedTerminalTool, EnhancedTerminalToolInput, Root,
};
use agent_context::tools::list_history_tool::{
    clamp, default_limit, default_max_chars, ListHistoryTool, ListHistoryToolInput,
};
use agent_context::tools::memory_tool::{
    MemoryAction, MemoryAgentTool, MemoryToolError, MemoryToolInput,
};
use agent_context::tools::precise_token_tool::{
    PreciseTokenPlan, PreciseTokenTool, PreciseTokenToolInput,
};
use agent_context::tools::project_info_tool::{
    ProjectInfoAction, ProjectInfoChange, ProjectInfoTool, ProjectInfoToolInput,
};
use agent_context::tools::registry::{
    default_tool_names, enabled_tools, OwnTool, ServerTool, MAX_TOOL_NAME_LENGTH,
};
use agent_context::tools::rewrite_history_tool::{
    RewriteHistoryTool, RewriteHistoryToolInput, RewriteStrategy,
};
use agent_context::tools::shell_detector_tool::{
    common_shell_paths, detect_available_shells, format_shell_output, ShellType,
};
use agent_context::tools::token_usage_tool::{TokenUsageTool, TokenUsageToolInput};
use agent_context::tools::ToolKind;

#[test]
fn unified_context_tools_present_in_agent2_default_registry() {
    let names: Vec<&'static str> = default_tool_names();

    assert!(
        names.contains(&"memory"),
        "memory tool should be in agent2::default_tool_names() after native integration"
    );
    assert!(
        names.contains(&"list_history"),
        "list_history tool should be in agent2::default_tool_names()"
    );
}

#[test]
fn default_tool_names_are_unique() {
    let names: Vec<&'static str> = default_tool_names();
    let set: HashSet<&'static str> = names.iter().copied().collect();
    assert_eq!(
        names.len(),
        set.len(),
        "default_tool_names() contained duplicates: {:?}",
        names
    );
}

fn strings(all: &[&str]) -> Vec<String> {
    all.iter().map(|s| s.to_string()).collect()
}

fn message(i: usize, t: &str) -> Message {
    Message::User(UserMessage {
        id: format!("u{}", i),
        content: vec![UserMessageContent::Text(t.to_string())],
    })
}

fn thread_of(texts: &[&str]) -> Thread {
    let model = Model {
        name: DbLanguageModel { provider: "p".to_string(), model: "m".to_string() },
        info: ModelInfo { max_tokens: 100, max_tokens_in_burn_mode: 200, supports_images: true },
    };
    let mut thread =
        Thread::new("write".to_string(), CompletionMode::Normal, Some(model), None);
    for (i, t) in texts.iter().enumerate() {
        thread.messages.push(message(i, t));
    }
    thread
}

#[test]
fn tools_are_added_once_and_removed() {
    let mut thread = thread_of(&[]);
    thread.add_default_tools();
    let n = thread.tools.len();
    let mut sorted = thread.tools.clone();
    sorted.sort();
    assert_eq!(sorted, thread.tools);
    thread.add_tool("memory");
    assert_eq!(thread.tools.len(), n);
    thread.add_tool("zzz");
    assert_eq!(thread.tools.len(), n + 1);
    assert!(thread.remove_tool("zzz"));
    assert!(!thread.remove_tool("zzz"));
}

#[test]
fn names_of_server_tools_are_told_apart() {
    let own = |name: &str, supported, enabled, id| OwnTool {
        name: name.to_string(),
        supported,
        enabled,
        id,
    };
    let server = |server_id: &str, name: &str, enabled, id| ServerTool {
        server_id: server_id.to_string(),
        name: name.to_string(),
        enabled,
        id,
    };
    let offered = enabled_tools(
        &vec![own("a", true, true, 1), own("b", false, true, 2), own("c", true, false, 3)],
        &vec![
            server("s1", "a", true, 4),
            server("s1", "x", true, 5),
            server("s2", "x", true, 6),
            server("s2", "off", false, 7),
        ],
    );
    let mut names: Vec<(String, u64)> = offered;
    names.sort();
    let mut expected = vec![
        ("a".to_string(), 1),
        ("s1_a".to_string(), 4),
        ("s1_x".to_string(), 5),
        ("s2_x".to_string(), 6),
    ];
    expected.sort();
    assert_eq!(names, expected);
    assert!(names.iter().all(|(n, _)| n.len() <= MAX_TOOL_NAME_LENGTH));
}

#[test]
fn the_history_is_listed_in_pages() {
    let thread = thread_of(&["zero", "one", "two"]);
    let input = ListHistoryToolInput {
        start: 1,
        limit: 1,
        max_chars_per_message: 4000,
        include_full_markdown: false,
    };
    let said = ListHistoryTool::run(&thread.messages, &input);
    assert!(said.contains("one") && !said.contains("zero") && !said.contains("two"));
    assert_eq!(default_limit(), 40);
    assert_eq!(default_max_chars(), 160);
    assert_eq!((clamp(0, 1, 9), clamp(5, 1, 9), clamp(10, 1, 9)), (1, 5, 9));
    assert_eq!(
        ListHistoryTool::initial_title(&Some(input)),
        "List history (start: 1, limit: 1)"
    );
    assert_eq!(ListHistoryTool::initial_title(&None), "List conversation history");
}

#[test]
fn the_memory_tool_archives_and_restores() {
    let mut thread = thread_of(&["zero", "one", "two"]);
    let run = |thread: &mut Thread, operation| {
        MemoryAgentTool::run(thread, &MemoryToolInput { operation }, 7)
    };
    let said = run(&mut thread, MemoryAction::Store { start: 0, end: 2 }).unwrap();
    assert!(said.contains("\"id\": 0"));
    assert_eq!(thread.messages.len(), 2);
    assert!(run(&mut thread, MemoryAction::List { limit: None }).unwrap().contains("\"id\": 0"));
    assert!(run(&mut thread, MemoryAction::Stats).unwrap().contains("\"segments\": 1"));
    assert!(run(&mut thread, MemoryAction::Load { id: 0, include_messages: true })
        .unwrap()
        .contains("zero"));
    run(&mut thread, MemoryAction::Restore { id: 0 }).unwrap();
    assert_eq!(thread.messages.len(), 3);
    run(&mut thread, MemoryAction::Prune { id: 0 }).unwrap();
    let e = run(&mut thread, MemoryAction::Prune { id: 0 }).unwrap_err();
    assert_eq!(e, MemoryToolError::Memory(MemoryError::NoSegment { id: 0 }));
    let e = run(&mut thread, MemoryAction::Store { start: 2, end: 2 }).unwrap_err();
    assert_eq!(e, MemoryToolError::InvalidRange { start: 2, end: 2 });
    assert!(!e.message().is_empty());
    assert_eq!(
        MemoryAgentTool::initial_title(&Some(MemoryToolInput {
            operation: MemoryAction::Store { start: 1, end: 3 },
        })),
        "Archive [1..3)"
    );
}

fn rewriting(start: usize, end: usize, strategy: RewriteStrategy) -> RewriteHistoryToolInput {
    RewriteHistoryToolInput {
        start_index: start,
        end_index: end,
        strategy,
        summary: None,
        max_preview_chars: None,
        auto: None,
    }
}

#[test]
fn a_range_is_rewritten_as_a_marker() {
    let mut thread = thread_of(&["zero", "one", "two"]);
    let input = rewriting(1, 2, RewriteStrategy::Summarize);
    let done = RewriteHistoryTool::rewrite_as(&mut thread, &input, &None, "ID", "M").unwrap();
    let original = "## User\n\none\n\n## User\n\ntwo\n";
    assert_eq!(
        done.marker,
        format!(
            "[[history_rewrite summarized id=ID range=1..2 messages=2 chars={}]]\n\
             \nSummary:\n## User (2 message(s))\n\
             \nPreview:\n{}\n\
             \n<details><summary>Original (collapsed)</summary>\n\n```\n{}\n```\n</details>\n",
            original.len(),
            original,
            original
        )
    );
    assert_eq!(
        done.report,
        format!(
            "Summarized 2 message(s) (chars={}) at indices 1..2. Replacement marker id=ID.",
            original.len()
        )
    );
    assert_eq!(thread.messages.len(), 2);
}

#[test]
fn a_range_is_removed_under_a_fresh_identifier() {
    let mut thread = thread_of(&["zero", "one"]);
    let input = rewriting(0, 0, RewriteStrategy::Remove);
    assert!(!RewriteHistoryTool::wants_model_summary(&input));
    let done = RewriteHistoryTool::rewrite(&mut thread, &input, &None).unwrap();
    assert!(done.marker.starts_with("[[history_rewrite removed id="));
    assert!(!done.marker.contains("Summary:\n"));
    let e = RewriteHistoryTool::rewrite(&mut thread, &rewriting(2, 1, RewriteStrategy::Remove), &None)
        .unwrap_err();
    assert_eq!(e.message(), "start_index (2) was greater than end_index (1)");
    let e = RewriteHistoryTool::rewrite(&mut thread, &rewriting(0, 2, RewriteStrategy::Remove), &None)
        .unwrap_err();
    assert_eq!(e.message(), "end_index (2) out of bounds (messages len = 2)");
}

#[test]
fn previews_have_a_least_length() {
    let long = "x".repeat(500);
    let mut thread = thread_of(&[&long]);
    let mut input = rewriting(0, 0, RewriteStrategy::Remove);
    input.max_preview_chars = Some(1);
    let done = RewriteHistoryTool::rewrite_as(&mut thread, &input, &None, "I", "M").unwrap();
    // "## User\n\n" and 31 more characters.
    let preview = format!("\nPreview:\n## User\n\n{}\n…(truncated)\n", "x".repeat(31));
    assert!(done.marker.contains(&preview));
}

#[test]
fn tokens_of_a_slice_are_reported() {
    let thread = thread_of(&["zero", "one", "two"]);
    let input = PreciseTokenToolInput { include_per_message: true, start: Some(1), end: None };
    let (start, end, slice) = match PreciseTokenTool::plan(&thread, &input) {
        PreciseTokenPlan::Measure { start, end, slice } => (start, end, slice),
        other => panic!("{:?}", other),
    };
    assert_eq!((start, end, slice.len()), (1, 3, 2));
    let said = PreciseTokenTool::report(start, end, &slice, &vec![Ok(4), Ok(9)], true);
    assert!(said.contains("\"total_precise_tokens\": 9"));
    assert!(said.contains("\"measured_range\": \"1..3\""));
    assert!(said.contains("\"tokens\": 5"));
    let empty = PreciseTokenToolInput { include_per_message: false, start: Some(5), end: None };
    assert!(matches!(PreciseTokenTool::plan(&thread, &empty), PreciseTokenPlan::Said(s)
        if s == "# Precise Tokens\n\nInvalid or empty slice requested: start=3 end=3 (total messages: 3)\n"));
}

#[test]
fn usage_is_reported_with_its_share() {
    let input = TokenUsageToolInput { include_per_message: true, include_memory_breakdown: false };
    let usage = Some(TokenUsage { max_tokens: 200, used_tokens: 15 });
    let said = TokenUsageTool::run(usage, "7.5", &input);
    assert!(said.contains("\"active_tokens_used\": 15"));
    assert!(said.contains("\"active_usage_pct\": 7.5"));
    assert!(said.contains("## Per-Message Tokens"));
    assert!(!said.contains("## Memory Segments"));
    assert_eq!(TokenUsageTool::initial_title(&Some(input)), "Token usage (detailed)");
}

#[test]
fn notes_are_kept_by_project() {
    assert_eq!(ProjectInfoTool::get_project_key(&vec![]), "default");
    assert_eq!(ProjectInfoTool::get_project_key(&strings(&["a", "b"])), "a;b");
    let run = |action, content: Option<&str>, existing: Option<&str>| {
        ProjectInfoTool::run(
            &ProjectInfoToolInput { action, content: content.map(|c| c.to_string()) },
            &existing.map(|c| c.to_string()),
        )
    };
    let (change, said) = run(ProjectInfoAction::Append, Some("b"), Some("a")).unwrap();
    assert!(matches!(change, ProjectInfoChange::Save(s) if s == "a\n\nb"));
    assert_eq!(said, "Project info updated successfully.");
    let (change, _) = run(ProjectInfoAction::Append, Some("b"), None).unwrap();
    assert!(matches!(change, ProjectInfoChange::Save(s) if s == "b"));
    let (change, _) = run(ProjectInfoAction::Overwrite, Some("b"), Some("a")).unwrap();
    assert!(matches!(change, ProjectInfoChange::Save(s) if s == "b"));
    let (change, _) = run(ProjectInfoAction::Clear, None, Some("a")).unwrap();
    assert!(matches!(change, ProjectInfoChange::Delete));
    let (change, said) = run(ProjectInfoAction::Read, None, None).unwrap();
    assert!(matches!(change, ProjectInfoChange::Keep));
    assert_eq!(said, "No project info has been stored yet.");
    assert_eq!(run(ProjectInfoAction::Read, None, Some("a")).unwrap().1, "a");
    assert_eq!(
        run(ProjectInfoAction::Append, None, None).unwrap_err().message(),
        "Content is required for append action"
    );
    assert_eq!(
        run(ProjectInfoAction::Overwrite, None, None).unwrap_err().message(),
        "Content is required for set action"
    );
}

fn root(name: &str, path: &str) -> Root {
    Root { name: name.to_string(), path: path.to_string() }
}

#[test]
fn commands_run_in_a_directory() {
    let one = vec![root("p", "/p")];
    let two = vec![root("p", "/p"), root("q", "/q")];
    let none: Vec<String> = vec![];
    assert_eq!(resolve_working_directory(".", &one, &none).unwrap(), Some("/p".to_string()));
    assert_eq!(resolve_working_directory("", &vec![], &none).unwrap(), None);
    assert!(matches!(
        resolve_working_directory(".", &two, &none),
        Err(DirectoryError::Ambiguous)
    ));
    assert_eq!(resolve_working_directory("q", &two, &none).unwrap(), Some("/q".to_string()));
    assert_eq!(
        resolve_working_directory("/x", &two, &strings(&["/x"])).unwrap(),
        Some("/x".to_string())
    );
    assert_eq!(
        resolve_working_directory("/x", &two, &none).unwrap_err().message(),
        "Directory '/x' does not exist. Please specify a valid absolute path."
    );
    assert_eq!(
        resolve_working_directory("r", &two, &none).unwrap_err().message(),
        "Directory 'r' was not found. Specify an absolute path (e.g., '/home/user/project') or a project worktree name."
    );
}

#[test]
fn relative_directories_are_within_the_project() {
    let one = vec![root("p", "/p")];
    let two = vec![root("p", "/p"), root("q", "/q")];
    assert_eq!(directory_candidates("src", &one), vec!["/p/src"]);
    assert_eq!(directory_candidates("src/a", &two), vec!["/p/src/a", "/q/src/a"]);
    assert_eq!(directory_candidates("/x", &two), vec!["/x"]);
    assert!(directory_candidates("q", &two).is_empty());
    assert!(directory_candidates(".", &two).is_empty());
    assert!(directory_candidates("../x", &one).is_empty());
    assert_eq!(
        resolve_working_directory("src", &one, &strings(&["/p/src"])).unwrap(),
        Some("/p/src".to_string())
    );
    assert_eq!(
        resolve_working_directory("src", &two, &strings(&["/q/src"])).unwrap(),
        Some("/q/src".to_string())
    );
    assert!(matches!(
        resolve_working_directory("src", &one, &vec![]),
        Err(DirectoryError::NotFound(_))
    ));
    assert!(matches!(
        resolve_working_directory("../x", &one, &strings(&["/p/../x"])),
        Err(DirectoryError::NotFound(_))
    ));
}

#[test]
fn commands_are_quoted_for_their_shell() {
    let input = |use_sudo, shell: Option<&str>| EnhancedTerminalToolInput {
        command: "echo 'a'".to_string(),
        cwd: ".".to_string(),
        use_sudo,
        shell: shell.map(|s| s.to_string()),
        output_limit: None,
        timeout_seconds: None,
    };
    assert_eq!(prepare_command(&input(false, None), &vec![]), "echo 'a'");
    assert_eq!(prepare_command(&input(true, None), &vec![]), "sudo -S echo 'a'");
    assert_eq!(
        prepare_command(&input(false, Some("bash")), &strings(&["/usr/bin/bash"])),
        "/usr/bin/bash -c 'echo '\\''a'\\'''"
    );
    assert_eq!(resolve_shell_path("nu", &vec![]), "nu");
    assert_eq!(shell_candidates("sh"), vec!["/bin/sh", "/usr/bin/sh"]);
    assert_eq!(EnhancedTerminalTool::output_limit(&input(false, None)), 16384);
    assert_eq!(timeout_message(3), "Command execution timed out after 3 seconds");
}

#[test]
fn the_end_of_a_command_is_told() {
    assert_eq!(
        process_command_output(" hi \n", false, "c", Some(0), false),
        "Command executed successfully.\n\n```\nhi\n```"
    );
    assert_eq!(
        process_command_output("", false, "c", Some(0), true),
        "[SUDO] Command executed successfully."
    );
    assert_eq!(
        process_command_output("", false, "c", Some(2), false),
        "Command \"c\" failed with exit code 2."
    );
    assert_eq!(
        process_command_output("x", true, "c", Some(2), false),
        "Command \"c\" failed with exit code 2.\n\nCommand output too long. The first 9 bytes:\n\n```\nx\n```"
    );
    assert_eq!(
        process_command_output("x", false, "c", None, false),
        "Command failed or was interrupted.\nPartial output captured:\n\n```\nx\n```"
    );
}

#[test]
fn shells_are_found_once_by_name() {
    let shells = detect_available_shells(
        &strings(&["/bin/bash", "/usr/bin/bash", "/bin/sh"]),
        &Some("/opt/nu".to_string()),
    );
    let found: Vec<(&str, &str)> =
        shells.iter().map(|s| (s.name.as_str(), s.path.as_str())).collect();
    assert_eq!(found, vec![("bash", "/bin/bash"), ("sh", "/bin/sh"), ("nu", "/opt/nu")]);
    assert_eq!(shells[2].shell_type, ShellType::Unknown);
    let said = format_shell_output(&shells, &Some("/opt/nu".to_string()));
    assert!(said.starts_with("Available shells:\n\n- **bash**: `/bin/bash`\n- **sh**: `/bin/sh`\n"));
    assert!(said.contains("\nCurrent shell (from $SHELL): `/opt/nu`\n"));
    assert_eq!(format_shell_output(&vec![], &None), "No shells detected on the system.");
    assert_eq!(common_shell_paths().len(), 18);
}

fn settings() -> DetectBinariesSettings {
    DetectBinariesSettings {
        add_groups: vec![],
        add_binaries: vec![],
        exclude_groups: vec![],
        exclude_binaries: vec![],
        include_only_groups: None,
    }
}

#[test]
fn groups_follow_the_settings() {
    let all = build_effective_groups(&settings(), &None);
    assert!(!all.is_empty());
    let first = all[0].0.clone();
    let mut cfg = settings();
    cfg.exclude_groups = vec![first.clone()];
    assert!(build_effective_groups(&cfg, &None).iter().all(|g| g.0 != first));
    let mut cfg = settings();
    cfg.add_groups = vec![("mine".to_string(), strings(&["b", "a", "a"]))];
    cfg.include_only_groups = Some(strings(&["mine"]));
    let only = build_effective_groups(&cfg, &None);
    assert_eq!(only.len(), 1);
    assert_eq!(only[0].0, "mine");
    assert_eq!(only[0].1.len(), 2);
    cfg.exclude_binaries = strings(&["a"]);
    assert_eq!(build_effective_groups(&cfg, &None)[0].1, vec!["b"]);
    let input = DetectBinariesToolInput {
        filter_categories: Some(strings(&["MINE"])),
        max_concurrency: 0,
        version_timeout_ms: default_version_timeout_ms(),
    };
    cfg.include_only_groups = None;
    let groups = DetectBinariesTool::groups(&input, &cfg);
    assert_eq!(groups, vec![("mine".to_string(), strings(&["b"]))]);
    let (tasks, categories) = DetectBinariesTool::tasks(&groups);
    assert_eq!(tasks, vec![("mine".to_string(), "b".to_string())]);
    assert_eq!(categories, vec!["mine"]);
    assert_eq!(DetectBinariesTool::concurrency(&input), 1);
    assert_eq!(default_max_concurrency(), 12);
}

#[test]
fn a_filter_only_restricts_the_groups() {
    let mut cfg = settings();
    cfg.exclude_groups = strings(&["docs"]);
    let all = build_effective_groups(&cfg, &None);
    let filter = strings(&["VCS", "cloud", "docs", "unknown"]);
    let some = build_effective_groups(&cfg, &Some(filter));
    let expected: Vec<(String, Vec<String>)> =
        all.iter().filter(|g| g.0 == "cloud" || g.0 == "vcs").cloned().collect();
    assert_eq!(some, expected);
    assert_eq!(some.len(), 2);
    assert!(build_effective_groups(&cfg, &Some(vec![])).is_empty());
}

/// Goes through the attempts to find a version, where `run` stands for the program.
fn detect_version(
    run: &dyn Fn(&str) -> Result<String, ProbeError>,
) -> Result<String, String> {
    let mut attempt = 0;
    loop {
        let argument = version_argument(attempt).unwrap();
        match after_attempt(attempt, &run(&argument)) {
            ProbeStep::Found(version) => return Ok(version),
            ProbeStep::Attempt(next) => attempt = next,
            ProbeStep::Failed(e) => return Err(e),
        }
    }
}

#[test]
fn version_detection_success() {
    let v = detect_version(&|_| version_line(true, "MyTool 1.2.3\n", ""))
        .expect("should get version");
    assert!(v.contains("MyTool"));
    assert!(v.contains("1.2.3"));
}

#[test]
fn version_detection_timeout() {
    let err = detect_version(&|_| Err(ProbeError::Timeout(200))).expect_err("should timeout");
    assert!(err.contains("timeout"));
}

#[test]
fn version_detection_fallback_attempt() {
    // First attempt (--version) exits non-zero with no output, second (version) succeeds.
    let v = detect_version(&|argument| match argument {
        "--version" => version_line(false, "", ""),
        "version" => version_line(true, "FallbackTool 0.9.0\n", ""),
        other => version_line(true, &format!("Unexpected {}", other), ""),
    })
    .expect("fallback should succeed");
    assert!(v.contains("FallbackTool"));
    assert!(v.contains("0.9.0"));
}

#[test]
fn versions_are_first_lines() {
    assert_eq!(version_line(true, "  a 1 \nb", "x").unwrap(), "a 1");
    assert_eq!(version_line(false, "", "err\n").unwrap(), "err");
    assert!(matches!(version_line(true, "\n", ""), Err(ProbeError::EmptyOutput)));
    assert!(matches!(version_line(false, "", ""), Err(ProbeError::NoOutput)));
    assert_eq!(version_argument(2), Some("-V".to_string()));
    assert_eq!(version_argument(3), None);
    assert_eq!(
        detect_version(&|_| Err(ProbeError::NotStarted("gone".to_string()))).unwrap_err(),
        "spawn failed: gone"
    );
    assert!(is_executable(0o755));
    assert!(!is_executable(0o644));
}

#[test]
fn reports_are_sorted_and_counted() {
    let found = report_of("b", "x", &strings(&["/x"]), &Ok("1".to_string()), 3);
    let missing = report_of("a", "y", &vec![], &Err("-".to_string()), 4);
    assert!(found.found && found.path.is_none() && found.version == Some("1".to_string()));
    assert!(!missing.found);
    let said = DetectBinariesTool::output(vec![found, missing], 2, &strings(&["a", "b"]), 5);
    assert!(said.find("\"y\"").unwrap() < said.find("\"x\"").unwrap());
    assert!(said.contains("\"total_scanned\": 2"));
    assert!(said.contains("\"found\": 1"));
    assert!(said.contains("\"missing\": 1"));
    let twice = report_of("b", "x", &strings(&["/x", "/y"]), &Err("e".to_string()), 3);
    assert_eq!((twice.path, twice.error), (Some("/x;/y".to_string()), Some("e".to_string())));
}

fn asking(prompt: &str, paths: &[&str]) -> AnalyzeImagesInput {
    AnalyzeImagesInput {
        prompt: prompt.to_string(),
        image_paths: strings(paths),
        output_format: OutputFormat::Text,
        output_schema: None,
        show_thumbnails: true,
    }
}

#[test]
fn questions_about_images_are_checked() {
    let ok = asking("what?", &["/a.png"]);
    assert!(AnalyzeImagesTool::check_input(&ok, Some(true)).is_ok());
    assert!(matches!(
        AnalyzeImagesTool::check_input(&asking("  ", &["/a"]), Some(true)),
        Err(AnalyzeError::EmptyPrompt)
    ));
    assert!(matches!(
        AnalyzeImagesTool::check_input(&asking("w", &[]), Some(true)),
        Err(AnalyzeError::NoImages)
    ));
    assert!(matches!(
        AnalyzeImagesTool::check_input(&ok, None),
        Err(AnalyzeError::NoModel)
    ));
    let e = AnalyzeImagesTool::check_input(&ok, Some(false)).unwrap_err();
    assert!(e.message().starts_with("The current model does not support image analysis."));
    assert_eq!(AnalyzeImagesTool::initial_title(&Some(ok)), "Analyzing image");
    assert_eq!(AnalyzeImagesTool::loaded_title(1, 3), "Loaded image 1 of 3");
    assert!(default_show_thumbnails());
    assert!(AnalyzeImagesTool::supports_provider("copilot_chat"));
    assert!(!AnalyzeImagesTool::supports_provider("other"));
}

#[test]
fn images_are_found_by_path_or_address() {
    let home = Some("/home/u".to_string());
    let here = Some("/here".to_string());
    assert!(matches!(
        image_place("https://e/x.png", &home, &here),
        Ok(ImagePlace::Url(u)) if u == "https://e/x.png"
    ));
    assert!(matches!(
        image_place("~/x.png", &home, &here),
        Ok(ImagePlace::File(f)) if f == "/home/u/x.png"
    ));
    assert!(matches!(
        image_place("x.png", &home, &here),
        Ok(ImagePlace::File(f)) if f == "/here/x.png"
    ));
    assert!(matches!(
        image_place("/x.png", &home, &here),
        Ok(ImagePlace::File(f)) if f == "/x.png"
    ));
    assert!(matches!(image_place("~/x", &None, &here), Err(ImageError::NoHome)));
    assert!(matches!(image_place("x", &home, &None), Err(ImageError::NoCurrentDirectory)));
    assert!(check_image_file("a.png", "/a.png", true, true).is_ok());
    assert!(matches!(
        check_image_file("a.png", "/a.png", false, false),
        Err(ImageError::NotFound { .. })
    ));
    assert!(matches!(
        check_image_file("a.png", "/a.png", true, false),
        Err(ImageError::NotAFile(_))
    ));
    assert!(matches!(
        check_image_file("a.txt", "/a.txt", true, true),
        Err(ImageError::Unsupported(_))
    ));
}

#[test]
fn formats_are_known_by_name_or_bytes() {
    assert_eq!(extension_format("jpeg"), Some(ImageFormat::Jpeg));
    assert_eq!(extension_format("exe"), None);
    assert_eq!(AnalyzeImagesTool::detect_image_format("a.PNG", &vec![]), ImageFormat::Png);
    assert_eq!(bytes_format(&b"GIF89a".to_vec()), ImageFormat::Gif);
    assert_eq!(bytes_format(&vec![0xFF, 0xD8, 0xFF, 0xE0]), ImageFormat::Jpeg);
    assert_eq!(
        AnalyzeImagesTool::detect_image_format("noname", &vec![0x89, 0x50, 0x4E, 0x47]),
        ImageFormat::Png
    );
}

#[test]
fn an_analysis_is_collected_and_formatted() {
    let mut so_far = String::new();
    assert!(!matches!(
        AnalyzeImagesTool::step(&mut so_far, &AnalysisEvent::Text("abc".to_string())),
        AnalysisStep::Done | AnalysisStep::Failed(_)
    ));
    assert_eq!(so_far, "abc");
    assert!(matches!(
        AnalyzeImagesTool::step(&mut so_far, &AnalysisEvent::Stop),
        AnalysisStep::Done
    ));
    assert!(matches!(
        AnalyzeImagesTool::step(&mut so_far, &AnalysisEvent::Failed("e".to_string())),
        AnalysisStep::Failed(AnalyzeError::Stream(_))
    ));
    assert_eq!(AnalyzeImagesTool::format_output_at("abc", OutputFormat::Text, "now"), "abc");
    let json = AnalyzeImagesTool::format_output("abc", OutputFormat::Json);
    assert!(json.contains("\"analysis\":\"abc\"") && json.contains("+00:00"));
    assert!(matches!(
        AnalyzeImagesTool::finish(&asking("w", &["/a"]), ""),
        Err(AnalyzeError::NoAnalysis)
    ));
}

#[test]
fn structured_answers_are_read() {
    assert_eq!(
        AnalyzeImagesTool::json_part("so:\n```json\n{\"a\": 1}\n```\nend"),
        Some("{\"a\": 1}".to_string())
    );
    assert!(AnalyzeImagesTool::json_answer("{\"a\": 1}").is_some());
    let said = AnalyzeImagesTool::format_structured_output("no json", &None);
    assert!(said.ends_with("Raw response:\nno json"));
    let mut input = asking("w", &["/a"]);
    input.output_schema = Some(Json::Object(vec![]));
    assert_eq!(
        AnalyzeImagesTool::finish(&input, "```json\n{\"a\":1}\n```").unwrap(),
        "{\n  \"a\": 1\n}"
    );
}

#[test]
fn a_schema_makes_the_format_count_for_nothing() {
    let mut input = asking("w", &["/a"]);
    input.output_schema = Some(Json::Object(vec![]));
    for format in [OutputFormat::Text, OutputFormat::Markdown, OutputFormat::Json] {
        input.output_format = format;
        assert_eq!(AnalyzeImagesTool::finish(&input, "{\"b\":[1]}").unwrap(), "{\n  \"b\": [\n    1\n  ]\n}");
        assert!(AnalyzeImagesTool::finish(&input, "words").unwrap().ends_with("words"));
    }
}

#[test]
fn chats_are_asked_in_json() {
    let input = ChatSearchInput {
        query: "q".to_string(),
        project_id: None,
        chat_id: Some("c".to_string()),
        top_k: Some(3),
        mode: Some("embedding".to_string()),
        alpha: Some("0.5".to_string()),
    };
    let payload = ChatSearchTool::payload(&input);
    assert!(payload.contains("\"query\":\"q\""));
    assert!(payload.contains("\"alpha\":0.5"));
    assert!(payload.contains("\"mode\":\"embedding\""));
    assert_eq!(retrieval_mode(&None), RetrievalMode::Hybrid);
    assert_eq!(retrieval_mode(&Some("bm25".to_string())), RetrievalMode::Bm25);
    let said = ChatGetTool::render("{\"ok\":true}");
    assert!(said.contains("\"ok\": true"));
    let broken = ChatGetTool::render("{");
    assert!(broken.contains("\"ok\": false"));
    let shown = show_value("# H", Ok(Json::Null), "e");
    assert_eq!(shown, "# H\n\n```json\nnull\n```\n");
    assert!(!adapter_missing().is_empty());
    let payload = ChatGetTool::payload(&ChatGetInput { chat_id: "c".to_string() });
    assert!(payload.contains("\"c\""));
}

#[test]
fn the_prompt_is_made_from_what_is_known() {
    let mut thread = thread_of(&["a"]);
    thread.add_tool("echo");
    let project = || ProjectContext {
        worktrees: Json::Array(vec![]),
        has_rules: false,
        user_rules: Json::Array(vec![]),
        has_user_rules: false,
        os: "linux".to_string(),
        arch: "x86_64".to_string(),
        shell: "/bin/sh".to_string(),
    };
    let template = thread.system_prompt_template(project(), "7.5");
    assert_eq!(template.available_tools, vec!["echo"]);
    assert_eq!((template.active_tokens, template.usage_pct), (None, None));
    assert_eq!(template.memory_segment_count, Some(0));
    thread.precise_active_tokens = Some(75);
    thread.precise_max_tokens = Some(1000);
    let template = thread.system_prompt_template(project(), "7.5");
    assert_eq!(template.active_tokens, Some(75));
    assert_eq!(template.usage_pct, Some("7.5".to_string()));
    let value = template.to_value();
    assert_eq!(value.get("os").and_then(|v| v.as_str()).map(|s| s.as_str()), Some("linux"));
    assert_eq!(value.get("max_tokens").and_then(|v| v.as_u64()), Some(1000));
}

#[test]
fn tools_say_what_they_do() {
    assert_eq!(ListHistoryTool::kind(), ToolKind::Read);
    assert_eq!(MemoryAgentTool::kind(), ToolKind::Read);
    assert_eq!(PreciseTokenTool::kind(), ToolKind::Read);
    assert_eq!(TokenUsageTool::kind(), ToolKind::Read);
    assert_eq!(RewriteHistoryTool::kind(), ToolKind::Other);
    assert!(AnalyzeError::NoVision
        .message()
        .starts_with("The current model does not support image analysis."));
}

#[test]
fn templates_stand_alone() {
    assert!(stands_alone("{{os}} > {{#if a}}*{{/if}} {{{b}}}"));
    assert!(stands_alone(""));
    for source in ["{{> p}}", "{{~>p}}", "{{ # > p}}{{/p}}", "{{* d}}", "{{#*inline \"p\"}}x{{/inline}}", "{{{> p}}}"] {
        assert!(!stands_alone(source), "{}", source);
    }
    let thread = thread_of(&["a"]);
    let project = || ProjectContext {
        worktrees: Json::Array(vec![]),
        has_rules: false,
        user_rules: Json::Array(vec![]),
        has_user_rules: false,
        os: "linux".to_string(),
        arch: String::new(),
        shell: String::new(),
    };
    assert!(thread.try_build_system_prompt(project(), "0", "{{> p}}").is_none());
    assert_eq!(
        thread.try_build_system_prompt(project(), "0", "on {{os}}"),
        Some(Ok("on linux".to_string()))
    );
    assert!(matches!(
        thread.try_build_system_prompt(project(), "0", "{{unknown}}"),
        Some(Err(_))
    ));
}

#[test]
fn a_number_is_no_text() {
    let quoted = Json::Decimal("\"abc\"".to_string());
    let list = Json::Array(vec![quoted, Json::Decimal("1.5".to_string())]);
    let given = |query: Json| vec![list.copy(), query];
    assert_eq!(contains(&given(Json::Text("abc".to_string()))), Ok(""));
    assert_eq!(contains(&given(Json::Decimal("1.50".to_string()))), Ok("true"));
}

#[test]
fn test_system_prompt_template() {
    let template = SystemPromptTemplate {
        project: ProjectContext {
            worktrees: Json::Array(vec![]),
            has_rules: false,
            user_rules: Json::Array(vec![]),
            has_user_rules: false,
            os: String::new(),
            arch: String::new(),
            shell: String::new(),
        },
        available_tools: vec!["echo".into()],
        active_tokens: Some(1200),
        max_tokens: Some(16000),
        usage_pct: Some("7.5".into()),
        memory_segment_count: Some(2),
        memory_saved_tokens: Some(1234),
    };
    let source = "{{#if has_available_tools}}## Fixing Diagnostics\n{{/if}}\
                  {{#if (contains available_tools 'echo')}}echo{{/if}}\
                  {{#if (contains available_tools 'diagnostics')}}diagnostics{{/if}}\
                  : {{active_tokens}}/{{max_tokens}} ({{usage_pct}}%), {{memory_saved_tokens}} saved";
    let rendered = template.render(source).unwrap();
    assert!(rendered.contains("## Fixing Diagnostics"));
    assert_eq!(
        rendered,
        "## Fixing Diagnostics\necho: 1200/16000 (7.5%), 1234 saved"
    );
    // Names that are not known are no blanks.
    assert!(template.render("{{unknown}}").is_err());
    assert!(template.render("{{#if").is_err());
}

#[test]
fn the_system_prompt_is_filled_in() {
    let thread = thread_of(&["a"]);
    let project = ProjectContext {
        worktrees: Json::Array(vec![]),
        has_rules: false,
        user_rules: Json::Array(vec![]),
        has_user_rules: false,
        os: "linux".to_string(),
        arch: "x86_64".to_string(),
        shell: "/bin/sh".to_string(),
    };
    let prompt = thread.build_system_prompt(project, "0", "{{os}} {{memory_segment_count}}");
    assert_eq!(prompt, Ok("linux 0".to_string()));
}

#[test]
fn the_helper_of_templates_looks_into_lists() {
    let list = || Json::Array(vec![Json::Text("a".to_string()), Json::Unsigned(1)]);
    assert_eq!(contains(&vec![list(), Json::Text("a".to_string())]), Ok("true"));
    assert_eq!(contains(&vec![list(), Json::Unsigned(1)]), Ok("true"));
    assert_eq!(contains(&vec![list(), Json::Text("b".to_string())]), Ok(""));
    assert_eq!(
        contains(&vec![Json::Null]),
        Err("contains: missing or invalid list parameter".to_string())
    );
    assert_eq!(
        contains(&vec![list()]),
        Err("contains: missing or invalid query parameter".to_string())
    );
}
