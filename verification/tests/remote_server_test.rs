use agent_context::json::Json;
use agent_context::remote_server::agent_bridge::{
    AgentBridge, AgentToClientMessage, ClientToAgentMessage,
};
use agent_context::remote_server::agent_coordinator::{
    handling_failed, sending_failed, AgentCoordinator, CoordinatorEvent, SelectedModel, ThreadChange,
    ThreadEntry, ToolCallEntry, Usage, UserChunk,
};
use agent_context::remote_server::auth::{token_character, AuthToken, TokenManager};
use agent_context::remote_server::cloudflared::{
    choose_url, extract_url_from_line, install_step, CloudflaredTunnel, CommandOutcome,
    InstallMove, InstallState, Machine, Platform, TunnelWait,
};
use agent_context::remote_server::qr::{generate_qr_code, generate_qr_code_svg};
use agent_context::remote_server::server::{
    bind_ip, build_pairing_url, health_response, let_in, Refusal, RemoteAgentServer, ServerAddress,
    ServerConfig, ServerMode,
};
use agent_context::remote_server::websocket::{
    after_greeting, agent_unreachable, handle_client_message, handle_frame, invalid_message,
    opened, server_message, ClientAction, ClientError, ClientMessage, Frame, FrameAction,
    ServerMessage,
};
use agent_context::remote_server::{AgentRemoteServer, StartError};

#[test]
fn test_token_generation() {
    let token = AuthToken::generate();
    assert_eq!(token.as_str().len(), 32);
}

#[test]
fn test_token_validation() {
    let token1 = AuthToken::from_string("test123".to_string());
    let token2 = AuthToken::from_string("test123".to_string());
    let token3 = AuthToken::from_string("different".to_string());

    assert!(token1.validate(&token2));
    assert!(!token1.validate(&token3));
}

#[test]
fn test_token_manager() {
    let mut manager = TokenManager::new();
    let token = manager.current_token().clone();

    assert!(manager.validate(&token));

    let new_token = manager.regenerate().clone();
    assert!(!manager.validate(&token));
    assert!(manager.validate(&new_token));
}

#[test]
fn test_coordinator_module_compiles() {
    assert!(true);
}

#[test]
fn test_bridge_creation() {
    let bridge = AgentBridge::new();
    assert_eq!(bridge.clients.len(), 0);
}

#[test]
fn test_connection_handle() {
    let mut bridge = AgentBridge::new();
    let _handle = bridge.create_connection();
    assert_eq!(bridge.clients.len(), 1);
}

#[test]
fn test_connection_cleanup() {
    let mut bridge = AgentBridge::new();
    {
        let handle = bridge.create_connection();
        assert_eq!(bridge.clients.len(), 1);
        bridge.disconnect(&handle);
    }
    assert_eq!(bridge.clients.len(), 0);
}

#[test]
fn test_message_sending() {
    let action = handle_client_message(ClientMessage::Chat { content: "Hello".to_string() });
    match action {
        ClientAction::ToAgent(ClientToAgentMessage::Chat { content }) => {
            assert_eq!(content, "Hello")
        }
        _ => panic!("Wrong message type"),
    }
}

#[test]
fn test_broadcast() {
    let mut bridge = AgentBridge::new();
    let handle1 = bridge.create_connection();
    let handle2 = bridge.create_connection();

    let receivers = bridge.broadcast_to_clients(&vec![]);
    assert_eq!(receivers, vec![handle1, handle2]);

    for _ in receivers {
        let msg = server_message(AgentToClientMessage::TextChunk {
            entry_index: 0,
            content: "Test".to_string(),
        });
        match msg {
            ServerMessage::TextChunk { content, .. } => assert_eq!(content, "Test"),
            _ => panic!("Wrong message type"),
        }
    }
}

#[test]
fn test_extract_url_from_line() {
    let line = "2024-01-01T12:00:00Z INF | https://random-subdomain.trycloudflare.com | foo bar";
    let url = extract_url_from_line(line);
    assert!(url.is_some());
    assert!(url.unwrap().contains("trycloudflare.com"));
}

#[test]
fn test_extract_url_simple() {
    let line = "Your quick tunnel is available at https://test-abc123.trycloudflare.com";
    let url = extract_url_from_line(line);
    assert_eq!(
        url,
        Some("https://test-abc123.trycloudflare.com".to_string())
    );
}

#[test]
fn test_tunnel_creation() {
    let tunnel = CloudflaredTunnel::new();
    assert!(!tunnel.is_running());
    assert!(tunnel.get_public_url().is_none());
}

#[test]
fn test_qr_code_generation_png() {
    let result = generate_qr_code("ws://192.168.1.100:8080?token=test123");
    assert!(result.is_ok());
    let data = result.unwrap();
    assert!(!data.is_empty());
    // PNG signature
    assert!(data.starts_with(&[0x89, b'P', b'N', b'G', 0x0D, 0x0A, 0x1A, 0x0A]));
}

#[test]
fn test_qr_code_svg_generation() {
    let result = generate_qr_code_svg("ws://192.168.1.100:8080?token=test123");
    assert!(result.is_ok());
    let svg = result.unwrap();
    assert!(svg.contains("<svg"));
}

fn address(ip: &str, unspecified: bool, port: u16) -> ServerAddress {
    ServerAddress { ip: ip.to_string(), unspecified, port }
}

#[test]
fn test_build_pairing_url_local() {
    let addr = address("192.168.1.100", false, 8080);
    let token = AuthToken::from_string("test123".to_string());
    let unknown = Err("no address".to_string());
    let url = build_pairing_url(&addr, &token, ServerMode::Local, &unknown).unwrap();
    assert_eq!(url, "http://192.168.1.100:8080?token=test123");
}

#[test]
fn test_build_pairing_url_internet() {
    let addr = address("127.0.0.1", false, 8080);
    let token = AuthToken::from_string("test123".to_string());
    let unknown = Err("no address".to_string());
    let url = build_pairing_url(&addr, &token, ServerMode::Internet, &unknown).unwrap();
    assert_eq!(url, "http://localhost:8080?token=test123");
}

#[test]
fn test_client_message_serialization() {
    let msg = ClientMessage::Chat { content: "Hello".to_string() };
    let json = msg.to_text();
    assert!(json.contains("\"type\":\"chat\""));
    assert!(json.contains("\"content\":\"Hello\""));
}

#[test]
fn test_client_message_deserialization() {
    let json = r#"{"type":"chat","content":"Hello"}"#;
    let msg = ClientMessage::from_text(json).unwrap();
    match msg {
        ClientMessage::Chat { content } => assert_eq!(content, "Hello"),
        _ => panic!("Wrong message type"),
    }
}

#[test]
fn test_server_message_serialization() {
    let msg = ServerMessage::TextChunk { entry_index: 0, content: "Response".to_string() };
    let json = msg.to_text();
    assert!(json.contains("\"type\":\"textChunk\""));
    assert!(json.contains("\"content\":\"Response\""));
}

#[test]
fn test_server_message_connected() {
    let msg = ServerMessage::Connected { session_id: "test-123".to_string() };
    let json = msg.to_text();
    assert!(json.contains("\"type\":\"connected\""));
    assert!(json.contains("\"session_id\":\"test-123\""));
}

#[test]
fn test_server_message_error() {
    let msg = ServerMessage::Error { message: "Test error".to_string() };
    let json = msg.to_text();
    assert!(json.contains("\"type\":\"error\""));
    assert!(json.contains("\"message\":\"Test error\""));
}

#[test]
fn test_history_entry_serialization() {
    let msg = ServerMessage::HistoryEntry {
        role: "user".to_string(),
        content: "Test message".to_string(),
    };
    let json = msg.to_text();
    assert!(json.contains("\"type\":\"historyEntry\""));
    assert!(json.contains("\"role\":\"user\""));
    assert!(json.contains("\"content\":\"Test message\""));
}

#[test]
fn tokens_are_made_of_letters_and_digits() {
    let all: String = (0..62).map(token_character).collect();
    assert_eq!(all, "0123456789abcdefghijklmnopqrstuvwxyzABCDEFGHIJKLMNOPQRSTUVWXYZ");
    let token = AuthToken::generate();
    assert!(token.as_str().chars().all(|c| all.contains(c)));
    assert_ne!(AuthToken::generate().as_str(), token.as_str());
    assert!(!token.debug_text().contains(token.as_str()));
}

#[test]
fn a_text_that_is_too_long_has_no_code() {
    let long = "x".repeat(4000);
    assert!(generate_qr_code(&long).is_err());
    assert!(generate_qr_code_svg(&long).is_err());
}

#[test]
fn different_texts_have_different_codes() {
    assert_ne!(generate_qr_code("a").unwrap(), generate_qr_code("b").unwrap());
    assert_ne!(generate_qr_code_svg("a").unwrap(), generate_qr_code_svg("b").unwrap());
}

#[test]
fn addresses_are_looked_for_in_three_ways() {
    // The long pattern.
    assert_eq!(
        extract_url_from_line("at https://a.b.trycloudflare.com now"),
        Some("https://a.b.trycloudflare.com".to_string())
    );
    // The first address counts, and of those that start there the longest.
    assert_eq!(
        extract_url_from_line("https://x.org https://a-1.trycloudflare.com/p https://b.trycloudflare.com"),
        Some("https://a-1.trycloudflare.com".to_string())
    );
    assert_eq!(
        extract_url_from_line("https://a.trycloudflare.com.b.trycloudflare.community"),
        Some("https://a.trycloudflare.com".to_string())
    );
    assert_eq!(
        extract_url_from_line("https://a.b.trycloudflare.com.c.trycloudflare.community"),
        Some("https://a.b.trycloudflare.com.c.trycloudflare.com".to_string())
    );
    assert_eq!(
        extract_url_from_line("https://.trycloudflare.com"),
        Some("https://.trycloudflare.com".to_string())
    );
    // No pattern, but an address.
    assert_eq!(
        extract_url_from_line("see https://example.com/x y"),
        Some("https://example.com/x".to_string())
    );
    assert_eq!(extract_url_from_line("nothing here"), None);
    assert_eq!(
        choose_url("l https://c d", None, Some("https://b".to_string())),
        Some("https://b".to_string())
    );
    assert_eq!(
        choose_url("l", Some("https://a".to_string()), Some("https://b".to_string())),
        Some("https://a".to_string())
    );
    assert_eq!(choose_url("l https://c d", None, None), Some("https://c".to_string()));
}

#[test]
fn a_tunnel_waits_for_its_address() {
    let mut tunnel = CloudflaredTunnel::new();
    assert_eq!(
        CloudflaredTunnel::arguments(8080),
        vec!["tunnel", "--url", "http://localhost:8080"]
    );
    tunnel.started();
    assert!(tunnel.is_running());
    tunnel.read_line("starting");
    assert!(matches!(tunnel.wait(0), TunnelWait::Wait));
    assert!(matches!(tunnel.wait(30), TunnelWait::TimedOut));
    tunnel.read_line("| https://one.trycloudflare.com |");
    match tunnel.wait(30) {
        TunnelWait::Ready(url) => assert_eq!(url, "https://one.trycloudflare.com"),
        other => panic!("{:?}", other),
    }
    assert!(tunnel.stop());
    assert!(!tunnel.stop());
    assert!(tunnel.get_public_url().is_none());
}

fn machine(platform: Platform, arch: &str) -> Machine {
    Machine {
        platform,
        arch: arch.to_string(),
        temp_dir: "/tmp".to_string(),
        program_files: None,
    }
}

#[test]
fn an_unknown_platform_cannot_install() {
    match install_step(
        InstallState::Start,
        &machine(Platform::Other, "x86_64"),
        &CommandOutcome::Ended(true),
    ) {
        InstallMove::Failed(e) => {
            assert_eq!(e, "Unsupported platform for automatic cloudflared installation")
        }
        other => panic!("{:?}", other),
    }
}

#[test]
fn linux_falls_back_from_dnf_to_apt_to_the_binary() {
    let m = machine(Platform::Linux, "aarch64");
    let no = CommandOutcome::NotStarted("not found".to_string());
    let (state, command) = match install_step(InstallState::Start, &m, &no) {
        InstallMove::Run { state, command } => (state, command),
        other => panic!("{:?}", other),
    };
    assert_eq!(state, InstallState::FindDnf);
    assert_eq!(command, vec!["which", "dnf"]);
    let state = match install_step(state, &m, &no) {
        InstallMove::Run { state, .. } => state,
        other => panic!("{:?}", other),
    };
    assert_eq!(state, InstallState::FindApt);
    let (state, command) = match install_step(state, &m, &no) {
        InstallMove::Run { state, command } => (state, command),
        other => panic!("{:?}", other),
    };
    assert_eq!(state, InstallState::DownloadBinary);
    assert_eq!(command[0], "sudo");
    assert!(command.last().unwrap().ends_with("cloudflared-linux-arm64"));
    let state = match install_step(state, &m, &CommandOutcome::Ended(true)) {
        InstallMove::Run { state, command } => {
            assert_eq!(command, vec!["sudo", "chmod", "+x", "/usr/local/bin/cloudflared"]);
            state
        }
        other => panic!("{:?}", other),
    };
    assert!(matches!(install_step(state, &m, &CommandOutcome::Ended(true)), InstallMove::Done));
}

#[test]
fn a_server_listens_where_its_mode_says() {
    assert_eq!(bind_ip(ServerMode::Internet), "127.0.0.1");
    assert_eq!(bind_ip(ServerMode::Local), "0.0.0.0");
    let addr = address("0.0.0.0", true, 80);
    let token = AuthToken::from_string("t".to_string());
    assert_eq!(
        build_pairing_url(&addr, &token, ServerMode::Local, &Ok("10.0.0.2".to_string())),
        Ok("http://10.0.0.2:80?token=t".to_string())
    );
    assert_eq!(
        build_pairing_url(&addr, &token, ServerMode::Local, &Err("offline".to_string())),
        Err("offline".to_string())
    );
}

#[test]
fn a_server_starts_and_stops() {
    let mut server = RemoteAgentServer::new(ServerConfig { port: 0, mode: ServerMode::Internet });
    let token = server.token_manager.current_token().to_text();
    let tunnel = server.started(address("127.0.0.1", false, 99), &Err("-".to_string())).unwrap();
    assert!(tunnel);
    let state = server.state(&None).unwrap();
    assert_eq!(state.pairing_url, format!("http://localhost:99?token={}", token));
    assert_eq!(state.public_url, None);
    let state = server.state(&Some("https://x".to_string())).unwrap();
    assert_eq!(state.public_url, Some("https://x".to_string()));
    assert!(server.stop());
    assert!(server.state(&None).is_none());
    assert!(!server.stop());

    let mut local = RemoteAgentServer::new(ServerConfig { port: 0, mode: ServerMode::Local });
    assert_eq!(
        local.started(address("0.0.0.0", true, 99), &Err("offline".to_string())),
        Err("offline".to_string())
    );
    assert!(local.state(&None).is_none());
}

#[test]
fn only_the_token_lets_in() {
    let manager = TokenManager::new();
    let right = Some(manager.current_token().to_text());
    assert_eq!(let_in(&right, &manager), Ok(()));
    assert_eq!(let_in(&None, &manager), Err(Refusal::MissingToken));
    assert_eq!(let_in(&Some("wrong".to_string()), &manager), Err(Refusal::InvalidToken));
    assert_eq!(
        Refusal::MissingToken.response(),
        (401, "Missing authentication token".to_string())
    );
    assert_eq!(
        Refusal::InvalidToken.response(),
        (401, "Invalid authentication token".to_string())
    );
    assert_eq!(
        health_response().get("service").and_then(|v| v.as_str()).map(|s| s.as_str()),
        Some("agent-remote-server")
    );
}

#[test]
fn a_running_server_is_not_started_again() {
    let mut server = AgentRemoteServer::new();
    assert!(!server.is_running());
    assert_eq!(server.start(), Ok(()));
    let e = server.start().unwrap_err();
    assert_eq!(e, StartError::AlreadyRunning);
    assert!(!e.message().is_empty());
    assert!(server.qr_code().is_none());
    server.stop();
    assert!(!server.is_running());
    assert_eq!(server.start(), Ok(()));
}

#[test]
fn broken_messages_are_told_apart() {
    assert!(matches!(ClientMessage::from_text("{"), Err(ClientError::Syntax)));
    assert!(matches!(ClientMessage::from_text("{\"type\":\"no\"}"), Err(ClientError::Message)));
    assert!(matches!(ClientMessage::from_text("{\"type\":\"chat\"}"), Err(ClientError::Message)));
    assert!(matches!(ClientMessage::from_text("{\"type\":\"ping\"}"), Ok(ClientMessage::Ping)));
    assert!(matches!(
        ClientMessage::from_text("{\"type\":\"getHistory\"}"),
        Ok(ClientMessage::GetHistory)
    ));
    match invalid_message("why") {
        ServerMessage::Error { message } => assert!(message.contains("why")),
        other => panic!("{:?}", other),
    }
}

#[test]
fn client_messages_survive_the_wire() {
    for m in [
        ClientMessage::Chat { content: "a \"b\" \n é".to_string() },
        ClientMessage::GetHistory,
        ClientMessage::Cancel,
        ClientMessage::Ping,
    ] {
        let text = m.to_text();
        let back = ClientMessage::from_text(&text).unwrap();
        assert_eq!(format!("{:?}", back), format!("{:?}", m));
    }
}

#[test]
fn frames_lead_to_actions() {
    assert!(matches!(
        handle_frame(&Frame::Text("{\"type\":\"ping\"}".to_string())),
        FrameAction::Client(ClientAction::Reply(ServerMessage::Pong))
    ));
    assert!(matches!(
        handle_frame(&Frame::Text("{\"type\":\"cancel\"}".to_string())),
        FrameAction::Client(ClientAction::ToAgent(ClientToAgentMessage::Cancel))
    ));
    assert!(matches!(handle_frame(&Frame::Text("x".to_string())), FrameAction::Invalid(_)));
    assert!(matches!(handle_frame(&Frame::Close), FrameAction::Disconnect));
    assert!(matches!(handle_frame(&Frame::Failed), FrameAction::Disconnect));
    assert!(matches!(handle_frame(&Frame::Ping), FrameAction::Ignore));
    assert!(matches!(handle_frame(&Frame::Binary), FrameAction::Ignore));
}

#[test]
fn a_connection_is_greeted_with_its_own_id() {
    let mut bridge = AgentBridge::new();
    let id = bridge.create_connection();
    match opened(&id) {
        ServerMessage::Connected { session_id } => assert_eq!(session_id, id),
        other => panic!("{:?}", other),
    }
    assert!(matches!(after_greeting(), ClientToAgentMessage::GetInitialState));
    match handle_frame(&Frame::Text("{\"type\":\"chat\",\"content\":\"Hello\"}".to_string())) {
        FrameAction::Client(ClientAction::ToAgent(ClientToAgentMessage::Chat { content })) => {
            assert_eq!(content, "Hello");
        }
        other => panic!("{:?}", other),
    }
    match handle_frame(&Frame::Text("not-json".to_string())) {
        FrameAction::Invalid(ClientError::Syntax) => match invalid_message("expected ident") {
            ServerMessage::Error { message } => {
                assert_eq!(message, "Invalid message format: expected ident");
            }
            other => panic!("{:?}", other),
        },
        other => panic!("{:?}", other),
    }
    match agent_unreachable("gone") {
        ServerMessage::Error { message } => assert_eq!(message, "Failed to send to agent: gone"),
        other => panic!("{:?}", other),
    }
}

#[test]
fn a_frame_that_breaks_off_is_refused() {
    assert!(matches!(
        handle_frame(&Frame::Text("{\"type\":\"unknown\"".to_string())),
        FrameAction::Invalid(ClientError::Syntax)
    ));
    assert!(matches!(
        handle_frame(&Frame::Text("{\"type\":\"unknown\"}".to_string())),
        FrameAction::Invalid(ClientError::Message)
    ));
}

#[test]
fn a_member_that_counts_stands_once() {
    for text in [
        "{\"type\":\"ping\",\"type\":\"ping\"}",
        "{\"typ\\u0065\":\"ping\", \"type\":\"ping\"}",
        "{\"type\":\"chat\",\"content\":\"a\",\"content\":\"b\"}",
        "{\"$serde_json::private::RawValue\":\"{\\\"type\\\":\\\"ping\\\"}\"}",
    ] {
        assert!(matches!(ClientMessage::from_text(text), Err(ClientError::Message)), "{}", text);
    }
    for text in [
        "{\"type\":\"ping\",\"content\":1,\"content\":2}",
        "{\"x\":{\"type\":0},\"type\":\"ping\",\"y\":[\"type\",\"type\"]}",
        " { \"type\" : \"ping\" , \"z\":\"a \\\" , {\" } ",
        "[\"ping\"]",
    ] {
        assert!(matches!(ClientMessage::from_text(text), Ok(ClientMessage::Ping)), "{}", text);
    }
}

#[test]
fn chunks_of_many_calls_join_to_the_message() {
    let mut coordinator = AgentCoordinator::new();
    let mut joined = String::new();
    for (index, text) in [(3, "Hé"), (4, "x"), (3, "Hé"), (3, "Héllo"), (4, "xy"), (3, "Héllo you")] {
        let entry = ThreadEntry::AssistantMessage(vec![text.to_string()]);
        for message in coordinator.stream_entry_to_clients(index, &entry) {
            match message {
                AgentToClientMessage::TextChunk { entry_index: 3, content } => {
                    assert!(!content.is_empty());
                    joined.push_str(&content);
                }
                AgentToClientMessage::TextChunk { .. } => {}
                other => panic!("{:?}", other),
            }
        }
    }
    assert_eq!(joined, "Héllo you");
}

#[test]
fn a_result_follows_the_start_of_a_call() {
    let call = |output: Option<Json>, content: &[&str]| {
        ThreadEntry::ToolCall(ToolCallEntry {
            id: "c".to_string(),
            name: "ls".to_string(),
            raw_input: None,
            raw_output: output,
            content: content.iter().map(|s| s.to_string()).collect(),
        })
    };
    let mut coordinator = AgentCoordinator::new();
    let sent = coordinator.stream_entry_to_clients(2, &call(None, &["a", "b"]));
    assert_eq!(sent.len(), 2);
    assert!(matches!(sent[0], AgentToClientMessage::ToolStart { entry_index: 2, .. }));
    match &sent[1] {
        AgentToClientMessage::ToolResult { result, .. } => assert_eq!(result, "a\nb"),
        other => panic!("{:?}", other),
    }
    let later = call(Some(Json::Bool(true)), &["a", "b", "c"]);
    assert!(coordinator.stream_entry_to_clients(2, &later).is_empty());
}

#[test]
fn clients_that_are_gone_leave() {
    let mut bridge = AgentBridge::new();
    bridge.connect("a".to_string());
    bridge.connect("b".to_string());
    bridge.connect("c".to_string());
    let receivers = bridge.broadcast_to_clients(&vec!["b".to_string()]);
    assert_eq!(receivers, vec!["a", "c"]);
    assert_eq!(bridge.clients, vec!["a", "c"]);
}

fn assistant(text: &str) -> ThreadEntry {
    ThreadEntry::AssistantMessage(vec![text.to_string()])
}

#[test]
fn only_what_is_new_is_sent() {
    let mut coordinator = AgentCoordinator::new();
    let sent = coordinator.stream_entry_to_clients(3, &assistant("Hel"));
    assert_eq!(
        format!("{:?}", sent),
        "[TextChunk { entry_index: 3, content: \"Hel\" }]"
    );
    let sent = coordinator.stream_entry_to_clients(3, &assistant("Hello"));
    assert_eq!(
        format!("{:?}", sent),
        "[TextChunk { entry_index: 3, content: \"lo\" }]"
    );
    assert!(coordinator.stream_entry_to_clients(3, &assistant("Hello")).is_empty());
    // The pieces of another entry are its own.
    let sent = coordinator.stream_entry_to_clients(4, &assistant("H"));
    assert_eq!(format!("{:?}", sent), "[TextChunk { entry_index: 4, content: \"H\" }]");
}

#[test]
fn a_tool_call_is_told_once() {
    let call = |output: Option<Json>| {
        ThreadEntry::ToolCall(ToolCallEntry {
            id: "c1".to_string(),
            name: "ls".to_string(),
            raw_input: None,
            raw_output: output,
            content: vec![],
        })
    };
    let mut coordinator = AgentCoordinator::new();
    let sent = coordinator.stream_entry_to_clients(0, &call(None));
    assert_eq!(sent.len(), 1);
    assert!(matches!(sent[0], AgentToClientMessage::ToolStart { .. }));
    assert!(coordinator.stream_entry_to_clients(0, &call(None)).is_empty());
    let sent = coordinator.stream_entry_to_clients(0, &call(Some(Json::Text("out".to_string()))));
    assert_eq!(sent.len(), 1);
    assert!(matches!(sent[0], AgentToClientMessage::ToolResult { .. }));
}

#[test]
fn a_client_is_told_the_state_and_the_history() {
    let state = AgentCoordinator::initial_state(
        Some(Usage { used_tokens: 1, max_tokens: 2 }),
        &Some(SelectedModel { id: "i".to_string(), name: "n".to_string() }),
    );
    assert_eq!(state.len(), 2);
    assert!(AgentCoordinator::initial_state(None, &None).is_empty());
    let history = AgentCoordinator::history(&vec![
        ThreadEntry::UserMessage(vec![UserChunk::Text("q".to_string()), UserChunk::Other]),
        assistant("a"),
    ]);
    assert_eq!(history.len(), 2);
    match &history[0] {
        AgentToClientMessage::HistoryEntry { role, content } => {
            assert_eq!(role, "user");
            assert!(content.starts_with("q"));
        }
        other => panic!("{:?}", other),
    }
}

#[test]
fn changes_of_the_thread_are_passed_on() {
    let mut coordinator = AgentCoordinator::new();
    let entries = vec![assistant("x")];
    let sent = coordinator.handle_thread_event(
        ThreadChange::TokenUsageUpdated,
        Some(Usage { used_tokens: 5, max_tokens: 9 }),
        &entries,
    );
    assert_eq!(
        format!("{:?}", sent),
        "[TokenUsageUpdate { used_tokens: 5, max_tokens: 9 }]"
    );
    let sent = coordinator.handle_thread_event(ThreadChange::EntryUpdated(0), None, &entries);
    assert_eq!(format!("{:?}", sent), "[TextChunk { entry_index: 0, content: \"x\" }]");
    assert!(coordinator
        .handle_thread_event(ThreadChange::EntryUpdated(7), None, &entries)
        .is_empty());
    assert!(coordinator.handle_thread_event(ThreadChange::Other, None, &entries).is_empty());
    let (message, event) = handling_failed("why");
    assert!(matches!(message, AgentToClientMessage::Error { .. }));
    assert!(matches!(event, CoordinatorEvent::Error(_)));
    assert!(matches!(sending_failed("why"), AgentToClientMessage::Error { .. }));
}
