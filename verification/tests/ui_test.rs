use agent_context::remote_server::server::{
    RemoteAgentServer, ServerAddress, ServerConfig, ServerMode, ServerState,
};
use agent_context::ui::context_server_docs::{
    ConfigureContextServerDocsModal, Content, Prompt, Resource,
};
use agent_context::ui::context_server_prompts::ConfigureContextServerPromptsModal;
use agent_context::ui::remote_server_modal::{exchange, RemoteServerModal};

fn prompt(name: &str, description: Option<&str>) -> Prompt {
    Prompt {
        name: name.to_string(),
        description: description.map(|d| d.to_string()),
        arguments: Some(vec!["x".to_string(), "y".to_string()]),
    }
}

fn state(mode: ServerMode, tunnel: Option<&str>) -> ServerState {
    let mut server = RemoteAgentServer::new(ServerConfig { port: 0, mode });
    server
        .started(
            ServerAddress { ip: "127.0.0.1".to_string(), unspecified: false, port: 81 },
            &Err("-".to_string()),
        )
        .unwrap();
    server.state(&tunnel.map(|t| t.to_string())).unwrap()
}

#[test]
fn red_and_blue_are_exchanged() {
    let mut pixels = vec![1, 2, 3, 4, 5, 6, 7, 8, 9];
    exchange(&mut pixels);
    assert_eq!(pixels, vec![3, 2, 1, 4, 7, 6, 5, 8, 9]);
    exchange(&mut pixels);
    assert_eq!(pixels, vec![1, 2, 3, 4, 5, 6, 7, 8, 9]);
}

#[test]
fn a_local_server_is_shown_with_its_code() {
    let shown = state(ServerMode::Local, None);
    let token = shown.auth_token.to_text();
    let modal = RemoteServerModal::new(shown);
    let picture = modal.qr_image.as_ref().unwrap();
    assert_eq!(picture.pixels.len(), (picture.width * picture.height * 4) as usize);
    // A code is black and white, and all of it can be seen.
    assert!(picture
        .pixels
        .chunks(4)
        .all(|p| p[0] == p[1] && p[1] == p[2] && (p[0] == 0 || p[0] == 255) && p[3] == 255));
    let dialog = modal.render();
    assert_eq!(dialog.headline, "Remote Agent Server (Local Network)");
    assert!(dialog.has_picture);
    let labels: Vec<&str> = dialog.sections.iter().map(|s| s.label.as_str()).collect();
    assert_eq!(labels, vec!["Server Address", "Pairing URL", "Authentication Token"]);
    assert_eq!(dialog.sections[0].value, "127.0.0.1:81");
    assert_eq!(dialog.sections[1].value, format!("http://127.0.0.1:81?token={}", token));
}

#[test]
fn a_tunnel_is_shown_when_it_is_there() {
    let mut modal = RemoteServerModal::new(state(ServerMode::Internet, None));
    assert!(modal.render().intro.starts_with("Starting cloudflared tunnel"));
    assert!(!modal.refresh(None));
    assert!(modal.refresh(Some(state(ServerMode::Internet, Some("https://t")))));
    let dialog = modal.render();
    assert_eq!(dialog.sections.len(), 4);
    assert!(dialog.sections[1].value.starts_with("https://t?token="));
    assert_eq!(dialog.sections[1].copies, Some(dialog.sections[1].value.clone()));
}

#[test]
fn what_a_server_offers_is_unfolded() {
    let mut modal = ConfigureContextServerDocsModal::new("srv".to_string());
    assert!(matches!(modal.content(), Content::Line(_)));
    modal.unavailable(false);
    assert!(matches!(modal.content(), Content::Line(l) if l.contains("Server is not running.")));
    modal.loaded(
        Ok(vec![prompt("p", None)]),
        Ok(vec![Resource {
            uri: "file:///r".to_string(),
            name: "r".to_string(),
            description: None,
        }]),
    );
    modal.toggle("prompt:p");
    match modal.content() {
        Content::Sections { prompts, resources, .. } => {
            assert_eq!(prompts.len(), 1);
            assert!(prompts[0].expanded);
            assert_eq!(prompts[0].item.detail, Some("Arguments: x, y".to_string()));
            assert_eq!(resources.len(), 1);
            assert!(!resources[0].expanded);
        }
        other => panic!("{:?}", other),
    }
    modal.toggle("prompt:p");
    assert!(modal.expanded.is_empty());
}

#[test]
fn prompts_are_unfolded_by_name() {
    let mut modal = ConfigureContextServerPromptsModal::new(
        "srv".to_string(),
        vec![prompt("p", Some("d")), prompt("q", None)],
    );
    assert_eq!(modal.headline(), "Prompts from srv");
    modal.toggle("p");
    let rows = modal.rows();
    assert_eq!(rows[0].shown, Some("d".to_string()));
    assert!(rows[0].line_below && !rows[1].line_below);
    assert_eq!(rows[1].shown, None);
}
