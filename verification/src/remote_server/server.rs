//! How the server is reached, and who may reach it.

use vstd::prelude::*;

use crate::json;
use crate::json::Json;
use crate::remote_server::auth;
use crate::remote_server::auth::AuthToken;
use crate::remote_server::auth::TokenManager;
use crate::text;

verus! {

/// Whether the server is for the local network, or for the internet through a tunnel.
#[derive(Debug, Clone, Copy, PartialEq, Eq, Structural)]
pub enum ServerMode {
    Local,
    Internet,
}

/// Where the server listens. The address is text; `unspecified` says that it stands for all
/// interfaces.
#[derive(Debug)]
pub struct ServerAddress {
    pub ip: String,
    pub unspecified: bool,
    pub port: u16,
}

impl ServerAddress {
    /// The same address once more.
    pub fn copy(&self) -> (r: ServerAddress)
        ensures
            r.ip@ == self.ip@,
            r.unspecified == self.unspecified,
            r.port == self.port,
    {
        ServerAddress { ip: self.ip.clone(), unspecified: self.unspecified, port: self.port }
    }
}

/// What is asked of the server. Port 0 stands for any that is free.
#[derive(Debug, Clone, Copy, PartialEq, Eq, Structural)]
pub struct ServerConfig {
    pub port: u16,
    pub mode: ServerMode,
}

/// What is known of a server that listens.
pub struct ServerState {
    pub local_addr: ServerAddress,
    pub auth_token: AuthToken,
    pub pairing_url: String,
    pub mode: ServerMode,
    pub public_url: Option<String>,
}

/// What is known of a server that listens.
pub ghost struct StateView {
    pub ip: Seq<char>,
    pub unspecified: bool,
    pub port: u16,
    pub token: Seq<char>,
    pub pairing_url: Seq<char>,
    pub mode: ServerMode,
    pub public_url: Option<Seq<char>>,
}

impl View for ServerState {
    type V = StateView;

    open spec fn view(&self) -> StateView {
        StateView {
            ip: self.local_addr.ip@,
            unspecified: self.local_addr.unspecified,
            port: self.local_addr.port,
            token: self.auth_token.text(),
            pairing_url: self.pairing_url@,
            mode: self.mode,
            public_url: text::opt_view(self.public_url),
        }
    }
}

/// The interface that the server listens on: that of the machine itself for the internet, where the
/// tunnel reaches it, and all of them for the local network.
pub fn bind_ip(mode: ServerMode) -> (r: String)
    ensures
        r@ == match mode {
            ServerMode::Internet => "127.0.0.1"@,
            ServerMode::Local => "0.0.0.0"@,
        },
{
    match mode {
        ServerMode::Internet => "127.0.0.1".to_owned(),
        ServerMode::Local => "0.0.0.0".to_owned(),
    }
}

/// The address at which a device finds the server.
pub open spec fn pairing_url(host: Seq<char>, port: u16, token: Seq<char>) -> Seq<char> {
    "http://"@ + host + ":"@ + text::decimal(port as nat) + "?token="@ + token
}

/// The host in the address at which a device finds the server. `local_ip` is the address of the
/// machine in the local network, or why it is not known.
pub open spec fn pairing_host(
    addr: ServerAddress,
    mode: ServerMode,
    local_ip: Result<String, String>,
) -> Result<Seq<char>, Seq<char>> {
    match mode {
        ServerMode::Internet => Ok("localhost"@),
        ServerMode::Local => if addr.unspecified {
            match local_ip {
                Ok(ip) => Ok(ip@),
                Err(e) => Err(e@),
            }
        } else {
            Ok(addr.ip@)
        },
    }
}

/// The address at which a device finds the server.
pub fn build_pairing_url(
    addr: &ServerAddress,
    token: &AuthToken,
    mode: ServerMode,
    local_ip: &Result<String, String>,
) -> (r: Result<String, String>)
    ensures
        match r {
            Ok(url) => pairing_host(*addr, mode, *local_ip) matches Ok(host) && url@
                == pairing_url(host, addr.port, token.text()),
            Err(e) => pairing_host(*addr, mode, *local_ip) == Err::<Seq<char>, Seq<char>>(e@),
        },
{
    let host = match mode {
        ServerMode::Internet => "localhost".to_owned(),
        ServerMode::Local => {
            if addr.unspecified {
                match local_ip {
                    Ok(ip) => ip.clone(),
                    Err(e) => return Err(e.clone()),
                }
            } else {
                addr.ip.clone()
            }
        },
    };
    let mut out = "http://".to_owned();
    out.append(host.as_str());
    out.append(":");
    out.append(text::decimal_text(addr.port as u128).as_str());
    out.append("?token=");
    out.append(token.as_str());
    Ok(out)
}

/// A server. `tunnel` says that a tunnel leads to it.
pub struct RemoteAgentServer {
    pub config: ServerConfig,
    pub state: Option<ServerState>,
    pub token_manager: TokenManager,
    pub tunnel: bool,
}

/// What is known of a server when its tunnel has an address.
pub open spec fn with_public_url(s: StateView, tunnel: bool, url: Option<Seq<char>>) -> StateView {
    if s.mode == ServerMode::Internet && tunnel && url is Some {
        StateView { public_url: url, ..s }
    } else {
        s
    }
}

impl RemoteAgentServer {
    /// A server that does not listen yet, with a new token.
    pub fn new(config: ServerConfig) -> (r: RemoteAgentServer)
        ensures
            r.config == config,
            r.state is None,
            !r.tunnel,
            auth::is_fresh(r.token_manager.current()),
    {
        RemoteAgentServer {
            config,
            state: None,
            token_manager: TokenManager::new(),
            tunnel: false,
        }
    }

    /// The server listens. Says whether a tunnel is to be opened. Without an address for devices the
    /// server does not start.
    pub fn started(&mut self, local_addr: ServerAddress, local_ip: &Result<String, String>) -> (r:
        Result<bool, String>)
        ensures
            final(self).config == old(self).config,
            final(self).token_manager == old(self).token_manager,
            match r {
                Ok(tunnel) => pairing_host(local_addr, old(self).config.mode, *local_ip) matches Ok(
                    host,
                ) && tunnel == (old(self).config.mode == ServerMode::Internet)
                    && final(self).tunnel == (tunnel || old(self).tunnel) && (final(self).state
                    matches Some(s) && s@ == (StateView {
                    ip: local_addr.ip@,
                    unspecified: local_addr.unspecified,
                    port: local_addr.port,
                    token: old(self).token_manager.current(),
                    pairing_url: pairing_url(
                        host,
                        local_addr.port,
                        old(self).token_manager.current(),
                    ),
                    mode: old(self).config.mode,
                    public_url: None,
                })),
                Err(e) => pairing_host(local_addr, old(self).config.mode, *local_ip) == Err::<
                    Seq<char>,
                    Seq<char>,
                >(e@) && final(self).state == old(self).state && final(self).tunnel == old(self).tunnel,
            },
    {
        let mode = self.config.mode;
        let auth_token = self.token_manager.current_token().copy();
        match build_pairing_url(&local_addr, &auth_token, mode, local_ip) {
            Ok(pairing_url) => {
                self.state = Some(
                    ServerState { local_addr, auth_token, pairing_url, mode, public_url: None },
                );
                match mode {
                    ServerMode::Internet => {
                        self.tunnel = true;
                        Ok(true)
                    },
                    ServerMode::Local => Ok(false),
                }
            },
            Err(e) => Err(e),
        }
    }

    /// Stops the server. Says whether a tunnel is to be closed.
    pub fn stop(&mut self) -> (r: bool)
        ensures
            r == old(self).tunnel,
            !final(self).tunnel,
            final(self).state is None,
            final(self).config == old(self).config,
            final(self).token_manager == old(self).token_manager,
    {
        let tunnel = self.tunnel;
        self.tunnel = false;
        self.state = None;
        tunnel
    }

    /// What is known of the server. `tunnel_url` is the address of its tunnel, as far as there is one.
    pub fn state(&self, tunnel_url: &Option<String>) -> (r: Option<ServerState>)
        ensures
            match self.state {
                Some(s) => r matches Some(t) && t@ == with_public_url(
                    s@,
                    self.tunnel,
                    text::opt_view(*tunnel_url),
                ),
                None => r is None,
            },
    {
        match &self.state {
            Some(s) => {
                let mut public_url = match &s.public_url {
                    Some(u) => Some(u.clone()),
                    None => None,
                };
                if self.tunnel {
                    match s.mode {
                        ServerMode::Internet => {
                            if let Some(u) = tunnel_url {
                                public_url = Some(u.clone());
                            }
                        },
                        ServerMode::Local => {},
                    }
                }
                Some(
                    ServerState {
                        local_addr: s.local_addr.copy(),
                        auth_token: s.auth_token.copy(),
                        pairing_url: s.pairing_url.clone(),
                        mode: s.mode,
                        public_url,
                    },
                )
            },
            None => None,
        }
    }
}

// ---------------------------------------------------------------------------
// Requests
// ---------------------------------------------------------------------------

/// Why a device is turned away.
#[derive(Debug, Clone, Copy, PartialEq, Eq, Structural)]
pub enum Refusal {
    MissingToken,
    InvalidToken,
}

/// The status of an answer to one that is turned away.
pub const UNAUTHORIZED: u16 = 401;

impl Refusal {
    /// The status and the text of the answer.
    pub fn response(&self) -> (r: (u16, String))
        ensures
            r.0 == UNAUTHORIZED,
            r.1@ == match self {
                Refusal::MissingToken => "Missing authentication token"@,
                Refusal::InvalidToken => "Invalid authentication token"@,
            },
    {
        match self {
            Refusal::MissingToken => (UNAUTHORIZED, "Missing authentication token".to_owned()),
            Refusal::InvalidToken => (UNAUTHORIZED, "Invalid authentication token".to_owned()),
        }
    }
}

/// Decides whether a device that shows a token is let in.
pub fn let_in(token: &Option<String>, manager: &TokenManager) -> (r: Result<(), Refusal>)
    ensures
        match token {
            None => r == Err::<(), Refusal>(Refusal::MissingToken),
            Some(t) => if t@ == manager.current() {
                r is Ok
            } else {
                r == Err::<(), Refusal>(Refusal::InvalidToken)
            },
        },
{
    match token {
        None => Err(Refusal::MissingToken),
        Some(t) => {
            if manager.validate(&AuthToken::from_string(t.clone())) {
                Ok(())
            } else {
                Err(Refusal::InvalidToken)
            }
        },
    }
}

/// The answer to one that asks whether the server is well.
pub open spec fn health() -> json::JsonView {
    json::JsonView::Object(
        seq![
            ("status"@, json::JsonView::Text("ok"@)),
            ("service"@, json::JsonView::Text("agent-remote-server"@)),
        ],
    )
}

/// The answer to one that asks whether the server is well.
pub fn health_response() -> (r: Json)
    ensures
        r@ == health(),
{
    broadcast use json::object_view;

    let mut fields: Vec<(String, Json)> = Vec::new();
    fields.push(("status".to_owned(), Json::Text("ok".to_owned())));
    fields.push(("service".to_owned(), Json::Text("agent-remote-server".to_owned())));
    assert(json::fields_view(fields@) =~= health()->Object_0);
    Json::Object(fields)
}

} // verus!
