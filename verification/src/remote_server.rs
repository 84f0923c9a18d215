//! A server that lets other devices talk to the agent.

use vstd::prelude::*;

use crate::remote_server::qr::QrFailure;
use crate::remote_server::server::ServerState;

pub mod agent_bridge;
pub mod agent_coordinator;
pub mod auth;
pub mod cloudflared;
pub mod laws;
pub mod qr;
pub mod server;
pub mod tunnel_laws;
pub mod websocket;

verus! {

/// Why a server is not started.
#[derive(Debug, Clone, Copy, PartialEq, Eq, Structural)]
pub enum StartError {
    AlreadyRunning,
}

impl StartError {
    /// The error in words.
    pub fn message(&self) -> (r: String)
        ensures
            r@ == "Server already running"@,
    {
        "Server already running".to_owned()
    }
}

/// A server that may be running. What is known of it comes once it listens.
pub struct AgentRemoteServer {
    pub running: bool,
    pub state: Option<ServerState>,
}

impl AgentRemoteServer {
    /// A server that is not running.
    pub fn new() -> (r: AgentRemoteServer)
        ensures
            !r.running,
            r.state is None,
    {
        AgentRemoteServer { running: false, state: None }
    }

    /// Starts the server, unless it is running.
    pub fn start(&mut self) -> (r: Result<(), StartError>)
        ensures
            match r {
                Ok(()) => !old(self).running && final(self).running && final(self).state is None,
                Err(e) => old(self).running && *final(self) == *old(self)
                    && e == StartError::AlreadyRunning,
            },
    {
        if self.running {
            return Err(StartError::AlreadyRunning);
        }
        self.running = true;
        self.state = None;
        Ok(())
    }

    /// Stops the server.
    pub fn stop(&mut self)
        ensures
            !final(self).running,
            final(self).state is None,
    {
        self.running = false;
        self.state = None;
    }

    /// Whether the server is running.
    pub fn is_running(&self) -> (r: bool)
        ensures
            r == self.running,
    {
        self.running
    }

    /// What is known of the server.
    pub fn state(&self) -> (r: &Option<ServerState>)
        ensures
            *r == self.state,
    {
        &self.state
    }

    /// A picture of the address at which a device finds the server.
    pub fn qr_code(&self) -> (r: Option<Vec<u8>>)
        ensures
            match self.state {
                Some(s) => match r {
                    Some(png) => qr::code_png(s.pairing_url@) == Ok::<Seq<u8>, Seq<char>>(png@),
                    None => qr::code_png(s.pairing_url@) is Err,
                },
                None => r is None,
            },
    {
        match &self.state {
            Some(s) => match qr::generate_qr_code(s.pairing_url.as_str()) {
                Ok(png) => Some(png),
                Err(QrFailure(_)) => None,
            },
            None => None,
        }
    }
}

impl Default for AgentRemoteServer {
    fn default() -> (r: AgentRemoteServer)
        ensures
            !r.running,
            r.state is None,
    {
        AgentRemoteServer::new()
    }
}

} // verus!
