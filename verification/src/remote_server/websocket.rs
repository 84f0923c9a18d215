//! What devices and the server say to each other, and how it is written.

use vstd::prelude::*;

use crate::json;
use crate::json::Json;
use crate::json_text;
use crate::remote_server::agent_bridge::AgentToClientMessage;
use crate::remote_server::agent_bridge::ClientToAgentMessage;
use crate::text;

verus! {

/// What a device says.
#[derive(Debug)]
pub enum ClientMessage {
    Chat { content: String },
    GetHistory,
    Cancel,
    Ping,
}

/// What the server says.
#[allow(inconsistent_fields)]
#[derive(Debug)]
pub enum ServerMessage {
    Connected { session_id: String },
    TextChunk { entry_index: usize, content: String },
    ToolStart { entry_index: usize, tool_call_id: String, tool_name: String, tool_input: Json },
    ToolResult {
        entry_index: usize,
        tool_call_id: String,
        tool_name: String,
        result: String,
        error: Option<String>,
    },
    ResponseComplete { entry_index: usize },
    Error { message: String },
    Pong,
    HistoryEntry { role: String, content: String },
    TokenUsageUpdate { used_tokens: u64, max_tokens: u64 },
    ModelInfoUpdate { model_id: String, model_name: String },
}

// ---------------------------------------------------------------------------
// What devices say
// ---------------------------------------------------------------------------

/// What a device says.
pub ghost enum ClientView {
    Chat { content: Seq<char> },
    GetHistory,
    Cancel,
    Ping,
}

impl View for ClientMessage {
    type V = ClientView;

    open spec fn view(&self) -> ClientView {
        match self {
            ClientMessage::Chat { content } => ClientView::Chat { content: content@ },
            ClientMessage::GetHistory => ClientView::GetHistory,
            ClientMessage::Cancel => ClientView::Cancel,
            ClientMessage::Ping => ClientView::Ping,
        }
    }
}

/// How what a device says is written.
pub open spec fn client_json(m: ClientView) -> json::JsonView {
    json::JsonView::Object(
        match m {
            ClientView::Chat { content } => seq![
                ("type"@, json::JsonView::Text("chat"@)),
                ("content"@, json::JsonView::Text(content)),
            ],
            ClientView::GetHistory => seq![("type"@, json::JsonView::Text("getHistory"@))],
            ClientView::Cancel => seq![("type"@, json::JsonView::Text("cancel"@))],
            ClientView::Ping => seq![("type"@, json::JsonView::Text("ping"@))],
        },
    )
}

/// What a device says that has a name but no text.
pub open spec fn bare_message(name: Seq<char>) -> Option<ClientView> {
    if name == "getHistory"@ {
        Some(ClientView::GetHistory)
    } else if name == "cancel"@ {
        Some(ClientView::Cancel)
    } else if name == "ping"@ {
        Some(ClientView::Ping)
    } else {
        None
    }
}

/// How what a device says is read: an object with the name and the text, where fields that are not
/// known do not count, or a list of the two.
pub open spec fn client_message(j: json::JsonView) -> Option<ClientView> {
    match j {
        json::JsonView::Array(items) => if items.len() == 1 && items[0] is Text {
            bare_message(items[0]->Text_0)
        } else if items.len() == 2 && items[0] == json::JsonView::Text("chat"@) && items[1] is Text {
            Some(ClientView::Chat { content: items[1]->Text_0 })
        } else {
            None
        },
        _ => match json::text_field(j, "type"@) {
            Some(t) => if t == "chat"@ {
                match json::text_field(j, "content"@) {
                    Some(content) => Some(ClientView::Chat { content }),
                    None => None,
                }
            } else {
                bare_message(t)
            },
            None => None,
        },
    }
}

/// How often a name stands among those of the members of a text.
pub open spec fn times_named(names: Seq<Seq<char>>, name: Seq<char>) -> nat
    decreases names.len(),
{
    if names.len() == 0 {
        0
    } else {
        times_named(names.drop_last(), name) + if json::parsed_json(names.last()) == json::read_back(
            json::JsonView::Text(name),
        ) {
            1nat
        } else {
            0
        }
    }
}

/// What a device says with a text, given the value it holds: a member that counts stands once in it.
pub open spec fn client_frame(t: Seq<char>, j: json::JsonView) -> Option<ClientView> {
    let names = json_text::member_names(t);
    let fits = if j is Array {
        names.len() == 0
    } else {
        times_named(names, "type"@) == 1 && (client_message(j) matches Some(ClientView::Chat {
            ..
        }) ==> times_named(names, "content"@) == 1)
    };
    if fits {
        client_message(j)
    } else {
        None
    }
}

/// Why what a device said is not understood: it is no JSON, or no message. What is wrong with the text
/// is told by whoever reads it into a message.
#[derive(Debug, Clone, Copy, PartialEq, Eq, Structural)]
pub enum ClientError {
    Syntax,
    Message,
}

impl ClientMessage {
    /// How the message is written.
    pub fn to_json(&self) -> (r: Json)
        ensures
            r@ == client_json(self@),
    {
        broadcast use json::object_view;

        let mut fields: Vec<(String, Json)> = Vec::new();
        match self {
            ClientMessage::Chat { content } => {
                fields.push(("type".to_owned(), Json::Text("chat".to_owned())));
                fields.push(("content".to_owned(), Json::Text(content.clone())));
            },
            ClientMessage::GetHistory => {
                fields.push(("type".to_owned(), Json::Text("getHistory".to_owned())));
            },
            ClientMessage::Cancel => {
                fields.push(("type".to_owned(), Json::Text("cancel".to_owned())));
            },
            ClientMessage::Ping => {
                fields.push(("type".to_owned(), Json::Text("ping".to_owned())));
            },
        }
        assert(json::fields_view(fields@) =~= client_json(self@)->Object_0);
        Json::Object(fields)
    }

    /// The message as it is sent. Read again, it is the same message.
    pub fn to_text(&self) -> (r: String)
        ensures
            r@ == json::compact_json(client_json(self@)),
            json::parsed_json(r@) matches Ok(j) && client_frame(r@, j) == Some(self@),
    {
        proof {
            client_messages_come_back(self@);
            client_json_is_readable(self@);
        }
        let r = json::to_string(&self.to_json());
        proof {
            client_names_stand_once(self@, r@);
        }
        r
    }

    /// Reads a message from a JSON value.
    pub fn from_json(j: &Json) -> (r: Option<ClientMessage>)
        ensures
            match r {
                Some(m) => client_message(j@) == Some(m@),
                None => client_message(j@) is None,
            },
    {
        broadcast use json::array_view;

        match j {
            Json::Array(items) => {
                if items.len() == 1 {
                    assert(j@->Array_0[0] == items@[0]@);
                    match items[0].as_str() {
                        Some(name) => Self::bare(name.as_str()),
                        None => None,
                    }
                } else if items.len() == 2 {
                    assert(j@->Array_0[0] == items@[0]@);
                    assert(j@->Array_0[1] == items@[1]@);
                    match (items[0].as_str(), items[1].as_str()) {
                        (Some(name), Some(content)) => if text::same(name.as_str(), "chat") {
                            Some(ClientMessage::Chat { content: content.clone() })
                        } else {
                            None
                        },
                        _ => None,
                    }
                } else {
                    None
                }
            },
            _ => Self::from_object(j),
        }
    }

    fn from_object(j: &Json) -> (r: Option<ClientMessage>)
        requires
            !(j@ is Array),
        ensures
            match r {
                Some(m) => client_message(j@) == Some(m@),
                None => client_message(j@) is None,
            },
    {
        let name = match j.get("type") {
            Some(t) => match t.as_str() {
                Some(s) => s,
                None => return None,
            },
            None => return None,
        };
        if text::same(name.as_str(), "chat") {
            match j.get("content") {
                Some(c) => match c.as_str() {
                    Some(s) => Some(ClientMessage::Chat { content: s.clone() }),
                    None => None,
                },
                None => None,
            }
        } else {
            Self::bare(name.as_str())
        }
    }

    fn bare(name: &str) -> (r: Option<ClientMessage>)
        ensures
            match r {
                Some(m) => bare_message(name@) == Some(m@),
                None => bare_message(name@) is None,
            },
    {
        if text::same(name, "getHistory") {
            Some(ClientMessage::GetHistory)
        } else if text::same(name, "cancel") {
            Some(ClientMessage::Cancel)
        } else if text::same(name, "ping") {
            Some(ClientMessage::Ping)
        } else {
            None
        }
    }

    /// Reads a message as it was sent.
    pub fn from_text(s: &str) -> (r: Result<ClientMessage, ClientError>)
        ensures
            match json::parsed_json(s@) {
                Ok(j) => match r {
                    Ok(m) => client_frame(s@, j) == Some(m@),
                    Err(e) => client_frame(s@, j) is None && e == ClientError::Message,
                },
                Err(_) => r matches Err(e) && e == ClientError::Syntax,
            },
    {
        match json::from_str(s) {
            Ok(j) => match Self::from_frame(s, &j) {
                Some(m) => Ok(m),
                None => Err(ClientError::Message),
            },
            Err(_) => Err(ClientError::Syntax),
        }
    }

    /// Reads a message from a text and the JSON value that it holds.
    pub fn from_frame(s: &str, j: &Json) -> (r: Option<ClientMessage>)
        ensures
            match r {
                Some(m) => client_frame(s@, j@) == Some(m@),
                None => client_frame(s@, j@) is None,
            },
    {
        let names = json_text::member_names_of(s);
        assert(names@.len() == text::views(names@).len());
        let message = match Self::from_json(j) {
            Some(m) => m,
            None => return None,
        };
        let fits = match j {
            Json::Array(_) => names.len() == 0,
            _ => count_named(&names, "type") == 1 && match &message {
                ClientMessage::Chat { .. } => count_named(&names, "content") == 1,
                _ => true,
            },
        };
        if fits {
            Some(message)
        } else {
            None
        }
    }
}

fn count_named(names: &Vec<String>, name: &str) -> (n: usize)
    ensures
        n == times_named(text::views(names@), name@),
{
    let ghost all = text::views(names@);
    let mut n: usize = 0;
    for i in 0..names.len()
        invariant
            all == text::views(names@),
            n <= i,
            n == times_named(all.take(i as int), name@),
    {
        assert(all.take(i + 1).drop_last() =~= all.take(i as int));
        assert(all.take(i + 1).last() == names@[i as int]@);
        let meant = match json::from_str(names[i].as_str()) {
            Ok(Json::Text(t)) => text::same(t.as_str(), name),
            _ => false,
        };
        if meant {
            n = n + 1;
        }
    }
    assert(all.take(all.len() as int) =~= all);
    n
}

/// What is said first on a connection that opens: its own identifier.
pub fn opened(id: &str) -> (r: ServerMessage)
    ensures
        r@ == (ServerView::Connected { session_id: id@ }),
{
    ServerMessage::Connected { session_id: id.to_owned() }
}

/// What the agent is asked once a connection has been greeted.
pub fn after_greeting() -> (r: ClientToAgentMessage)
    ensures
        r is GetInitialState,
{
    ClientToAgentMessage::GetInitialState
}

/// What is said when the agent cannot be reached.
pub fn agent_unreachable(reason: &str) -> (r: ServerMessage)
    ensures
        r@ == (ServerView::Error { message: "Failed to send to agent: "@ + reason@ }),
{
    let mut message = "Failed to send to agent: ".to_owned();
    message.append(reason);
    ServerMessage::Error { message }
}

/// What is said when a message is not understood.
pub fn invalid_message(reason: &str) -> (r: ServerMessage)
    ensures
        r@ == (ServerView::Error { message: "Invalid message format: "@ + reason@ }),
{
    let mut message = "Invalid message format: ".to_owned();
    message.append(reason);
    ServerMessage::Error { message }
}

// ---------------------------------------------------------------------------
// What the server says
// ---------------------------------------------------------------------------

/// What the server says.
#[allow(inconsistent_fields)]
pub ghost enum ServerView {
    Connected { session_id: Seq<char> },
    TextChunk { entry_index: usize, content: Seq<char> },
    ToolStart {
        entry_index: usize,
        tool_call_id: Seq<char>,
        tool_name: Seq<char>,
        tool_input: json::JsonView,
    },
    ToolResult {
        entry_index: usize,
        tool_call_id: Seq<char>,
        tool_name: Seq<char>,
        result: Seq<char>,
        error: Option<Seq<char>>,
    },
    ResponseComplete { entry_index: usize },
    Error { message: Seq<char> },
    Pong,
    HistoryEntry { role: Seq<char>, content: Seq<char> },
    TokenUsageUpdate { used_tokens: u64, max_tokens: u64 },
    ModelInfoUpdate { model_id: Seq<char>, model_name: Seq<char> },
}

impl View for ServerMessage {
    type V = ServerView;

    open spec fn view(&self) -> ServerView {
        match self {
            ServerMessage::Connected { session_id } => ServerView::Connected {
                session_id: session_id@,
            },
            ServerMessage::TextChunk { entry_index, content } => ServerView::TextChunk {
                entry_index: *entry_index,
                content: content@,
            },
            ServerMessage::ToolStart { entry_index, tool_call_id, tool_name, tool_input } =>
            ServerView::ToolStart {
                entry_index: *entry_index,
                tool_call_id: tool_call_id@,
                tool_name: tool_name@,
                tool_input: tool_input@,
            },
            ServerMessage::ToolResult { entry_index, tool_call_id, tool_name, result, error } =>
            ServerView::ToolResult {
                entry_index: *entry_index,
                tool_call_id: tool_call_id@,
                tool_name: tool_name@,
                result: result@,
                error: text::opt_view(*error),
            },
            ServerMessage::ResponseComplete { entry_index } => ServerView::ResponseComplete {
                entry_index: *entry_index,
            },
            ServerMessage::Error { message } => ServerView::Error { message: message@ },
            ServerMessage::Pong => ServerView::Pong,
            ServerMessage::HistoryEntry { role, content } => ServerView::HistoryEntry {
                role: role@,
                content: content@,
            },
            ServerMessage::TokenUsageUpdate { used_tokens, max_tokens } =>
            ServerView::TokenUsageUpdate { used_tokens: *used_tokens, max_tokens: *max_tokens },
            ServerMessage::ModelInfoUpdate { model_id, model_name } =>
            ServerView::ModelInfoUpdate { model_id: model_id@, model_name: model_name@ },
        }
    }
}

/// How what the server says is written.
pub open spec fn server_json(m: ServerView) -> json::JsonView {
    json::JsonView::Object(
        match m {
            ServerView::Connected { session_id } => seq![
                ("type"@, json::JsonView::Text("connected"@)),
                ("session_id"@, json::JsonView::Text(session_id)),
            ],
            ServerView::TextChunk { entry_index, content } => seq![
                ("type"@, json::JsonView::Text("textChunk"@)),
                ("entry_index"@, json::JsonView::Unsigned(entry_index as u64)),
                ("content"@, json::JsonView::Text(content)),
            ],
            ServerView::ToolStart { entry_index, tool_call_id, tool_name, tool_input } => seq![
                ("type"@, json::JsonView::Text("toolStart"@)),
                ("entry_index"@, json::JsonView::Unsigned(entry_index as u64)),
                ("tool_call_id"@, json::JsonView::Text(tool_call_id)),
                ("tool_name"@, json::JsonView::Text(tool_name)),
                ("tool_input"@, tool_input),
            ],
            ServerView::ToolResult { entry_index, tool_call_id, tool_name, result, error } => seq![
                ("type"@, json::JsonView::Text("toolResult"@)),
                ("entry_index"@, json::JsonView::Unsigned(entry_index as u64)),
                ("tool_call_id"@, json::JsonView::Text(tool_call_id)),
                ("tool_name"@, json::JsonView::Text(tool_name)),
                ("result"@, json::JsonView::Text(result)),
                ("error"@, json::opt_text_view(error)),
            ],
            ServerView::ResponseComplete { entry_index } => seq![
                ("type"@, json::JsonView::Text("responseComplete"@)),
                ("entry_index"@, json::JsonView::Unsigned(entry_index as u64)),
            ],
            ServerView::Error { message } => seq![
                ("type"@, json::JsonView::Text("error"@)),
                ("message"@, json::JsonView::Text(message)),
            ],
            ServerView::Pong => seq![("type"@, json::JsonView::Text("pong"@))],
            ServerView::HistoryEntry { role, content } => seq![
                ("type"@, json::JsonView::Text("historyEntry"@)),
                ("role"@, json::JsonView::Text(role)),
                ("content"@, json::JsonView::Text(content)),
            ],
            ServerView::TokenUsageUpdate { used_tokens, max_tokens } => seq![
                ("type"@, json::JsonView::Text("tokenUsageUpdate"@)),
                ("used_tokens"@, json::JsonView::Unsigned(used_tokens)),
                ("max_tokens"@, json::JsonView::Unsigned(max_tokens)),
            ],
            ServerView::ModelInfoUpdate { model_id, model_name } => seq![
                ("type"@, json::JsonView::Text("modelInfoUpdate"@)),
                ("model_id"@, json::JsonView::Text(model_id)),
                ("model_name"@, json::JsonView::Text(model_name)),
            ],
        },
    )
}

fn kind(name: &str) -> (fields: Vec<(String, Json)>)
    ensures
        json::fields_view(fields@) == seq![("type"@, json::JsonView::Text(name@))],
{
    let mut fields: Vec<(String, Json)> = Vec::new();
    fields.push(("type".to_owned(), Json::Text(name.to_owned())));
    assert(json::fields_view(fields@) =~= seq![("type"@, json::JsonView::Text(name@))]);
    fields
}

impl ServerMessage {
    /// How the message is written.
    pub fn to_json(&self) -> (r: Json)
        ensures
            r@ == server_json(self@),
    {
        broadcast use json::object_view;

        let fields = match self {
            ServerMessage::Connected { session_id } => {
                let mut fields = kind("connected");
                json::push_field(&mut fields, "session_id", Json::Text(session_id.clone()));
                fields
            },
            ServerMessage::TextChunk { entry_index, content } => {
                let mut fields = kind("textChunk");
                json::push_field(&mut fields, "entry_index", Json::Unsigned(*entry_index as u64));
                json::push_field(&mut fields, "content", Json::Text(content.clone()));
                fields
            },
            ServerMessage::ToolStart { entry_index, tool_call_id, tool_name, tool_input } => {
                let mut fields = kind("toolStart");
                json::push_field(&mut fields, "entry_index", Json::Unsigned(*entry_index as u64));
                json::push_field(&mut fields, "tool_call_id", Json::Text(tool_call_id.clone()));
                json::push_field(&mut fields, "tool_name", Json::Text(tool_name.clone()));
                json::push_field(&mut fields, "tool_input", tool_input.copy());
                fields
            },
            ServerMessage::ToolResult { entry_index, tool_call_id, tool_name, result, error } => {
                let mut fields = kind("toolResult");
                json::push_field(&mut fields, "entry_index", Json::Unsigned(*entry_index as u64));
                json::push_field(&mut fields, "tool_call_id", Json::Text(tool_call_id.clone()));
                json::push_field(&mut fields, "tool_name", Json::Text(tool_name.clone()));
                json::push_field(&mut fields, "result", Json::Text(result.clone()));
                json::push_field(&mut fields, "error", json::opt_text_value(error));
                fields
            },
            ServerMessage::ResponseComplete { entry_index } => {
                let mut fields = kind("responseComplete");
                json::push_field(&mut fields, "entry_index", Json::Unsigned(*entry_index as u64));
                fields
            },
            ServerMessage::Error { message } => {
                let mut fields = kind("error");
                json::push_field(&mut fields, "message", Json::Text(message.clone()));
                fields
            },
            ServerMessage::Pong => kind("pong"),
            ServerMessage::HistoryEntry { role, content } => {
                let mut fields = kind("historyEntry");
                json::push_field(&mut fields, "role", Json::Text(role.clone()));
                json::push_field(&mut fields, "content", Json::Text(content.clone()));
                fields
            },
            ServerMessage::TokenUsageUpdate { used_tokens, max_tokens } => {
                let mut fields = kind("tokenUsageUpdate");
                json::push_field(&mut fields, "used_tokens", Json::Unsigned(*used_tokens));
                json::push_field(&mut fields, "max_tokens", Json::Unsigned(*max_tokens));
                fields
            },
            ServerMessage::ModelInfoUpdate { model_id, model_name } => {
                let mut fields = kind("modelInfoUpdate");
                json::push_field(&mut fields, "model_id", Json::Text(model_id.clone()));
                json::push_field(&mut fields, "model_name", Json::Text(model_name.clone()));
                fields
            },
        };
        assert(json::fields_view(fields@) =~= server_json(self@)->Object_0);
        Json::Object(fields)
    }

    /// The message as it is sent. Where the input of a tool can be read again, so can the message.
    pub fn to_text(&self) -> (r: String)
        ensures
            r@ == json::compact_json(server_json(self@)),
            json::readable(server_json(self@), json::max_depth()) ==> json::parsed_json(r@) == Ok::<
                json::JsonView,
                Seq<char>,
            >(server_json(self@)),
    {
        json::to_string(&self.to_json())
    }
}

// ---------------------------------------------------------------------------
// What passes through
// ---------------------------------------------------------------------------

/// What the server says when the agent says something.
pub open spec fn passed_on(m: AgentToClientMessage) -> ServerView {
    match m {
        AgentToClientMessage::TextChunk { entry_index, content } => ServerView::TextChunk {
            entry_index,
            content: content@,
        },
        AgentToClientMessage::ToolStart { entry_index, tool_call_id, tool_name, tool_input } =>
        ServerView::ToolStart {
            entry_index,
            tool_call_id: tool_call_id@,
            tool_name: tool_name@,
            tool_input: tool_input@,
        },
        AgentToClientMessage::ToolResult { entry_index, tool_call_id, tool_name, result, error } =>
        ServerView::ToolResult {
            entry_index,
            tool_call_id: tool_call_id@,
            tool_name: tool_name@,
            result: result@,
            error: text::opt_view(error),
        },
        AgentToClientMessage::ResponseComplete { entry_index } => ServerView::ResponseComplete {
            entry_index,
        },
        AgentToClientMessage::Error { message } => ServerView::Error { message: message@ },
        AgentToClientMessage::HistoryEntry { role, content } => ServerView::HistoryEntry {
            role: role@,
            content: content@,
        },
        AgentToClientMessage::TokenUsageUpdate { used_tokens, max_tokens } =>
        ServerView::TokenUsageUpdate { used_tokens, max_tokens },
        AgentToClientMessage::ModelInfoUpdate { model_id, model_name } =>
        ServerView::ModelInfoUpdate { model_id: model_id@, model_name: model_name@ },
    }
}

/// Passes on what the agent says.
pub fn server_message(m: AgentToClientMessage) -> (r: ServerMessage)
    ensures
        r@ == passed_on(m),
{
    match m {
        AgentToClientMessage::TextChunk { entry_index, content } => ServerMessage::TextChunk {
            entry_index,
            content,
        },
        AgentToClientMessage::ToolStart { entry_index, tool_call_id, tool_name, tool_input } =>
        ServerMessage::ToolStart { entry_index, tool_call_id, tool_name, tool_input },
        AgentToClientMessage::ToolResult { entry_index, tool_call_id, tool_name, result, error } =>
        ServerMessage::ToolResult { entry_index, tool_call_id, tool_name, result, error },
        AgentToClientMessage::ResponseComplete { entry_index } => ServerMessage::ResponseComplete {
            entry_index,
        },
        AgentToClientMessage::Error { message } => ServerMessage::Error { message },
        AgentToClientMessage::HistoryEntry { role, content } => ServerMessage::HistoryEntry {
            role,
            content,
        },
        AgentToClientMessage::TokenUsageUpdate { used_tokens, max_tokens } =>
        ServerMessage::TokenUsageUpdate { used_tokens, max_tokens },
        AgentToClientMessage::ModelInfoUpdate { model_id, model_name } =>
        ServerMessage::ModelInfoUpdate { model_id, model_name },
    }
}

/// What is done when a device says something.
#[derive(Debug)]
pub enum ClientAction {
    ToAgent(ClientToAgentMessage),
    Reply(ServerMessage),
}

/// Decides what is done when a device says something: all but a ping goes to the agent.
pub fn handle_client_message(message: ClientMessage) -> (r: ClientAction)
    ensures
        match message {
            ClientMessage::Chat { content } => r matches ClientAction::ToAgent(
                ClientToAgentMessage::Chat { content: c },
            ) && c@ == content@,
            ClientMessage::GetHistory => r matches ClientAction::ToAgent(
                ClientToAgentMessage::GetHistory,
            ),
            ClientMessage::Cancel => r matches ClientAction::ToAgent(ClientToAgentMessage::Cancel),
            ClientMessage::Ping => r matches ClientAction::Reply(ServerMessage::Pong),
        },
{
    match message {
        ClientMessage::Chat { content } => ClientAction::ToAgent(
            ClientToAgentMessage::Chat { content },
        ),
        ClientMessage::GetHistory => ClientAction::ToAgent(ClientToAgentMessage::GetHistory),
        ClientMessage::Cancel => ClientAction::ToAgent(ClientToAgentMessage::Cancel),
        ClientMessage::Ping => ClientAction::Reply(ServerMessage::Pong),
    }
}

/// What comes in from a device.
#[derive(Debug)]
pub enum Frame {
    Text(String),
    Binary,
    Ping,
    Pong,
    Close,
    Failed,
}

/// What is done when something comes in. A message that cannot be read as one is answered by
/// whoever knows why.
#[derive(Debug)]
pub enum FrameAction {
    Client(ClientAction),
    Invalid(ClientError),
    Ignore,
    Disconnect,
}

/// Decides what is done when something comes in.
pub fn handle_frame(frame: &Frame) -> (r: FrameAction)
    ensures
        match frame {
            Frame::Text(t) => match json::parsed_json(t@) {
                Ok(j) => match client_frame(t@, j) {
                    Some(ClientView::Chat { content }) => r matches FrameAction::Client(
                        ClientAction::ToAgent(ClientToAgentMessage::Chat { content: c }),
                    ) && c@ == content,
                    Some(ClientView::GetHistory) => r matches FrameAction::Client(
                        ClientAction::ToAgent(ClientToAgentMessage::GetHistory),
                    ),
                    Some(ClientView::Cancel) => r matches FrameAction::Client(
                        ClientAction::ToAgent(ClientToAgentMessage::Cancel),
                    ),
                    Some(ClientView::Ping) => r matches FrameAction::Client(
                        ClientAction::Reply(ServerMessage::Pong),
                    ),
                    None => r matches FrameAction::Invalid(e) && e == ClientError::Message,
                },
                Err(_) => r matches FrameAction::Invalid(e) && e == ClientError::Syntax,
            },
            Frame::Binary | Frame::Ping | Frame::Pong => r is Ignore,
            Frame::Close | Frame::Failed => r is Disconnect,
        },
{
    match frame {
        Frame::Text(t) => match ClientMessage::from_text(t.as_str()) {
            Ok(m) => FrameAction::Client(handle_client_message(m)),
            Err(e) => FrameAction::Invalid(e),
        },
        Frame::Binary => FrameAction::Ignore,
        Frame::Ping => FrameAction::Ignore,
        Frame::Pong => FrameAction::Ignore,
        Frame::Close => FrameAction::Disconnect,
        Frame::Failed => FrameAction::Disconnect,
    }
}

// ---------------------------------------------------------------------------
// Laws
// ---------------------------------------------------------------------------

/// What a device writes is read as what it said.
pub proof fn client_messages_come_back(m: ClientView)
    ensures
        client_message(client_json(m)) == Some(m),
{
    reveal_strlit("type");
    reveal_strlit("content");
    reveal_strlit("chat");
    reveal_strlit("getHistory");
    reveal_strlit("cancel");
    reveal_strlit("ping");
    reveal_with_fuel(json::field_index, 3);
    let fields = client_json(m)->Object_0;
    assert(fields[0].0 == "type"@);
    assert("type"@.len() != "content"@.len());
    assert("chat"@[0] == 'c' && "ping"@[0] == 'p');
    assert("getHistory"@.len() == 10 && "cancel"@.len() == 6 && "chat"@.len() == 4);
}

/// What a device writes can be read again.
proof fn client_json_is_readable(m: ClientView)
    ensures
        json::readable(client_json(m), json::max_depth()),
{
    reveal_with_fuel(json::readable, 2);
    reveal_strlit("type");
    reveal_strlit("content");
    reveal_strlit("$serde_json::private::RawValue");
    assert("type"@.len() != "content"@.len());
    assert(json::raw_mark().len() == 30);
    assert("type"@.len() == 4);
}

/// The names that a device writes stand once in the text.
proof fn client_names_stand_once(m: ClientView, t: Seq<char>)
    requires
        json::has_names(t, client_json(m)->Object_0),
    ensures
        client_frame(t, client_json(m)) == client_message(client_json(m)),
{
    client_messages_come_back(m);
    reveal_strlit("type");
    reveal_strlit("content");
    assert("type"@.len() != "content"@.len());
    let names = json_text::member_names(t);
    let fields = client_json(m)->Object_0;
    reveal_with_fuel(times_named, 4);
    assert(json::parsed_json(names[0]) == json::read_back(json::JsonView::Text(fields[0].0)));
    if m is Chat {
        assert(json::parsed_json(names[1]) == json::read_back(json::JsonView::Text(fields[1].0)));
        assert(names.drop_last().last() == names[0]);
    }
}

} // verus!
