//! What holds of what devices are told and shown.

use vstd::prelude::*;

use crate::json;
use crate::remote_server::agent_bridge;
use crate::remote_server::agent_bridge::AgentToClientMessage;
use crate::remote_server::agent_coordinator;
use crate::remote_server::agent_coordinator::{
    SelectedModel, ThreadChange, ThreadEntry, ToolCallEntry, Usage, UserChunk,
};
use crate::remote_server::server;
use crate::remote_server::server::{ServerAddress, ServerMode};
use crate::remote_server::websocket;
use crate::text;
use crate::text_laws;
use crate::tools::laws;
use crate::ui::remote_server_modal;

verus! {

// ---------------------------------------------------------------------------
// What is written
// ---------------------------------------------------------------------------

/// Whether a value is written under a kind.
pub open spec fn is_of_kind(j: json::JsonView, kind: Seq<char>) -> bool {
    laws::has_entry(j, "type"@, json::JsonView::Text(kind))
}

/// What the server says is written under its kind, with all that it says.
pub proof fn all_that_is_said_is_written(m: websocket::ServerView)
    ensures
        ({
            let j = websocket::server_json(m);
            match m {
                websocket::ServerView::Connected { session_id } => is_of_kind(j, "connected"@)
                    && laws::has_entry(j, "session_id"@, json::JsonView::Text(session_id)),
                websocket::ServerView::TextChunk { entry_index, content } => is_of_kind(
                    j,
                    "textChunk"@,
                ) && laws::has_entry(
                    j,
                    "entry_index"@,
                    json::JsonView::Unsigned(entry_index as u64),
                ) && laws::has_entry(j, "content"@, json::JsonView::Text(content)),
                websocket::ServerView::ToolStart {
                    entry_index,
                    tool_call_id,
                    tool_name,
                    tool_input,
                } => is_of_kind(j, "toolStart"@) && laws::has_entry(
                    j,
                    "entry_index"@,
                    json::JsonView::Unsigned(entry_index as u64),
                ) && laws::has_entry(j, "tool_call_id"@, json::JsonView::Text(tool_call_id))
                    && laws::has_entry(j, "tool_name"@, json::JsonView::Text(tool_name))
                    && laws::has_entry(j, "tool_input"@, tool_input),
                websocket::ServerView::ToolResult {
                    entry_index,
                    tool_call_id,
                    tool_name,
                    result,
                    error,
                } => is_of_kind(j, "toolResult"@) && laws::has_entry(
                    j,
                    "entry_index"@,
                    json::JsonView::Unsigned(entry_index as u64),
                ) && laws::has_entry(j, "tool_call_id"@, json::JsonView::Text(tool_call_id))
                    && laws::has_entry(j, "tool_name"@, json::JsonView::Text(tool_name))
                    && laws::has_entry(j, "result"@, json::JsonView::Text(result)) && (error matches
                    Some(e) ==> laws::has_entry(j, "error"@, json::JsonView::Text(e))) && (
                error is None ==> laws::has_entry(j, "error"@, json::JsonView::Null)),
                websocket::ServerView::ResponseComplete { entry_index } => is_of_kind(
                    j,
                    "responseComplete"@,
                ) && laws::has_entry(
                    j,
                    "entry_index"@,
                    json::JsonView::Unsigned(entry_index as u64),
                ),
                websocket::ServerView::Error { message } => is_of_kind(j, "error"@)
                    && laws::has_entry(j, "message"@, json::JsonView::Text(message)),
                websocket::ServerView::Pong => is_of_kind(j, "pong"@),
                websocket::ServerView::HistoryEntry { role, content } => is_of_kind(
                    j,
                    "historyEntry"@,
                ) && laws::has_entry(j, "role"@, json::JsonView::Text(role)) && laws::has_entry(
                    j,
                    "content"@,
                    json::JsonView::Text(content),
                ),
                websocket::ServerView::TokenUsageUpdate { used_tokens, max_tokens } => is_of_kind(
                    j,
                    "tokenUsageUpdate"@,
                ) && laws::has_entry(j, "used_tokens"@, json::JsonView::Unsigned(used_tokens))
                    && laws::has_entry(j, "max_tokens"@, json::JsonView::Unsigned(max_tokens)),
                websocket::ServerView::ModelInfoUpdate { model_id, model_name } => is_of_kind(
                    j,
                    "modelInfoUpdate"@,
                ) && laws::has_entry(j, "model_id"@, json::JsonView::Text(model_id))
                    && laws::has_entry(j, "model_name"@, json::JsonView::Text(model_name)),
            }
        }),
{
    let f = websocket::server_json(m)->Object_0;
    assert(f[0].0 == "type"@);
    assert(f.contains(f[0]));
    if f.len() > 1 {
        assert(f.contains(f[1]));
    }
    if f.len() > 2 {
        assert(f.contains(f[2]));
    }
    if f.len() > 3 {
        assert(f.contains(f[3]));
        assert(f.contains(f[4]));
    }
    if f.len() > 5 {
        assert(f.contains(f[5]));
    }
}

/// What the agent says reaches the devices as it is.
pub proof fn the_agent_is_heard(m: AgentToClientMessage)
    ensures
        match m {
            AgentToClientMessage::TextChunk { entry_index, content } => websocket::passed_on(m) == (
            websocket::ServerView::TextChunk { entry_index, content: content@ }),
            AgentToClientMessage::ToolStart { entry_index, tool_call_id, tool_name, tool_input } =>
            websocket::passed_on(m) == (websocket::ServerView::ToolStart {
                entry_index,
                tool_call_id: tool_call_id@,
                tool_name: tool_name@,
                tool_input: tool_input@,
            }),
            AgentToClientMessage::ToolResult {
                entry_index,
                tool_call_id,
                tool_name,
                result,
                error,
            } => websocket::passed_on(m) matches websocket::ServerView::ToolResult {
                entry_index: i,
                tool_call_id: c,
                tool_name: n,
                result: r,
                error: e,
            } && i == entry_index && c == tool_call_id@ && n == tool_name@ && r == result@ && (
            error is Some ==> e == Some(error->0@)) && (error is None ==> e is None),
            AgentToClientMessage::ResponseComplete { entry_index } => websocket::passed_on(m) == (
            websocket::ServerView::ResponseComplete { entry_index }),
            AgentToClientMessage::Error { message } => websocket::passed_on(m) == (
            websocket::ServerView::Error { message: message@ }),
            AgentToClientMessage::HistoryEntry { role, content } => websocket::passed_on(m) == (
            websocket::ServerView::HistoryEntry { role: role@, content: content@ }),
            AgentToClientMessage::TokenUsageUpdate { used_tokens, max_tokens } =>
            websocket::passed_on(m) == (websocket::ServerView::TokenUsageUpdate {
                used_tokens,
                max_tokens,
            }),
            AgentToClientMessage::ModelInfoUpdate { model_id, model_name } => websocket::passed_on(
                m,
            ) == (websocket::ServerView::ModelInfoUpdate {
                model_id: model_id@,
                model_name: model_name@,
            }),
        },
{
}

/// An object is understood where it names what a device can say, and a chat where it has a text too.
pub proof fn only_what_devices_say_is_understood(j: json::JsonView)
    requires
        j is Object,
    ensures
        ({
            let kind = json::text_field(j, "type"@);
            let said = websocket::client_message(j);
            &&& said == Some(websocket::ClientView::GetHistory) <==> kind == Some("getHistory"@)
            &&& said == Some(websocket::ClientView::Cancel) <==> kind == Some("cancel"@)
            &&& said == Some(websocket::ClientView::Ping) <==> kind == Some("ping"@)
            &&& forall|content: Seq<char>|
                said == Some(#[trigger] chat(content)) <==> kind == Some("chat"@)
                    && json::text_field(j, "content"@) == Some(content)
        }),
{
    reveal_strlit("getHistory");
    reveal_strlit("cancel");
    reveal_strlit("ping");
    reveal_strlit("chat");
    assert("chat"@[0] != "ping"@[0]);
    assert("cancel"@.len() == 6 && "getHistory"@.len() == 10);
    assert("chat"@.len() == 4 && "ping"@.len() == 4);
    let kind = json::text_field(j, "type"@);
    let said = websocket::client_message(j);
    if let Some(t) = kind {
        if t == "chat"@ {
            assert(said == match json::text_field(j, "content"@) {
                Some(content) => Some(chat(content)),
                None => None,
            });
        } else {
            assert(said == websocket::bare_message(t));
            assert forall|content: Seq<char>| said != Some(#[trigger] chat(content)) by {
            }
        }
    } else {
        assert(said is None);
    }
}

/// A chat with a text.
pub open spec fn chat(content: Seq<char>) -> websocket::ClientView {
    websocket::ClientView::Chat { content }
}

// ---------------------------------------------------------------------------
// What devices are told of a conversation
// ---------------------------------------------------------------------------

/// Texts in a row are the texts one behind another.
pub proof fn runs_are_rows(parts: Seq<Seq<char>>)
    ensures
        agent_coordinator::run_of(parts) == parts.flatten(),
    decreases parts.len(),
{
    if parts.len() == 0 {
        assert(parts.flatten() =~= Seq::empty());
    } else {
        runs_are_rows(parts.drop_last());
        text_laws::flattened_one_by_one(parts);
    }
}

/// The text of a piece of what a user wrote, where it is a text.
pub open spec fn chunk_text(c: UserChunk) -> Option<Seq<char>> {
    match c {
        UserChunk::Text(t) => Some(t@),
        UserChunk::Other => None,
    }
}

/// What a device is told of a piece of a conversation that was before.
pub open spec fn told_of(entry: ThreadEntry) -> Option<websocket::ServerView> {
    match entry {
        ThreadEntry::UserMessage(chunks) => Some(
            websocket::ServerView::HistoryEntry {
                role: "user"@,
                content: text::join(chunks@.filter_map(|c: UserChunk| chunk_text(c)), "\n"@),
            },
        ),
        ThreadEntry::AssistantMessage(_) => Some(
            websocket::ServerView::HistoryEntry {
                role: "assistant"@,
                content: "Assistant response"@,
            },
        ),
        ThreadEntry::ToolCall(_) => None,
    }
}

/// A device is told of every message of a conversation that was before, in order: all texts that the
/// user wrote, one in a line, and that the assistant answered.
pub proof fn every_message_is_told(entries: Seq<ThreadEntry>)
    ensures
        agent_coordinator::history(entries) == entries.filter_map(|e: ThreadEntry| told_of(e)),
    decreases entries.len(),
{
    reveal(Seq::filter_map);
    if entries.len() > 0 {
        every_message_is_told(entries.drop_last());
        if let ThreadEntry::UserMessage(chunks) = entries.last() {
            all_texts_are_told(chunks@);
        }
        assert(agent_coordinator::history(entries) =~= entries.filter_map(
            |e: ThreadEntry| told_of(e),
        ));
    }
}

proof fn all_texts_are_told(chunks: Seq<UserChunk>)
    ensures
        agent_coordinator::user_texts(chunks) == chunks.filter_map(|c: UserChunk| chunk_text(c)),
    decreases chunks.len(),
{
    reveal(Seq::filter_map);
    if chunks.len() > 0 {
        all_texts_are_told(chunks.drop_last());
        assert(agent_coordinator::user_texts(chunks) =~= chunks.filter_map(
            |c: UserChunk| chunk_text(c),
        ));
    }
}

/// A device that connects is told the tokens and the model, as far as they are known.
pub proof fn what_is_known_is_told(usage: Option<Usage>, model: Option<SelectedModel>)
    ensures
        ({
            let told = agent_coordinator::initial_state(usage, model);
            &&& told.len() == (if usage is Some {
                1int
            } else {
                0
            }) + (if model is Some {
                1int
            } else {
                0
            })
            &&& usage matches Some(u) ==> told[0] == (websocket::ServerView::TokenUsageUpdate {
                used_tokens: u.used_tokens,
                max_tokens: u.max_tokens,
            })
            &&& model matches Some(m) ==> told.last() == (websocket::ServerView::ModelInfoUpdate {
                model_id: m.id@,
                model_name: m.name@,
            })
        }),
{
}

/// The last answer is the message of the assistant behind which none comes.
pub proof fn the_last_answer_is_found(entries: Seq<ThreadEntry>, i: int)
    requires
        0 <= i < entries.len(),
        entries[i] is AssistantMessage,
        forall|k: int| i < k < entries.len() ==> !((#[trigger] entries[k]) is AssistantMessage),
    ensures
        agent_coordinator::last_answer(entries) == i,
    decreases entries.len(),
{
    if i < entries.len() - 1 {
        assert(!(entries[entries.len() - 1] is AssistantMessage));
        let less = entries.drop_last();
        assert forall|k: int| i < k < less.len() implies !((
        #[trigger] less[k]) is AssistantMessage) by {
            assert(less[k] == entries[k]);
        }
        the_last_answer_is_found(less, i);
    }
}

/// The start of a call tells which call it is, of which tool and with what input; its result tells what
/// the tool gave back, or else what it showed.
pub proof fn calls_are_told_in_full(index: usize, call: ToolCallEntry)
    ensures
        agent_coordinator::start_sent(index, call) matches websocket::ServerView::ToolStart {
            entry_index,
            tool_call_id,
            tool_name,
            tool_input,
        } && entry_index == index && tool_call_id == call.id@ && tool_name == call.name@ && (
        call.raw_input is Some ==> tool_input == call.raw_input->0@) && (call.raw_input is None
            ==> tool_input is Null),
        agent_coordinator::result_sent(index, call) matches websocket::ServerView::ToolResult {
            entry_index,
            tool_call_id,
            tool_name,
            result,
            error,
        } && entry_index == index && tool_call_id == call.id@ && tool_name == call.name@
            && error is None && (call.raw_output is Some ==> result == json::pretty_json(
            call.raw_output->0@,
        )) && (call.raw_output is None ==> result == text::join(text::views(call.content@), "\n"@)),
        agent_coordinator::has_result(call) <==> call.raw_output is Some || call.content@.len() > 0,
{
}

/// When a conversation changes, devices are told of the piece that changed, of the tokens, that the
/// answer is complete, or that something failed.
pub proof fn changes_are_told(
    lengths: Map<usize, usize>,
    calls: Map<usize, bool>,
    change: ThreadChange,
    usage: Option<Usage>,
    entries: Seq<ThreadEntry>,
)
    ensures
        ({
            let told = agent_coordinator::change_sent(lengths, calls, change, usage, entries);
            match change {
                ThreadChange::TokenUsageUpdated => (usage is None ==> told.len() == 0) && (
                usage matches Some(u) ==> told == seq![
                    websocket::ServerView::TokenUsageUpdate {
                        used_tokens: u.used_tokens,
                        max_tokens: u.max_tokens,
                    },
                ]),
                ThreadChange::EntryUpdated(i) => if i < entries.len() {
                    told == agent_coordinator::entry_sent(lengths, calls, i, entries[i as int])
                } else {
                    told.len() == 0
                },
                ThreadChange::NewEntry => if 0 < entries.len() <= usize::MAX {
                    told == agent_coordinator::entry_sent(
                        lengths,
                        calls,
                        (entries.len() - 1) as usize,
                        entries[entries.len() - 1],
                    )
                } else {
                    entries.len() == 0 ==> told.len() == 0
                },
                ThreadChange::Stopped => told == seq![
                    websocket::ServerView::ResponseComplete {
                        entry_index: agent_coordinator::last_answer(entries) as usize,
                    },
                ],
                ThreadChange::Failed => told == seq![
                    websocket::ServerView::Error { message: "Agent encountered an error"@ },
                ],
                ThreadChange::Other => told.len() == 0,
            }
        }),
        agent_coordinator::changed_entry(change, entries) == (match change {
            ThreadChange::EntryUpdated(i) => if i < entries.len() {
                Some(i)
            } else {
                None
            },
            ThreadChange::NewEntry => if entries.len() > 0 {
                Some((entries.len() - 1) as usize)
            } else {
                None
            },
            _ => None,
        }),
{
}

/// Of a conversation only what the assistant says and which tools it calls is streamed, each under its
/// place.
pub proof fn pieces_are_streamed_by_kind(
    lengths: Map<usize, usize>,
    calls: Map<usize, bool>,
    index: usize,
    entry: ThreadEntry,
    k: int,
)
    requires
        0 <= k < agent_coordinator::entry_sent(lengths, calls, index, entry).len(),
    ensures
        ({
            let m = agent_coordinator::entry_sent(lengths, calls, index, entry)[k];
            match entry {
                ThreadEntry::UserMessage(_) => false,
                ThreadEntry::AssistantMessage(_) => m matches websocket::ServerView::TextChunk {
                    entry_index,
                    content,
                } && entry_index == index,
                ThreadEntry::ToolCall(call) => m == agent_coordinator::start_sent(index, call) || m
                    == agent_coordinator::result_sent(index, call),
            }
        }),
{
}

/// When a message is sent, it is sent to all devices that are connected and not gone, in the order in
/// which they connected.
pub proof fn all_that_are_there_are_told(clients: Seq<Seq<char>>, gone: Seq<Seq<char>>)
    ensures
        agent_bridge::remaining(clients, gone) == clients.filter(
            |id: Seq<char>| !gone.contains(id),
        ),
    decreases clients.len(),
{
    reveal(Seq::filter);
    if clients.len() > 0 {
        all_that_are_there_are_told(clients.drop_last(), gone);
    }
}

// ---------------------------------------------------------------------------
// How the server is reached
// ---------------------------------------------------------------------------

/// The address at which a device finds the server holds the host, the port and the token. The host is
/// the machine itself where a tunnel leads to it, and else the address that the server listens at, or
/// that of the machine in the local network, where it listens at all of them.
pub proof fn devices_find_the_server(
    addr: ServerAddress,
    mode: ServerMode,
    local_ip: Result<String, String>,
    token: Seq<char>,
)
    ensures
        ({
            let host = server::pairing_host(addr, mode, local_ip);
            &&& mode == ServerMode::Internet ==> host == Ok::<Seq<char>, Seq<char>>("localhost"@)
            &&& mode == ServerMode::Local && !addr.unspecified ==> host == Ok::<
                Seq<char>,
                Seq<char>,
            >(addr.ip@)
            &&& mode == ServerMode::Local && addr.unspecified && local_ip is Ok ==> host == Ok::<
                Seq<char>,
                Seq<char>,
            >(local_ip->Ok_0@)
            &&& mode == ServerMode::Local && addr.unspecified && local_ip is Err ==> host == Err::<
                Seq<char>,
                Seq<char>,
            >(local_ip->Err_0@)
            &&& host matches Ok(h) ==> server::pairing_url(h, addr.port, token) == "http://"@ + h
                + ":"@ + text::decimal(addr.port as nat) + "?token="@ + token
        }),
{
}

/// The public address of a server is that of its tunnel, where it has one and the tunnel has an
/// address; nothing else of what is known changes.
pub proof fn the_tunnel_gives_the_public_address(
    s: server::StateView,
    tunnel: bool,
    url: Option<Seq<char>>,
)
    ensures
        ({
            let known = server::with_public_url(s, tunnel, url);
            &&& s.mode == ServerMode::Internet && tunnel && url is Some ==> known.public_url == url
            &&& s.mode == ServerMode::Local || !tunnel || url is None ==> known == s
            &&& known.token == s.token && known.pairing_url == s.pairing_url && known.ip == s.ip
                && known.port == s.port && known.mode == s.mode
        }),
{
}

// ---------------------------------------------------------------------------
// What the dialog shows
// ---------------------------------------------------------------------------

/// The picture is of the public address with the token, as soon as there is one, and else of the
/// address at which a device finds the server.
pub proof fn the_picture_leads_to_the_server(s: server::StateView)
    ensures
        s.mode == ServerMode::Internet && s.public_url is Some ==> remote_server_modal::picture_url(s)
            == s.public_url->0 + "?token="@ + s.token,
        s.mode == ServerMode::Local || s.public_url is None ==> remote_server_modal::picture_url(s)
            == s.pairing_url,
{
}

/// The dialog shows where the server listens, the address for devices, which can be copied, and the
/// token; and the public address with the token, which can be copied too, where there is one.
pub proof fn the_dialog_shows_how_to_connect(s: server::StateView)
    ensures
        ({
            let shown = remote_server_modal::sections(s);
            let public = s.mode == ServerMode::Internet && s.public_url is Some;
            let pairing = shown[shown.len() - 2];
            &&& shown.len() == if public {
                4int
            } else {
                3
            }
            &&& shown[0].label == "Server Address"@ && shown[0].value
                == remote_server_modal::address_text(s.ip, s.port)
            &&& public ==> shown[1].label == "Public URL (Internet)"@ && shown[1].value
                == s.public_url->0 + "?token="@ + s.token && shown[1].copies == Some(
                s.public_url->0 + "?token="@ + s.token,
            )
            &&& pairing.label == if s.mode == ServerMode::Internet {
                "Local URL"@
            } else {
                "Pairing URL"@
            }
            &&& pairing.value == s.pairing_url && pairing.copies == Some(s.pairing_url)
            &&& shown.last().label == "Authentication Token"@ && shown.last().value == s.token
                && shown.last().copies is None
        }),
{
}

/// Where the server listens is shown as its address and its port; an address with colons stands in
/// brackets.
pub proof fn addresses_are_shown_with_their_port(ip: Seq<char>, port: u16)
    ensures
        ip.contains(':') ==> remote_server_modal::address_text(ip, port) == "["@ + ip + "]:"@
            + text::decimal(port as nat),
        !ip.contains(':') ==> remote_server_modal::address_text(ip, port) == ip + ":"@
            + text::decimal(port as nat),
{
    reveal_strlit(":");
    if ip.contains(':') {
        let at = choose|at: int| 0 <= at < ip.len() && ip[at] == ':';
        assert(ip.subrange(at, at + 1) =~= ":"@);
        assert(text::stands_at(ip, ":"@, at));
    }
    if text::holds(ip, ":"@) {
        let at = choose|at: int| text::stands_at(ip, ":"@, at);
        assert(ip.subrange(at, at + 1)[0] == ':');
        assert(ip[at] == ':');
    }
}

/// The dialog is shown anew exactly where one of the addresses or the token changed; else it shows what
/// it showed, of a server that listens where it did.
pub proof fn the_dialog_is_shown_anew(a: server::StateView, b: server::StateView)
    ensures
        remote_server_modal::differs(a, b) <==> !(a.public_url == b.public_url && a.pairing_url
            == b.pairing_url && a.token == b.token),
        !remote_server_modal::differs(a, b) && a.mode == b.mode ==> remote_server_modal::picture_url(
            a,
        ) == remote_server_modal::picture_url(b),
{
}

/// Of each pixel red and blue are exchanged, and green and its opacity stay.
pub proof fn red_and_blue_are_exchanged(pixels: Seq<u8>, k: int)
    requires
        0 <= k,
        4 * k + 4 <= pixels.len(),
    ensures
        ({
            let shown = remote_server_modal::exchanged(pixels);
            &&& shown.len() == pixels.len()
            &&& shown[4 * k] == pixels[4 * k + 2]
            &&& shown[4 * k + 1] == pixels[4 * k + 1]
            &&& shown[4 * k + 2] == pixels[4 * k]
            &&& shown[4 * k + 3] == pixels[4 * k + 3]
        }),
{
}

/// A name is counted as often as it stands among those of the members.
pub proof fn names_are_counted(names: Seq<Seq<char>>, name: Seq<char>)
    ensures
        websocket::times_named(names, name) == names.filter(
            |n: Seq<char>|
                json::parsed_json(n) == Ok::<json::JsonView, Seq<char>>(json::JsonView::Text(name)),
        ).len(),
    decreases names.len(),
{
    reveal(Seq::filter);
    if names.len() > 0 {
        names_are_counted(names.drop_last(), name);
    }
}

/// What a device says is understood only where its kind stands once in the text, and the text of a chat
/// once too; then it is what the value says.
pub proof fn names_that_stand_twice_are_not_understood(t: Seq<char>, j: json::JsonView)
    requires
        j is Object,
    ensures
        ({
            let names = crate::json_text::member_names(t);
            let said = websocket::client_frame(t, j);
            &&& said is Some ==> said == websocket::client_message(j) && websocket::times_named(
                names,
                "type"@,
            ) == 1
            &&& (said matches Some(websocket::ClientView::Chat { content })
                ==> websocket::times_named(names, "content"@) == 1)
            &&& (websocket::times_named(names, "type"@) == 1 && websocket::times_named(
                names,
                "content"@,
            ) == 1) ==> said == websocket::client_message(j)
        }),
{
}

/// One that asks whether the server is well is told that it is, and which it is.
pub proof fn the_server_is_well()
    ensures
        laws::has_entry(server::health(), "status"@, json::JsonView::Text("ok"@)),
        laws::has_entry(
            server::health(),
            "service"@,
            json::JsonView::Text("agent-remote-server"@),
        ),
{
    let f = server::health()->Object_0;
    assert(f[0] == ("status"@, json::JsonView::Text("ok"@)));
    assert(f[1] == ("service"@, json::JsonView::Text("agent-remote-server"@)));
}

} // verus!
