//! What devices are told of a conversation while it goes on.

use vstd::prelude::*;
use vstd::std_specs::hash::*;
use vstd::utf8::*;

use std::collections::HashMap;

use crate::json;
use crate::json::Json;
use crate::remote_server::agent_bridge::AgentToClientMessage;
use crate::remote_server::websocket;
use crate::text;

verus! {

/// What happens while messages of devices are handled.
#[derive(Debug)]
pub enum CoordinatorEvent {
    MessageProcessed,
    Error(String),
}

/// A call of a tool in a conversation. `content` is what it shows, in Markdown.
#[derive(Debug)]
pub struct ToolCallEntry {
    pub id: String,
    pub name: String,
    pub raw_input: Option<Json>,
    pub raw_output: Option<Json>,
    pub content: Vec<String>,
}

/// A piece of what a user wrote: a text, or something else.
#[derive(Debug)]
pub enum UserChunk {
    Text(String),
    Other,
}

/// A piece of a conversation. What the assistant said and thought is in Markdown.
#[derive(Debug)]
pub enum ThreadEntry {
    UserMessage(Vec<UserChunk>),
    AssistantMessage(Vec<String>),
    ToolCall(ToolCallEntry),
}

/// What happened in a conversation.
#[derive(Debug, Clone, Copy, PartialEq, Eq, Structural)]
pub enum ThreadChange {
    TokenUsageUpdated,
    EntryUpdated(usize),
    NewEntry,
    Stopped,
    Failed,
    Other,
}

/// How many tokens are used, and how many may be.
#[derive(Debug, Clone, Copy, PartialEq, Eq, Structural)]
pub struct Usage {
    pub used_tokens: u64,
    pub max_tokens: u64,
}

/// The model that answers.
#[derive(Debug)]
pub struct SelectedModel {
    pub id: String,
    pub name: String,
}

/// What devices were told already: how many bytes of each message of the assistant, and for each
/// call of a tool whether its result was sent besides its start.
pub struct AgentCoordinator {
    pub last_sent_lengths: HashMap<usize, usize>,
    pub sent_tool_calls: HashMap<usize, bool>,
}

/// What is sent.
pub open spec fn sent_views(messages: Seq<AgentToClientMessage>) -> Seq<websocket::ServerView> {
    messages.map_values(|m: AgentToClientMessage| websocket::passed_on(m))
}

/// Texts in a row.
pub open spec fn run_of(parts: Seq<Seq<char>>) -> Seq<char>
    decreases parts.len(),
{
    if parts.len() == 0 {
        Seq::empty()
    } else {
        run_of(parts.drop_last()) + parts.last()
    }
}

/// What follows the first bytes of a text.
pub open spec fn rest_after(s: Seq<char>, bytes: nat) -> Seq<char> {
    s.skip(text::byte_head(s, bytes as int).len() as int)
}

/// How many bytes of a message were sent.
pub open spec fn sent_bytes(lengths: Map<usize, usize>, index: usize) -> nat {
    if lengths.dom().contains(index) {
        lengths[index] as nat
    } else {
        0
    }
}

/// What is sent of a message of the assistant: what was not sent before.
pub open spec fn text_sent(lengths: Map<usize, usize>, index: usize, full: Seq<char>) -> Seq<
    websocket::ServerView,
> {
    if encode_utf8(full).len() > sent_bytes(lengths, index) {
        seq![
            websocket::ServerView::TextChunk {
                entry_index: index,
                content: rest_after(full, sent_bytes(lengths, index)),
            },
        ]
    } else {
        Seq::empty()
    }
}

/// How much of the messages was sent then.
pub open spec fn lengths_after(lengths: Map<usize, usize>, index: usize, full: Seq<char>) -> Map<
    usize,
    usize,
> {
    if encode_utf8(full).len() > sent_bytes(lengths, index) {
        lengths.insert(index, encode_utf8(full).len() as usize)
    } else {
        lengths
    }
}

/// Whether there is something to say of the result of a call.
pub open spec fn has_result(call: ToolCallEntry) -> bool {
    call.raw_output is Some || call.content@.len() > 0
}

/// The result of a call, as it is sent: the value that the tool gave, or else what it showed.
pub open spec fn result_text(call: ToolCallEntry) -> Seq<char> {
    match call.raw_output {
        Some(j) => json::pretty_json(j@),
        None => text::join(text::views(call.content@), "\n"@),
    }
}

/// The start of a call, as it is sent.
pub open spec fn start_sent(index: usize, call: ToolCallEntry) -> websocket::ServerView {
    websocket::ServerView::ToolStart {
        entry_index: index,
        tool_call_id: call.id@,
        tool_name: call.name@,
        tool_input: match call.raw_input {
            Some(j) => j@,
            None => json::JsonView::Null,
        },
    }
}

/// The result of a call, as it is sent.
pub open spec fn result_sent(index: usize, call: ToolCallEntry) -> websocket::ServerView {
    websocket::ServerView::ToolResult {
        entry_index: index,
        tool_call_id: call.id@,
        tool_name: call.name@,
        result: result_text(call),
        error: None,
    }
}

/// Whether the result of a call was sent.
pub open spec fn is_final(calls: Map<usize, bool>, index: usize) -> bool {
    calls.dom().contains(index) && calls[index]
}

/// What is sent of a call of a tool: its start once, and its result once.
pub open spec fn call_sent(calls: Map<usize, bool>, index: usize, call: ToolCallEntry) -> Seq<
    websocket::ServerView,
> {
    let start = if calls.dom().contains(index) {
        Seq::empty()
    } else {
        seq![start_sent(index, call)]
    };
    if !is_final(calls, index) && has_result(call) {
        start.push(result_sent(index, call))
    } else {
        start
    }
}

/// What was sent of calls then.
pub open spec fn calls_after(calls: Map<usize, bool>, index: usize, call: ToolCallEntry) -> Map<
    usize,
    bool,
> {
    calls.insert(index, is_final(calls, index) || has_result(call))
}

/// The place of the last message of the assistant, or zero.
pub open spec fn last_answer(entries: Seq<ThreadEntry>) -> nat
    decreases entries.len(),
{
    if entries.len() == 0 {
        0
    } else if entries.last() is AssistantMessage {
        (entries.len() - 1) as nat
    } else {
        last_answer(entries.drop_last())
    }
}

/// The texts of what a user wrote.
pub open spec fn user_texts(chunks: Seq<UserChunk>) -> Seq<Seq<char>>
    decreases chunks.len(),
{
    if chunks.len() == 0 {
        Seq::empty()
    } else {
        let before = user_texts(chunks.drop_last());
        match chunks.last() {
            UserChunk::Text(t) => before.push(t@),
            UserChunk::Other => before,
        }
    }
}

/// What a device is told of a conversation that was before: what the user wrote, and that the
/// assistant answered.
pub open spec fn history(entries: Seq<ThreadEntry>) -> Seq<websocket::ServerView>
    decreases entries.len(),
{
    if entries.len() == 0 {
        Seq::empty()
    } else {
        let before = history(entries.drop_last());
        match entries.last() {
            ThreadEntry::UserMessage(chunks) => before.push(
                websocket::ServerView::HistoryEntry {
                    role: "user"@,
                    content: text::join(user_texts(chunks@), "\n"@),
                },
            ),
            ThreadEntry::AssistantMessage(_) => before.push(
                websocket::ServerView::HistoryEntry {
                    role: "assistant"@,
                    content: "Assistant response"@,
                },
            ),
            ThreadEntry::ToolCall(_) => before,
        }
    }
}

fn run_text(parts: &Vec<String>) -> (r: String)
    ensures
        r@ == run_of(text::views(parts@)),
{
    let ghost all = text::views(parts@);
    let mut out = String::new();
    for i in 0..parts.len()
        invariant
            all == text::views(parts@),
            out@ == run_of(all.take(i as int)),
    {
        assert(all.take(i + 1).drop_last() =~= all.take(i as int));
        assert(all.take(i + 1).last() == parts@[i as int]@);
        out.append(parts[i].as_str());
    }
    assert(all.take(all.len() as int) =~= all);
    out
}

fn rest_text(s: &str, bytes: usize) -> (r: String)
    ensures
        r@ == rest_after(s@, bytes as nat),
{
    let n: usize = text::byte_head_text(s, bytes).as_str().unicode_len();
    let chars = text::to_chars(s);
    proof {
        text::byte_head_is_start(s@, bytes as int);
    }
    assert(s@.skip(n as int) =~= s@.subrange(n as int, s@.len() as int));
    text::from_range(&chars, n, chars.len())
}

fn texts_of(chunks: &Vec<UserChunk>) -> (r: Vec<String>)
    ensures
        text::views(r@) == user_texts(chunks@),
{
    let mut out: Vec<String> = Vec::new();
    assert(text::views(out@) =~= user_texts(chunks@.take(0)));
    for i in 0..chunks.len()
        invariant
            text::views(out@) == user_texts(chunks@.take(i as int)),
    {
        assert(chunks@.take(i + 1).drop_last() =~= chunks@.take(i as int));
        assert(chunks@.take(i + 1).last() == chunks@[i as int]);
        match &chunks[i] {
            UserChunk::Text(t) => {
                let ghost seen = out@;
                let piece = t.clone();
                out.push(piece);
                assert(text::views(out@) =~= text::views(seen).push(piece@));
            },
            UserChunk::Other => {},
        }
    }
    assert(chunks@.take(chunks@.len() as int) =~= chunks@);
    out
}

/// What is known at the start, as it is sent.
pub open spec fn initial_state(usage: Option<Usage>, model: Option<SelectedModel>) -> Seq<
    websocket::ServerView,
> {
    usage_sent(usage) + match model {
        Some(m) => seq![
            websocket::ServerView::ModelInfoUpdate { model_id: m.id@, model_name: m.name@ },
        ],
        None => Seq::empty(),
    }
}

/// The tokens, as they are sent.
pub open spec fn usage_sent(usage: Option<Usage>) -> Seq<websocket::ServerView> {
    match usage {
        Some(u) => seq![
            websocket::ServerView::TokenUsageUpdate {
                used_tokens: u.used_tokens,
                max_tokens: u.max_tokens,
            },
        ],
        None => Seq::empty(),
    }
}

/// A message that says that something failed.
fn failure(message: String) -> (r: AgentToClientMessage)
    ensures
        websocket::passed_on(r) == (websocket::ServerView::Error { message: message@ }),
{
    AgentToClientMessage::Error { message }
}

/// What devices are told when a message of theirs could not be handled.
pub fn handling_failed(error: &str) -> (r: (AgentToClientMessage, CoordinatorEvent))
    ensures
        websocket::passed_on(r.0) == (websocket::ServerView::Error {
            message: "Error: "@ + error@,
        }),
        r.1 matches CoordinatorEvent::Error(e) && e@ == error@,
{
    let mut message = "Error: ".to_owned();
    message.append(error);
    (failure(message), CoordinatorEvent::Error(error.to_owned()))
}

/// What devices are told when a message could not be sent to the agent.
pub fn sending_failed(error: &str) -> (r: AgentToClientMessage)
    ensures
        websocket::passed_on(r) == (websocket::ServerView::Error {
            message: "Failed to send message: "@ + error@,
        }),
{
    let mut message = "Failed to send message: ".to_owned();
    message.append(error);
    failure(message)
}

/// What is sent when a conversation changed.
pub open spec fn change_sent(
    lengths: Map<usize, usize>,
    calls: Map<usize, bool>,
    change: ThreadChange,
    usage: Option<Usage>,
    entries: Seq<ThreadEntry>,
) -> Seq<websocket::ServerView> {
    match change {
        ThreadChange::TokenUsageUpdated => usage_sent(usage),
        ThreadChange::EntryUpdated(i) => if i < entries.len() {
            entry_sent(lengths, calls, i, entries[i as int])
        } else {
            Seq::empty()
        },
        ThreadChange::NewEntry => if entries.len() > 0 {
            entry_sent(lengths, calls, (entries.len() - 1) as usize, entries.last())
        } else {
            Seq::empty()
        },
        ThreadChange::Stopped => seq![
            websocket::ServerView::ResponseComplete { entry_index: last_answer(entries) as usize },
        ],
        ThreadChange::Failed => seq![
            websocket::ServerView::Error { message: "Agent encountered an error"@ },
        ],
        ThreadChange::Other => Seq::empty(),
    }
}

/// What is sent of a piece of a conversation.
pub open spec fn entry_sent(
    lengths: Map<usize, usize>,
    calls: Map<usize, bool>,
    index: usize,
    entry: ThreadEntry,
) -> Seq<websocket::ServerView> {
    match entry {
        ThreadEntry::AssistantMessage(chunks) => text_sent(
            lengths,
            index,
            run_of(text::views(chunks@)),
        ),
        ThreadEntry::ToolCall(call) => call_sent(calls, index, call),
        ThreadEntry::UserMessage(_) => Seq::empty(),
    }
}

/// The piece of a conversation that a change is about.
pub open spec fn changed_entry(change: ThreadChange, entries: Seq<ThreadEntry>) -> Option<usize> {
    match change {
        ThreadChange::EntryUpdated(i) => if i < entries.len() {
            Some(i)
        } else {
            None
        },
        ThreadChange::NewEntry => if entries.len() > 0 {
            Some((entries.len() - 1) as usize)
        } else {
            None
        },
        _ => None,
    }
}

impl AgentCoordinator {
    /// Nothing was sent yet.
    pub fn new() -> (r: AgentCoordinator)
        ensures
            r.last_sent_lengths@ == Map::<usize, usize>::empty(),
            r.sent_tool_calls@ == Map::<usize, bool>::empty(),
    {
        AgentCoordinator { last_sent_lengths: HashMap::new(), sent_tool_calls: HashMap::new() }
    }

    /// What a device is told when it connects.
    pub fn initial_state(usage: Option<Usage>, model: &Option<SelectedModel>) -> (r: Vec<
        AgentToClientMessage,
    >)
        ensures
            sent_views(r@) == initial_state(usage, *model),
    {
        let mut out: Vec<AgentToClientMessage> = Vec::new();
        if let Some(u) = usage {
            out.push(
                AgentToClientMessage::TokenUsageUpdate {
                    used_tokens: u.used_tokens,
                    max_tokens: u.max_tokens,
                },
            );
        }
        if let Some(m) = model {
            out.push(
                AgentToClientMessage::ModelInfoUpdate {
                    model_id: m.id.clone(),
                    model_name: m.name.clone(),
                },
            );
        }
        assert(sent_views(out@) =~= initial_state(usage, *model));
        out
    }

    /// What a device is told of a conversation that was before.
    pub fn history(entries: &Vec<ThreadEntry>) -> (r: Vec<AgentToClientMessage>)
        ensures
            sent_views(r@) == history(entries@),
    {
        let mut out: Vec<AgentToClientMessage> = Vec::new();
        assert(sent_views(out@) =~= history(entries@.take(0)));
        for i in 0..entries.len()
            invariant
                sent_views(out@) == history(entries@.take(i as int)),
        {
            assert(entries@.take(i + 1).drop_last() =~= entries@.take(i as int));
            assert(entries@.take(i + 1).last() == entries@[i as int]);
            let said = match &entries[i] {
                ThreadEntry::UserMessage(chunks) => Some(
                    AgentToClientMessage::HistoryEntry {
                        role: "user".to_owned(),
                        content: text::join_texts(&texts_of(chunks), "\n"),
                    },
                ),
                ThreadEntry::AssistantMessage(_) => Some(
                    AgentToClientMessage::HistoryEntry {
                        role: "assistant".to_owned(),
                        content: "Assistant response".to_owned(),
                    },
                ),
                ThreadEntry::ToolCall(_) => None,
            };
            if let Some(m) = said {
                let ghost seen = out@;
                out.push(m);
                assert(sent_views(out@) =~= sent_views(seen).push(websocket::passed_on(m)));
            }
        }
        assert(entries@.take(entries@.len() as int) =~= entries@);
        out
    }

    fn send_text(&mut self, index: usize, full: String) -> (r: Vec<AgentToClientMessage>)
        ensures
            sent_views(r@) == text_sent(old(self).last_sent_lengths@, index, full@),
            final(self).last_sent_lengths@ == lengths_after(
                old(self).last_sent_lengths@,
                index,
                full@,
            ),
            final(self).sent_tool_calls@ == old(self).sent_tool_calls@,
    {
        broadcast use group_hash_axioms;

        let last_sent: usize = match self.last_sent_lengths.get(&index) {
            Some(n) => *n,
            None => 0,
        };
        let len: usize = text::byte_len(full.as_str());
        let mut out: Vec<AgentToClientMessage> = Vec::new();
        if len > last_sent {
            let content = rest_text(full.as_str(), last_sent);
            out.push(AgentToClientMessage::TextChunk { entry_index: index, content });
            self.last_sent_lengths.insert(index, len);
        }
        assert(sent_views(out@) =~= text_sent(old(self).last_sent_lengths@, index, full@));
        out
    }

    fn send_call(&mut self, index: usize, call: &ToolCallEntry) -> (r: Vec<AgentToClientMessage>)
        ensures
            sent_views(r@) == call_sent(old(self).sent_tool_calls@, index, *call),
            final(self).sent_tool_calls@ == calls_after(old(self).sent_tool_calls@, index, *call),
            final(self).last_sent_lengths@ == old(self).last_sent_lengths@,
    {
        broadcast use group_hash_axioms;

        let ghost calls = self.sent_tool_calls@;
        let known: Option<bool> = match self.sent_tool_calls.get(&index) {
            Some(b) => Some(*b),
            None => None,
        };
        let already_final = known == Some(true);
        let mut out: Vec<AgentToClientMessage> = Vec::new();
        if known.is_none() {
            let tool_input = match &call.raw_input {
                Some(j) => j.copy(),
                None => Json::Null,
            };
            out.push(
                AgentToClientMessage::ToolStart {
                    entry_index: index,
                    tool_call_id: call.id.clone(),
                    tool_name: call.name.clone(),
                    tool_input,
                },
            );
            self.sent_tool_calls.insert(index, false);
        }
        if !already_final && (call.raw_output.is_some() || call.content.len() > 0) {
            let result = match &call.raw_output {
                Some(j) => json::to_string_pretty(j),
                None => text::join_texts(&call.content, "\n"),
            };
            out.push(
                AgentToClientMessage::ToolResult {
                    entry_index: index,
                    tool_call_id: call.id.clone(),
                    tool_name: call.name.clone(),
                    result,
                    error: None,
                },
            );
            self.sent_tool_calls.insert(index, true);
        }
        assert(sent_views(out@) =~= call_sent(calls, index, *call));
        assert(self.sent_tool_calls@ =~= calls_after(calls, index, *call));
        out
    }

    /// What devices are told of a piece of a conversation: what they were not told before.
    pub fn stream_entry_to_clients(&mut self, index: usize, entry: &ThreadEntry) -> (r: Vec<
        AgentToClientMessage,
    >)
        ensures
            sent_views(r@) == entry_sent(
                old(self).last_sent_lengths@,
                old(self).sent_tool_calls@,
                index,
                *entry,
            ),
            final(self).last_sent_lengths@ == match entry {
                ThreadEntry::AssistantMessage(chunks) => lengths_after(
                    old(self).last_sent_lengths@,
                    index,
                    run_of(text::views(chunks@)),
                ),
                _ => old(self).last_sent_lengths@,
            },
            final(self).sent_tool_calls@ == match entry {
                ThreadEntry::ToolCall(call) => calls_after(
                    old(self).sent_tool_calls@,
                    index,
                    *call,
                ),
                _ => old(self).sent_tool_calls@,
            },
    {
        match entry {
            ThreadEntry::AssistantMessage(chunks) => self.send_text(index, run_text(chunks)),
            ThreadEntry::ToolCall(call) => self.send_call(index, call),
            ThreadEntry::UserMessage(_) => {
                let out: Vec<AgentToClientMessage> = Vec::new();
                assert(sent_views(out@) =~= Seq::empty());
                out
            },
        }
    }

    /// What devices are told when a conversation changed.
    pub fn handle_thread_event(
        &mut self,
        change: ThreadChange,
        usage: Option<Usage>,
        entries: &Vec<ThreadEntry>,
    ) -> (r: Vec<AgentToClientMessage>)
        ensures
            sent_views(r@) == change_sent(
                old(self).last_sent_lengths@,
                old(self).sent_tool_calls@,
                change,
                usage,
                entries@,
            ),
            match changed_entry(change, entries@) {
                Some(i) => {
                    &&& final(self).last_sent_lengths@ == match entries@[i as int] {
                        ThreadEntry::AssistantMessage(chunks) => lengths_after(
                            old(self).last_sent_lengths@,
                            i,
                            run_of(text::views(chunks@)),
                        ),
                        _ => old(self).last_sent_lengths@,
                    }
                    &&& final(self).sent_tool_calls@ == match entries@[i as int] {
                        ThreadEntry::ToolCall(call) => calls_after(
                            old(self).sent_tool_calls@,
                            i,
                            call,
                        ),
                        _ => old(self).sent_tool_calls@,
                    }
                },
                None => final(self).last_sent_lengths@ == old(self).last_sent_lengths@ && final(self).sent_tool_calls@ == old(self).sent_tool_calls@,
            },
    {
        let mut out: Vec<AgentToClientMessage> = Vec::new();
        assert(sent_views(out@) =~= Seq::empty());
        match change {
            ThreadChange::TokenUsageUpdated => {
                if let Some(u) = usage {
                    out.push(
                        AgentToClientMessage::TokenUsageUpdate {
                            used_tokens: u.used_tokens,
                            max_tokens: u.max_tokens,
                        },
                    );
                    assert(sent_views(out@) =~= usage_sent(usage));
                }
                out
            },
            ThreadChange::EntryUpdated(i) => {
                if i < entries.len() {
                    self.stream_entry_to_clients(i, &entries[i])
                } else {
                    out
                }
            },
            ThreadChange::NewEntry => {
                let n: usize = entries.len();
                if n > 0 {
                    self.stream_entry_to_clients(n - 1, &entries[n - 1])
                } else {
                    out
                }
            },
            ThreadChange::Stopped => {
                let entry_index: usize = last_answer_index(entries);
                out.push(AgentToClientMessage::ResponseComplete { entry_index });
                assert(sent_views(out@) =~= seq![
                    websocket::ServerView::ResponseComplete { entry_index },
                ]);
                out
            },
            ThreadChange::Failed => {
                out.push(failure("Agent encountered an error".to_owned()));
                assert(sent_views(out@) =~= seq![
                    websocket::ServerView::Error { message: "Agent encountered an error"@ },
                ]);
                out
            },
            ThreadChange::Other => out,
        }
    }
}

fn last_answer_index(entries: &Vec<ThreadEntry>) -> (r: usize)
    ensures
        r == last_answer(entries@),
{
    let mut found: usize = 0;
    for i in 0..entries.len()
        invariant
            found == last_answer(entries@.take(i as int)),
    {
        assert(entries@.take(i + 1).drop_last() =~= entries@.take(i as int));
        assert(entries@.take(i + 1).last() == entries@[i as int]);
        match &entries[i] {
            ThreadEntry::AssistantMessage(_) => {
                found = i;
            },
            _ => {},
        }
    }
    assert(entries@.take(entries@.len() as int) =~= entries@);
    found
}

// ---------------------------------------------------------------------------
// Laws
// ---------------------------------------------------------------------------

/// Where a message only grows, a device is sent what came to it, and nothing twice: what it had and
/// what it is sent make up the message.
pub proof fn growth_is_sent(
    lengths: Map<usize, usize>,
    index: usize,
    had: Seq<char>,
    more: Seq<char>,
)
    requires
        sent_bytes(lengths, index) == encode_utf8(had).len(),
        encode_utf8(had + more).len() <= usize::MAX,
    ensures
        more.len() > 0 ==> text_sent(lengths, index, had + more) == seq![
            websocket::ServerView::TextChunk { entry_index: index, content: more },
        ],
        more.len() == 0 ==> text_sent(lengths, index, had + more).len() == 0,
        sent_bytes(lengths_after(lengths, index, had + more), index) == encode_utf8(
            had + more,
        ).len(),
{
    let full = had + more;
    text::bytes_add_up(had, more);
    assert(full.take(had.len() as int) =~= had);
    if more.len() > 0 {
        text::bytes_of_next(full, had.len() as int);
        text::byte_head_of_start(full, had.len() as int);
        assert(full.skip(had.len() as int) =~= more);
        text::bytes_of_next(more, 0);
        assert(more.take(0) =~= Seq::<char>::empty());
        text::bytes_grow(more, 1, more.len() as int);
        assert(more.take(more.len() as int) =~= more);
    } else {
        assert(full =~= had);
    }
}

/// The start of a call is sent once, and so is its result: when a call is looked at again, nothing
/// is sent that was sent.
pub proof fn calls_are_sent_once(calls: Map<usize, bool>, index: usize, call: ToolCallEntry)
    ensures
        call_sent(calls_after(calls, index, call), index, call).len() == 0,
        forall|later: ToolCallEntry| #[trigger]
            has_result(later) ==> call_sent(calls_after(calls, index, call), index, later)
                =~= if is_final(calls, index) || has_result(call) {
                Seq::<websocket::ServerView>::empty()
            } else {
                seq![result_sent(index, later)]
            },
{
}

/// What is told of one piece of a conversation changes nothing for the others.
pub proof fn pieces_are_told_apart(
    lengths: Map<usize, usize>,
    index: usize,
    other: usize,
    full: Seq<char>,
    text_there: Seq<char>,
)
    requires
        index != other,
    ensures
        text_sent(lengths_after(lengths, index, full), other, text_there) == text_sent(
            lengths,
            other,
            text_there,
        ),
{
}

/// What was sent of each message and of each call after pieces of a conversation were streamed one after
/// another, whatever their order.
pub open spec fn state_after(
    lengths: Map<usize, usize>,
    calls: Map<usize, bool>,
    run: Seq<(usize, ThreadEntry)>,
) -> (Map<usize, usize>, Map<usize, bool>)
    decreases run.len(),
{
    if run.len() == 0 {
        (lengths, calls)
    } else {
        let (before_lengths, before_calls) = state_after(lengths, calls, run.drop_last());
        let index = run.last().0;
        match run.last().1 {
            ThreadEntry::AssistantMessage(chunks) => (
                lengths_after(before_lengths, index, run_of(text::views(chunks@))),
                before_calls,
            ),
            ThreadEntry::ToolCall(call) => (before_lengths, calls_after(before_calls, index, call)),
            ThreadEntry::UserMessage(_) => (before_lengths, before_calls),
        }
    }
}

/// All that was sent while pieces of a conversation were streamed one after another.
pub open spec fn sent_in_run(
    lengths: Map<usize, usize>,
    calls: Map<usize, bool>,
    run: Seq<(usize, ThreadEntry)>,
) -> Seq<websocket::ServerView>
    decreases run.len(),
{
    if run.len() == 0 {
        Seq::empty()
    } else {
        let (before_lengths, before_calls) = state_after(lengths, calls, run.drop_last());
        sent_in_run(lengths, calls, run.drop_last()) + entry_sent(
            before_lengths,
            before_calls,
            run.last().0,
            run.last().1,
        )
    }
}

/// The pieces of text that were sent of one message, in order.
pub open spec fn chunks_sent(sent: Seq<websocket::ServerView>, index: usize) -> Seq<Seq<char>>
    decreases sent.len(),
{
    if sent.len() == 0 {
        Seq::empty()
    } else {
        let before = chunks_sent(sent.drop_last(), index);
        match sent.last() {
            websocket::ServerView::TextChunk { entry_index, content } => if entry_index == index {
                before.push(content)
            } else {
                before
            },
            _ => before,
        }
    }
}

/// What was sent of one call of a tool, in order.
pub open spec fn call_messages(sent: Seq<websocket::ServerView>, index: usize) -> Seq<
    websocket::ServerView,
>
    decreases sent.len(),
{
    if sent.len() == 0 {
        Seq::empty()
    } else {
        let before = call_messages(sent.drop_last(), index);
        match sent.last() {
            websocket::ServerView::ToolStart { entry_index, .. } => if entry_index == index {
                before.push(sent.last())
            } else {
                before
            },
            websocket::ServerView::ToolResult { entry_index, .. } => if entry_index == index {
                before.push(sent.last())
            } else {
                before
            },
            _ => before,
        }
    }
}

/// What a message of the assistant said when it was last streamed.
pub open spec fn last_said(run: Seq<(usize, ThreadEntry)>, index: usize) -> Seq<char>
    decreases run.len(),
{
    if run.len() == 0 {
        Seq::empty()
    } else if run.last().0 != index {
        last_said(run.drop_last(), index)
    } else {
        match run.last().1 {
            ThreadEntry::AssistantMessage(chunks) => run_of(text::views(chunks@)),
            _ => last_said(run.drop_last(), index),
        }
    }
}

/// Whether a message of the assistant only grows while it is streamed, and is no longer than a text can
/// be.
pub open spec fn only_grows(run: Seq<(usize, ThreadEntry)>, index: usize) -> bool
    decreases run.len(),
{
    run.len() == 0 || {
        &&& only_grows(run.drop_last(), index)
        &&& last_said(run.drop_last(), index).is_prefix_of(last_said(run, index))
        &&& encode_utf8(last_said(run, index)).len() <= usize::MAX
    }
}

/// A call of a tool as it was when it was first streamed.
pub open spec fn first_call(run: Seq<(usize, ThreadEntry)>, index: usize) -> Option<ToolCallEntry>
    decreases run.len(),
{
    if run.len() == 0 {
        None
    } else {
        match (first_call(run.drop_last(), index), run.last().1) {
            (Some(call), _) => Some(call),
            (None, ThreadEntry::ToolCall(call)) => if run.last().0 == index {
                Some(call)
            } else {
                None
            },
            _ => None,
        }
    }
}

/// A call of a tool as it was when it was first streamed with a result.
pub open spec fn first_done(run: Seq<(usize, ThreadEntry)>, index: usize) -> Option<ToolCallEntry>
    decreases run.len(),
{
    if run.len() == 0 {
        None
    } else {
        match (first_done(run.drop_last(), index), run.last().1) {
            (Some(call), _) => Some(call),
            (None, ThreadEntry::ToolCall(call)) => if run.last().0 == index && has_result(call) {
                Some(call)
            } else {
                None
            },
            _ => None,
        }
    }
}

proof fn filters_add_up(
    a: Seq<websocket::ServerView>,
    b: Seq<websocket::ServerView>,
    index: usize,
)
    ensures
        chunks_sent(a + b, index) == chunks_sent(a, index) + chunks_sent(b, index),
        call_messages(a + b, index) == call_messages(a, index) + call_messages(b, index),
    decreases b.len(),
{
    if b.len() == 0 {
        assert(a + b =~= a);
        assert(chunks_sent(a + b, index) =~= chunks_sent(a, index) + chunks_sent(b, index));
        assert(call_messages(a + b, index) =~= call_messages(a, index) + call_messages(b, index));
    } else {
        filters_add_up(a, b.drop_last(), index);
        assert((a + b).drop_last() =~= a + b.drop_last());
        assert((a + b).last() == b.last());
        assert(chunks_sent(a + b, index) =~= chunks_sent(a, index) + chunks_sent(b, index));
        assert(call_messages(a + b, index) =~= call_messages(a, index) + call_messages(b, index));
    }
}

proof fn runs_add_up(a: Seq<Seq<char>>, b: Seq<char>)
    ensures
        run_of(a.push(b)) == run_of(a) + b,
{
    assert(a.push(b).drop_last() =~= a);
}

/// Whatever is streamed in between, the pieces of text that are sent of a message that only grows join
/// to the whole message, and none of them is empty: nothing is lost and nothing is sent twice.
pub proof fn chunks_join_to_the_message(
    lengths: Map<usize, usize>,
    calls: Map<usize, bool>,
    run: Seq<(usize, ThreadEntry)>,
    index: usize,
)
    requires
        !lengths.dom().contains(index),
        only_grows(run, index),
    ensures
        run_of(chunks_sent(sent_in_run(lengths, calls, run), index)) == last_said(run, index),
        forall|k: int|
            0 <= k < chunks_sent(sent_in_run(lengths, calls, run), index).len() ==> (
            #[trigger] chunks_sent(sent_in_run(lengths, calls, run), index)[k]).len() > 0,
        sent_bytes(state_after(lengths, calls, run).0, index) == encode_utf8(
            last_said(run, index),
        ).len(),
    decreases run.len(),
{
    let chunks = chunks_sent(sent_in_run(lengths, calls, run), index);
    if run.len() > 0 {
        let before = run.drop_last();
        chunks_join_to_the_message(lengths, calls, before, index);
        let earlier = sent_in_run(lengths, calls, before);
        let (before_lengths, before_calls) = state_after(lengths, calls, before);
        let step = entry_sent(before_lengths, before_calls, run.last().0, run.last().1);
        filters_add_up(earlier, step, index);
        let had = last_said(before, index);
        let full = last_said(run, index);
        reveal_with_fuel(chunks_sent, 3);
        match run.last().1 {
            ThreadEntry::AssistantMessage(_) => {
                if run.last().0 == index {
                    let more = full.skip(had.len() as int);
                    assert(had + more =~= full);
                    growth_is_sent(before_lengths, index, had, more);
                    if more.len() > 0 {
                        assert(step.drop_last() =~= Seq::<websocket::ServerView>::empty());
                        assert(chunks_sent(step, index) =~= seq![more]);
                        assert(chunks =~= chunks_sent(earlier, index).push(more));
                        runs_add_up(chunks_sent(earlier, index), more);
                    } else {
                        assert(chunks =~= chunks_sent(earlier, index));
                        assert(full =~= had);
                    }
                } else {
                    assert(chunks_sent(step, index) =~= Seq::<Seq<char>>::empty());
                    assert(chunks =~= chunks_sent(earlier, index));
                }
            },
            _ => {
                assert(chunks_sent(step, index) =~= Seq::<Seq<char>>::empty());
                assert(chunks =~= chunks_sent(earlier, index));
            },
        }
    } else {
        assert(chunks =~= Seq::<Seq<char>>::empty());
    }
}

/// Whatever is streamed in between, a call of a tool is announced once, when it is first streamed, and
/// its result is sent once, when it is first streamed with one: never before the announcement, and
/// nothing else is sent of it.
pub proof fn calls_are_told_once(
    lengths: Map<usize, usize>,
    calls: Map<usize, bool>,
    run: Seq<(usize, ThreadEntry)>,
    index: usize,
)
    requires
        !calls.dom().contains(index),
    ensures
        call_messages(sent_in_run(lengths, calls, run), index) == (match (
            first_call(run, index),
            first_done(run, index),
        ) {
            (Some(first), Some(done)) => seq![start_sent(index, first), result_sent(index, done)],
            (Some(first), None) => seq![start_sent(index, first)],
            _ => Seq::empty(),
        }),
        first_done(run, index) is Some ==> first_call(run, index) is Some,
        state_after(lengths, calls, run).1.dom().contains(index) == first_call(run, index) is Some,
        is_final(state_after(lengths, calls, run).1, index) == first_done(run, index) is Some,
    decreases run.len(),
{
    let told = call_messages(sent_in_run(lengths, calls, run), index);
    if run.len() > 0 {
        let before = run.drop_last();
        calls_are_told_once(lengths, calls, before, index);
        let earlier = sent_in_run(lengths, calls, before);
        let (before_lengths, before_calls) = state_after(lengths, calls, before);
        let step = entry_sent(before_lengths, before_calls, run.last().0, run.last().1);
        filters_add_up(earlier, step, index);
        reveal_with_fuel(call_messages, 4);
        match run.last().1 {
            ThreadEntry::ToolCall(call) => {
                if run.last().0 == index {
                    assert(call_messages(step, index) =~= step) by {
                        if step.len() > 0 {
                            assert(step.drop_last().len() < 2);
                        }
                    }
                    assert(told =~= call_messages(earlier, index) + step);
                } else {
                    assert(call_messages(step, index) =~= Seq::<websocket::ServerView>::empty());
                    assert(told =~= call_messages(earlier, index));
                }
            },
            _ => {
                assert(call_messages(step, index) =~= Seq::<websocket::ServerView>::empty());
                assert(told =~= call_messages(earlier, index));
            },
        }
    }
}

} // verus!
