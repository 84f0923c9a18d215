//! What a thread asks a model, and what it shows of itself.

use vstd::prelude::*;

use crate::archive;
use crate::json;
use crate::json::Json;
use crate::markdown;
use crate::memory;
use crate::message;
use crate::message::{
    AgentMessage, AgentMessageContent, MentionUri, Message, MessageContent, MessageImage,
    RequestMessage, Role, ToolResult, ToolUse, UserMessageContent,
};
use crate::request;
use crate::text;
use crate::thread;
use crate::thread::{CompletionMode, Thread};
use crate::token_usage;
use crate::turn;
use crate::turn::{CompletionIntent, ShownCall, ToolLook, TurnError};

verus! {

// ---------------------------------------------------------------------------
// Requests
// ---------------------------------------------------------------------------

/// A request of one text.
pub open spec fn one_text(role: Role, t: Seq<char>) -> message::RequestView {
    message::RequestView { role, content: seq![message::ContentView::Text(t)], cache: false }
}

/// A request of one text.
pub fn one_text_request(role: Role, t: &str) -> (r: RequestMessage)
    ensures
        r@ == one_text(role, t@),
{
    let mut content: Vec<MessageContent> = Vec::new();
    content.push(MessageContent::Text(t.to_owned()));
    assert(message::content_views(content@) =~= seq![message::ContentView::Text(t@)]);
    RequestMessage { role, content, cache: false }
}

/// Requests with the last of them marked to be kept by the model.
pub open spec fn cached_up_to_last(reqs: Seq<message::RequestView>) -> Seq<message::RequestView> {
    if reqs.len() == 0 {
        reqs
    } else {
        reqs.update(
            reqs.len() - 1,
            message::RequestView { cache: true, ..reqs.last() },
        )
    }
}

/// What a thread asks a model: the system prompt and the messages, each marked with its position, and
/// behind them the message that is being written.
pub open spec fn request_messages(
    t: thread::ThreadView,
    system_prompt: Seq<char>,
) -> Seq<message::RequestView> {
    let kept = cached_up_to_last(
        seq![one_text(Role::System, system_prompt)] + archive::numbered_requests(t.messages),
    );
    match t.pending {
        Some(m) => kept + archive::marked(request::message_requests(m), kept.len() as int),
        None => kept,
    }
}

/// A tool that a model is offered.
#[derive(Debug)]
pub struct RequestTool {
    pub name: String,
    pub description: String,
    pub input_schema: Json,
}

/// What a tool is offered as; a tool without an input schema is not offered.
#[derive(Debug)]
pub struct OfferedTool {
    pub name: String,
    pub description: String,
    pub input_schema: Option<Json>,
}

/// What a tool that is offered holds.
pub open spec fn tool_view(t: RequestTool) -> (Seq<char>, Seq<char>, json::JsonView) {
    (t.name@, t.description@, t.input_schema@)
}

/// What tools that are offered hold.
pub open spec fn tool_views(tools: Seq<RequestTool>) -> Seq<(Seq<char>, Seq<char>, json::JsonView)> {
    tools.map_values(|t: RequestTool| tool_view(t))
}

/// The tools that have an input schema.
pub open spec fn tools_with_schema(tools: Seq<OfferedTool>) -> Seq<
    (Seq<char>, Seq<char>, json::JsonView),
>
    decreases tools.len(),
{
    if tools.len() == 0 {
        Seq::empty()
    } else {
        let before = tools_with_schema(tools.drop_last());
        match tools.last().input_schema {
            Some(schema) => before.push(
                (tools.last().name@, tools.last().description@, schema@),
            ),
            None => before,
        }
    }
}

/// A request to a model.
#[derive(Debug)]
pub struct CompletionRequest {
    pub thread_id: String,
    pub prompt_id: String,
    pub intent: CompletionIntent,
    pub mode: CompletionMode,
    pub messages: Vec<RequestMessage>,
    pub tools: Vec<RequestTool>,
    pub thinking_allowed: bool,
}

fn offered_tools(tools: &Vec<OfferedTool>) -> (r: Vec<RequestTool>)
    ensures
        tool_views(r@) == tools_with_schema(tools@),
{
    let mut out: Vec<RequestTool> = Vec::new();
    assert(tool_views(out@) =~= tools_with_schema(tools@.take(0)));
    for i in 0..tools.len()
        invariant
            tool_views(out@) == tools_with_schema(tools@.take(i as int)),
    {
        assert(tools@.take(i + 1).drop_last() =~= tools@.take(i as int));
        if let Some(schema) = &tools[i].input_schema {
            let ghost seen = out@;
            let tool = RequestTool {
                name: tools[i].name.clone(),
                description: tools[i].description.clone(),
                input_schema: schema.copy(),
            };
            out.push(tool);
            assert(tool_views(out@) =~= tool_views(seen).push(tool_view(tool)));
        }
    }
    assert(tools@.take(tools@.len() as int) =~= tools@);
    out
}

impl Thread {
    /// What the thread asks a model.
    pub fn build_request_messages(&self, system_prompt: &str) -> (r: Vec<RequestMessage>)
        ensures
            message::request_views(r@) == request_messages(self@, system_prompt@),
    {
        let mut messages: Vec<RequestMessage> = Vec::new();
        messages.push(one_text_request(Role::System, system_prompt));
        let mut numbered = archive::numbered_requests_of(&self.messages);
        let ghost added = message::request_views(numbered@);
        messages.append(&mut numbered);
        let ghost all = seq![one_text(Role::System, system_prompt@)] + added;
        assert(message::request_views(messages@) =~= all);
        if let Some(last) = messages.pop() {
            assert(last@ == all.last());
            let mut last = last;
            last.cache = true;
            messages.push(last);
        }
        let ghost kept = cached_up_to_last(all);
        assert(message::request_views(messages@) =~= kept);
        if let Some(m) = &self.pending_message {
            let n: usize = messages.len();
            assert(kept.len() == n);
            let mut reqs = archive::mark_requests(m.to_request(), n);
            let ghost pending = message::request_views(reqs@);
            messages.append(&mut reqs);
            assert(message::request_views(messages@) =~= kept + pending);
        }
        messages
    }

    /// A request to the model, with the tools of the turn that runs.
    pub fn build_completion_request(
        &self,
        intent: CompletionIntent,
        system_prompt: &str,
        turn_tools: &Vec<OfferedTool>,
    ) -> (r: Result<CompletionRequest, TurnError>)
        ensures
            match r {
                Ok(request) => self@.model is Some && request.thread_id@ == self@.id
                    && request.prompt_id@ == self@.prompt_id && request.intent == intent
                    && request.mode == self@.mode && message::request_views(request.messages@)
                    == request_messages(self@, system_prompt@) && tool_views(request.tools@) == (
                if self@.running_turn {
                    tools_with_schema(turn_tools@)
                } else {
                    Seq::empty()
                }) && request.thinking_allowed,
                Err(e) => self@.model is None && e == TurnError::NoModel,
            },
    {
        if self.model.is_none() {
            return Err(TurnError::NoModel);
        }
        let tools = if self.running_turn {
            offered_tools(turn_tools)
        } else {
            let none: Vec<RequestTool> = Vec::new();
            assert(tool_views(none@) =~= Seq::<(Seq<char>, Seq<char>, json::JsonView)>::empty());
            none
        };
        Ok(
            CompletionRequest {
                thread_id: self.id.clone(),
                prompt_id: self.prompt_id.to_text(),
                intent,
                mode: self.completion_mode,
                messages: self.build_request_messages(system_prompt),
                tools,
                thinking_allowed: true,
            },
        )
    }

    /// The messages, each marked with its position, and a prompt behind them. It is asked for a title
    /// or a summary.
    pub fn prompted_requests(&self, prompt: &str) -> (r: Vec<RequestMessage>)
        ensures
            message::request_views(r@) == archive::numbered_requests(self@.messages).push(
                one_text(Role::User, prompt@),
            ),
    {
        let mut messages = archive::numbered_requests_of(&self.messages);
        let ghost seen = messages@;
        let asked = one_text_request(Role::User, prompt);
        messages.push(asked);
        assert(message::request_views(messages@) =~= message::request_views(seen).push(asked@));
        messages
    }

    /// What a model is to count: nothing where there is no model.
    pub fn requests_to_count(&self) -> (r: Option<Vec<RequestMessage>>)
        ensures
            r is Some <==> self@.model is Some,
            r matches Some(requests) ==> message::request_views(requests@) == memory::requests_of(
                self@.messages,
            ),
    {
        if self.model.is_none() {
            return None;
        }
        Some(memory::requests_of_messages(&self.messages))
    }

    /// Keeps what a model of at most `max_tokens` counted of the prefixes of some requests, and says
    /// whether that was news. What it could not count is estimated.
    pub fn take_precise_usage(
        &mut self,
        requests: &Vec<RequestMessage>,
        counted: &Vec<Result<u64, String>>,
        max_tokens: u64,
    ) -> (changed: bool)
        requires
            counted@.len() == requests@.len(),
        ensures
            ({
                let totals = token_usage::prefix_totals(
                    message::request_views(requests@),
                    token_usage::answer_views(counted@),
                );
                &&& changed == !(old(self)@.active_tokens matches Some(v) && v as usize
                    == token_usage::last_total(totals) && old(self)@.max_tokens == Some(max_tokens)
                    && old(self)@.per_message_tokens == Some(token_usage::differences(totals)))
                &&& final(self)@ == if changed {
                    thread::ThreadView {
                        active_tokens: Some(token_usage::last_total(totals) as u64),
                        max_tokens: Some(max_tokens),
                        per_message_tokens: Some(token_usage::differences(totals)),
                        ..old(self)@
                    }
                } else {
                    old(self)@
                }
            }),
    {
        let (per_message, total) = token_usage::precise_per_message_tokens(requests, counted);
        self.apply_precise_usage(total, max_tokens, per_message)
    }

    /// Keeps counted tokens where they differ from what is kept, and says whether they do.
    pub fn apply_precise_usage(
        &mut self,
        total: usize,
        max_tokens: u64,
        per_message: Vec<usize>,
    ) -> (changed: bool)
        ensures
            changed == !(old(self)@.active_tokens matches Some(v) && v as usize == total
                && old(self)@.max_tokens == Some(max_tokens) && old(self)@.per_message_tokens
                == Some(per_message@)),
            final(self)@ == if changed {
                thread::ThreadView {
                    active_tokens: Some(total as u64),
                    max_tokens: Some(max_tokens),
                    per_message_tokens: Some(per_message@),
                    ..old(self)@
                }
            } else {
                old(self)@
            },
    {
        let total_changed = match self.precise_active_tokens {
            Some(v) => v as usize != total,
            None => true,
        };
        let max_changed = match self.precise_max_tokens {
            Some(v) => v != max_tokens,
            None => true,
        };
        let per_changed = match &self.precise_per_message_tokens {
            Some(old_counts) => !same_counts(old_counts, &per_message),
            None => true,
        };
        if total_changed || max_changed || per_changed {
            self.precise_active_tokens = Some(total as u64);
            self.precise_max_tokens = Some(max_tokens);
            self.precise_per_message_tokens = Some(per_message);
            true
        } else {
            false
        }
    }
}

fn same_counts(a: &Vec<usize>, b: &Vec<usize>) -> (r: bool)
    ensures
        r == (a@ == b@),
{
    if a.len() != b.len() {
        return false;
    }
    for i in 0..a.len()
        invariant
            a@.len() == b@.len(),
            forall|k: int| 0 <= k < i ==> a@[k] == b@[k],
    {
        if a[i] != b[i] {
            return false;
        }
    }
    assert(a@ =~= b@);
    true
}

/// The tokens of the system prompt alone, estimated.
pub fn system_prompt_token_count_heuristic(prompt: &str) -> (n: usize)
    ensures
        n == token_usage::estimate(
            token_usage::total_chars(seq![one_text(Role::System, prompt@)]),
        ),
{
    let mut messages: Vec<RequestMessage> = Vec::new();
    messages.push(one_text_request(Role::System, prompt));
    assert(message::request_views(messages@) =~= seq![one_text(Role::System, prompt@)]);
    token_usage::heuristic_token_count(&messages)
}

// ---------------------------------------------------------------------------
// Replay
// ---------------------------------------------------------------------------

/// What is shown of a message that was said before.
#[derive(Debug)]
pub enum ReplayEvent {
    UserMessage(String),
    AgentText(String),
    AgentThinking(String),
    /// A call of a tool that is there: its input, its structured output, and whether it failed.
    ToolCall { id: String, name: String, input: Json, output: Option<Json>, failed: bool },
    /// A call of a tool that is not there any more.
    UnknownToolCall { id: String, name: String, input: Json },
}

pub ghost enum ReplayView {
    UserMessage(Seq<char>),
    AgentText(Seq<char>),
    AgentThinking(Seq<char>),
    ToolCall {
        id: Seq<char>,
        name: Seq<char>,
        input: json::JsonView,
        output: Option<json::JsonView>,
        failed: bool,
    },
    UnknownToolCall { id: Seq<char>, name: Seq<char>, input: json::JsonView },
}

impl View for ReplayEvent {
    type V = ReplayView;

    open spec fn view(&self) -> ReplayView {
        match self {
            ReplayEvent::UserMessage(id) => ReplayView::UserMessage(id@),
            ReplayEvent::AgentText(t) => ReplayView::AgentText(t@),
            ReplayEvent::AgentThinking(t) => ReplayView::AgentThinking(t@),
            ReplayEvent::ToolCall { id, name, input, output, failed } => ReplayView::ToolCall {
                id: id@,
                name: name@,
                input: input@,
                output: match output {
                    Some(j) => Some(j@),
                    None => None,
                },
                failed: *failed,
            },
            ReplayEvent::UnknownToolCall { id, name, input } => ReplayView::UnknownToolCall {
                id: id@,
                name: name@,
                input: input@,
            },
        }
    }
}

impl ReplayEvent {
    /// How a call of a tool is shown again; none, where the event is no call. `look` is how the tool
    /// presents it.
    pub fn shown(&self, look: Option<ToolLook>) -> (r: Option<ShownCall>)
        ensures
            match self {
                ReplayEvent::ToolCall { id, name, input, .. } => r matches Some(call) && call@
                    == turn::presented(id@, name@, input@, look),
                ReplayEvent::UnknownToolCall { id, name, input } => r matches Some(call) && call@
                    == turn::presented(id@, name@, input@, None),
                _ => r is None,
            },
    {
        match self {
            ReplayEvent::ToolCall { id, name, input, .. } => Some(
                turn::present(id.as_str(), name.as_str(), input, look),
            ),
            ReplayEvent::UnknownToolCall { id, name, input } => Some(
                turn::present(id.as_str(), name.as_str(), input, None),
            ),
            _ => None,
        }
    }
}

/// What events hold.
pub open spec fn replay_views(events: Seq<ReplayEvent>) -> Seq<ReplayView> {
    events.map_values(|e: ReplayEvent| e@)
}

/// How a call of a tool is shown again. A call without a result failed.
pub open spec fn replayed_call(
    tool_use: message::ToolUseView,
    results: Seq<message::ToolResultView>,
    tools: Seq<Seq<char>>,
) -> ReplayView {
    if !tools.contains(tool_use.name) {
        ReplayView::UnknownToolCall { id: tool_use.id, name: tool_use.name, input: tool_use.input }
    } else {
        match turn::result_index(results, tool_use.id) {
            Some(i) => ReplayView::ToolCall {
                id: tool_use.id,
                name: tool_use.name,
                input: tool_use.input,
                output: results[i].output,
                failed: results[i].is_error,
            },
            None => ReplayView::ToolCall {
                id: tool_use.id,
                name: tool_use.name,
                input: tool_use.input,
                output: None,
                failed: true,
            },
        }
    }
}

/// How the pieces of an agent message are shown again. Redacted thoughts are not.
pub open spec fn replayed_content(
    content: Seq<message::AgentContentView>,
    results: Seq<message::ToolResultView>,
    tools: Seq<Seq<char>>,
) -> Seq<ReplayView>
    decreases content.len(),
{
    if content.len() == 0 {
        Seq::empty()
    } else {
        let before = replayed_content(content.drop_last(), results, tools);
        match content.last() {
            message::AgentContentView::Text(t) => before.push(ReplayView::AgentText(t)),
            message::AgentContentView::Thinking { text, signature } => before.push(
                ReplayView::AgentThinking(text),
            ),
            message::AgentContentView::RedactedThinking(_) => before,
            message::AgentContentView::ToolUse(tool_use) => before.push(
                replayed_call(tool_use, results, tools),
            ),
        }
    }
}

/// How messages are shown again.
pub open spec fn replayed(
    messages: Seq<message::MessageView>,
    tools: Seq<Seq<char>>,
) -> Seq<ReplayView>
    decreases messages.len(),
{
    if messages.len() == 0 {
        Seq::empty()
    } else {
        let before = replayed(messages.drop_last(), tools);
        match messages.last() {
            message::MessageView::User { id, content } => before.push(ReplayView::UserMessage(id)),
            message::MessageView::Agent { content, tool_results } => before + replayed_content(
                content,
                tool_results,
                tools,
            ),
            message::MessageView::Resume => before,
        }
    }
}

fn replay_call(
    tool_use: &ToolUse,
    results: &Vec<ToolResult>,
    tools: &Vec<String>,
) -> (r: ReplayEvent)
    ensures
        r@ == replayed_call(tool_use@, message::result_views(results@), text::views(tools@)),
{
    if !text::contains_text(tools, tool_use.name.as_str()) {
        return ReplayEvent::UnknownToolCall {
            id: tool_use.id.clone(),
            name: tool_use.name.clone(),
            input: tool_use.input.copy(),
        };
    }
    let mut output: Option<Json> = None;
    let mut failed = true;
    if let Some(i) = turn::find_result(results, tool_use.id.as_str()) {
        assert(message::result_views(results@)[i as int] == results@[i as int]@);
        output = match &results[i].output {
            Some(j) => Some(j.copy()),
            None => None,
        };
        failed = results[i].is_error;
    }
    ReplayEvent::ToolCall {
        id: tool_use.id.clone(),
        name: tool_use.name.clone(),
        input: tool_use.input.copy(),
        output,
        failed,
    }
}

fn replay_content(m: &AgentMessage, tools: &Vec<String>) -> (r: Vec<ReplayEvent>)
    ensures
        replay_views(r@) == replayed_content(
            message::agent_views(m.content@),
            message::result_views(m.tool_results@),
            text::views(tools@),
        ),
{
    let ghost all = message::agent_views(m.content@);
    let ghost results = message::result_views(m.tool_results@);
    let mut out: Vec<ReplayEvent> = Vec::new();
    assert(replay_views(out@) =~= replayed_content(all.take(0), results, text::views(tools@)));
    for i in 0..m.content.len()
        invariant
            all == message::agent_views(m.content@),
            results == message::result_views(m.tool_results@),
            replay_views(out@) == replayed_content(
                all.take(i as int),
                results,
                text::views(tools@),
            ),
    {
        assert(all.take(i + 1).drop_last() =~= all.take(i as int));
        assert(all.take(i + 1).last() == m.content@[i as int]@);
        let event = match &m.content[i] {
            AgentMessageContent::Text(t) => Some(ReplayEvent::AgentText(t.clone())),
            AgentMessageContent::Thinking { text, signature: _ } => Some(
                ReplayEvent::AgentThinking(text.clone()),
            ),
            AgentMessageContent::RedactedThinking(_) => None,
            AgentMessageContent::ToolUse(tool_use) => Some(
                replay_call(tool_use, &m.tool_results, tools),
            ),
        };
        if let Some(e) = event {
            let ghost seen = out@;
            out.push(e);
            assert(replay_views(out@) =~= replay_views(seen).push(e@));
        }
    }
    assert(all.take(all.len() as int) =~= all);
    out
}

impl Thread {
    /// What is shown of the messages when the thread is opened again. `known_tools` are the tools of
    /// the thread and of the context servers.
    pub fn replay(&self, known_tools: &Vec<String>) -> (r: Vec<ReplayEvent>)
        ensures
            replay_views(r@) == replayed(self@.messages, text::views(known_tools@)),
    {
        let ghost all = self@.messages;
        let mut out: Vec<ReplayEvent> = Vec::new();
        assert(replay_views(out@) =~= replayed(all.take(0), text::views(known_tools@)));
        for i in 0..self.messages.len()
            invariant
                all == message::message_views(self.messages@),
                replay_views(out@) == replayed(all.take(i as int), text::views(known_tools@)),
        {
            assert(all.take(i + 1).drop_last() =~= all.take(i as int));
            assert(all.take(i + 1).last() == self.messages@[i as int]@);
            let ghost seen = out@;
            match &self.messages[i] {
                Message::User(m) => {
                    let e = ReplayEvent::UserMessage(m.id.clone());
                    out.push(e);
                    assert(replay_views(out@) =~= replay_views(seen).push(e@));
                },
                Message::Agent(m) => {
                    let mut events = replay_content(m, known_tools);
                    let ghost added = events@;
                    out.append(&mut events);
                    assert(replay_views(out@) =~= replay_views(seen) + replay_views(added));
                },
                Message::Resume => {},
            }
        }
        assert(all.take(all.len() as int) =~= all);
        out
    }
}

// ---------------------------------------------------------------------------
// Content from outside
// ---------------------------------------------------------------------------

/// A link that was read as a mention.
#[derive(Debug)]
pub struct ParsedMention {
    pub uri: MentionUri,
    pub link: String,
}

/// A piece of a prompt as a client sends it. `mention` is there where the address of a resource could
/// be read as a mention.
#[derive(Debug)]
pub enum ContentBlock {
    Text(String),
    Image { data: String },
    Audio,
    ResourceLink { name: String, uri: String, mention: Option<ParsedMention> },
    TextResource { uri: String, text: String, mention: Option<ParsedMention> },
    BlobResource,
}

/// What a piece of a prompt is in a user message.
pub open spec fn block_content(block: ContentBlock) -> message::UserContentView {
    match block {
        ContentBlock::Text(t) => message::UserContentView::Text(t@),
        ContentBlock::Image { data } => message::UserContentView::Image(
            message::ImageView { source: data@, width: 0, height: 0 },
        ),
        ContentBlock::Audio => message::UserContentView::Text("[audio]"@),
        ContentBlock::ResourceLink { name, uri, mention } => match mention {
            Some(m) => message::UserContentView::Mention {
                uri: m.uri@,
                link: m.link@,
                content: Seq::empty(),
            },
            None => message::UserContentView::Text("["@ + name@ + "]("@ + uri@ + ")"@),
        },
        ContentBlock::TextResource { uri, text, mention } => match mention {
            Some(m) => message::UserContentView::Mention {
                uri: m.uri@,
                link: m.link@,
                content: text@,
            },
            None => message::UserContentView::Text(markdown::code_block(uri@, text@)),
        },
        ContentBlock::BlobResource => message::UserContentView::Text("[blob]"@),
    }
}

/// A piece of a prompt as a piece of a user message. What cannot be read as a mention is kept as a
/// text.
pub fn content_of_block(block: ContentBlock) -> (r: UserMessageContent)
    ensures
        r@ == block_content(block),
{
    match block {
        ContentBlock::Text(t) => UserMessageContent::Text(t),
        ContentBlock::Image { data } => UserMessageContent::Image(
            MessageImage { source: data, width: 0, height: 0 },
        ),
        ContentBlock::Audio => UserMessageContent::Text("[audio]".to_owned()),
        ContentBlock::ResourceLink { name, uri, mention } => match mention {
            Some(m) => UserMessageContent::Mention {
                uri: m.uri,
                link: m.link,
                content: String::new(),
            },
            None => {
                let mut out = "[".to_owned();
                out.append(name.as_str());
                out.append("](");
                out.append(uri.as_str());
                out.append(")");
                UserMessageContent::Text(out)
            },
        },
        ContentBlock::TextResource { uri, text, mention } => match mention {
            Some(m) => UserMessageContent::Mention { uri: m.uri, link: m.link, content: text },
            None => UserMessageContent::Text(
                markdown::code_block_text(uri.as_str(), text.as_str()),
            ),
        },
        ContentBlock::BlobResource => UserMessageContent::Text("[blob]".to_owned()),
    }
}

/// The piece of a user message that comes back when it is sent: the size of an image is not sent.
pub open spec fn sent_content(content: message::UserContentView) -> message::UserContentView {
    match content {
        message::UserContentView::Image(i) => message::UserContentView::Image(
            message::ImageView { source: i.source, width: 0, height: 0 },
        ),
        other => other,
    }
}

/// A piece of a user message as a client is sent it. `address` is that of what is mentioned. Read
/// again, it is the same piece.
pub fn block_of_content(content: &UserMessageContent, address: &str) -> (r: ContentBlock)
    ensures
        block_content(r) == sent_content(content@),
        match content {
            UserMessageContent::Text(_) => r is Text,
            UserMessageContent::Image(_) => r is Image,
            UserMessageContent::Mention { uri: _, link: _, content: c } => r matches
                ContentBlock::TextResource { uri: u, text: t, mention: Some(_) } && u@ == address@
                && t@ == c@,
        },
{
    match content {
        UserMessageContent::Text(t) => ContentBlock::Text(t.clone()),
        UserMessageContent::Image(image) => ContentBlock::Image { data: image.source.clone() },
        UserMessageContent::Mention { uri, link, content } => ContentBlock::TextResource {
            uri: address.to_owned(),
            text: content.clone(),
            mention: Some(ParsedMention { uri: uri.copy(), link: link.clone() }),
        },
    }
}

} // verus!
