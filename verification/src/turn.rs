//! A turn of the agent: what the events of a model do to a thread, and how the turn goes on.

use vstd::prelude::*;

use crate::ids;
use crate::json;
use crate::json::Json;
use crate::message;
use crate::message::{
    AgentMessage, AgentMessageContent, Message, ToolResult, ToolResultContent, ToolUse, UserMessage,
    UserMessageContent,
};
use crate::request;
use crate::retry;
use crate::retry::{CompletionFailure, RetryStatus};
use crate::text;
use crate::thread;
use crate::thread::{ModelUsage, Thread, TokenUsageUpdated};
use crate::tools::ToolKind;

verus! {

/// The result of a call that was cancelled.
pub const TOOL_CANCELED_MESSAGE: &'static str = "Tool canceled by user";

/// The error of a thread without a model.
pub const NO_MODEL_MESSAGE: &'static str = "No language model configured";

/// Why a model stopped.
#[derive(Debug, Clone, Copy, PartialEq, Eq, Structural)]
pub enum StopReason {
    EndTurn,
    MaxTokens,
    ToolUse,
    Refusal,
}

/// What a model reports while it answers.
#[derive(Debug)]
pub enum CompletionEvent {
    StartMessage,
    Text(String),
    Thinking { text: String, signature: Option<String> },
    RedactedThinking { data: String },
    ToolUse(ToolUse),
    ToolUseJsonParseError {
        id: String,
        tool_name: String,
        raw_input: String,
        json_parse_error: String,
    },
    UsageUpdate { tokens: ModelUsage },
    RequestUsageUpdated { amount: usize },
    StatusUpdate,
    ToolUseLimitReached,
    Stop(StopReason),
}

/// What is to be done for a call of a tool.
#[derive(Debug)]
pub enum ToolStep {
    /// Its input is not complete.
    Wait,
    /// There is no such tool: this is the result.
    Answer(ToolResult),
    /// The tool is to be run.
    Run,
}

/// How a tool presents a call: the title that it gives it, and what it does to its subject.
#[derive(Debug)]
pub struct ToolLook {
    pub title: String,
    pub kind: ToolKind,
}

/// A call of a tool, as it is shown.
#[derive(Debug)]
pub struct ShownCall {
    pub id: String,
    pub title: String,
    pub kind: ToolKind,
    pub input: Json,
}

pub ghost struct ShownView {
    pub id: Seq<char>,
    pub title: Seq<char>,
    pub kind: ToolKind,
    pub input: json::JsonView,
}

impl View for ShownCall {
    type V = ShownView;

    open spec fn view(&self) -> ShownView {
        ShownView {
            id: self.id@,
            title: self.title@,
            kind: self.kind,
            input: self.input@,
        }
    }
}

/// What is to be done for an event, beyond what it did to the thread.
#[derive(Debug)]
pub enum EventOutcome {
    Nothing,
    /// The text is to be shown.
    ShowText(String),
    /// The thought is to be shown.
    ShowThinking(String),
    /// The call is to be shown, as a new one or as a change of the last one; `Thread::show_call` says
    /// how.
    ToolCall { is_new: bool, step: ToolStep },
    /// A call is answered with this result.
    ToolResult(ToolResult),
    /// The token usage is to be reported, if it changed.
    TokenUsage(Option<TokenUsageUpdated>),
    /// The number of requests that were made is to be kept.
    RequestUsage { amount: usize },
}

/// Why a turn ends before the model is done.
#[derive(Debug, Clone, Copy, PartialEq, Eq, Structural)]
pub enum CompletionError {
    MaxTokens,
    Refusal,
}

pub ghost enum EventView {
    StartMessage,
    Text(Seq<char>),
    Thinking { text: Seq<char>, signature: Option<Seq<char>> },
    RedactedThinking { data: Seq<char> },
    ToolUse(message::ToolUseView),
    ToolUseJsonParseError {
        id: Seq<char>,
        tool_name: Seq<char>,
        raw_input: Seq<char>,
        json_parse_error: Seq<char>,
    },
    UsageUpdate { tokens: ModelUsage },
    RequestUsageUpdated { amount: usize },
    StatusUpdate,
    ToolUseLimitReached,
    Stop(StopReason),
}

pub ghost enum StepView {
    Wait,
    Answer(message::ToolResultView),
    Run,
}

pub ghost enum OutcomeView {
    Nothing,
    ShowText(Seq<char>),
    ShowThinking(Seq<char>),
    ToolCall { is_new: bool, step: StepView },
    ToolResult(message::ToolResultView),
    TokenUsage(Option<TokenUsageUpdated>),
    RequestUsage { amount: usize },
}

impl View for CompletionEvent {
    type V = EventView;

    open spec fn view(&self) -> EventView {
        match self {
            CompletionEvent::StartMessage => EventView::StartMessage,
            CompletionEvent::Text(t) => EventView::Text(t@),
            CompletionEvent::Thinking { text, signature } => EventView::Thinking {
                text: text@,
                signature: text::opt_view(*signature),
            },
            CompletionEvent::RedactedThinking { data } => EventView::RedactedThinking {
                data: data@,
            },
            CompletionEvent::ToolUse(tool_use) => EventView::ToolUse(tool_use@),
            CompletionEvent::ToolUseJsonParseError { id, tool_name, raw_input, json_parse_error } => {
                EventView::ToolUseJsonParseError {
                    id: id@,
                    tool_name: tool_name@,
                    raw_input: raw_input@,
                    json_parse_error: json_parse_error@,
                }
            },
            CompletionEvent::UsageUpdate { tokens } => EventView::UsageUpdate {
                tokens: *tokens,
            },
            CompletionEvent::RequestUsageUpdated { amount } => EventView::RequestUsageUpdated {
                amount: *amount,
            },
            CompletionEvent::StatusUpdate => EventView::StatusUpdate,
            CompletionEvent::ToolUseLimitReached => EventView::ToolUseLimitReached,
            CompletionEvent::Stop(reason) => EventView::Stop(*reason),
        }
    }
}

impl View for ToolStep {
    type V = StepView;

    open spec fn view(&self) -> StepView {
        match self {
            ToolStep::Wait => StepView::Wait,
            ToolStep::Answer(r) => StepView::Answer(r@),
            ToolStep::Run => StepView::Run,
        }
    }
}

impl View for EventOutcome {
    type V = OutcomeView;

    open spec fn view(&self) -> OutcomeView {
        match self {
            EventOutcome::Nothing => OutcomeView::Nothing,
            EventOutcome::ShowText(t) => OutcomeView::ShowText(t@),
            EventOutcome::ShowThinking(t) => OutcomeView::ShowThinking(t@),
            EventOutcome::ToolCall { is_new, step } => OutcomeView::ToolCall {
                is_new: *is_new,
                step: step@,
            },
            EventOutcome::ToolResult(r) => OutcomeView::ToolResult(r@),
            EventOutcome::TokenUsage(u) => OutcomeView::TokenUsage(*u),
            EventOutcome::RequestUsage { amount } => OutcomeView::RequestUsage { amount: *amount },
        }
    }
}

// ---------------------------------------------------------------------------
// The message that is being written
// ---------------------------------------------------------------------------

/// The pieces of the message that is being written.
pub open spec fn pending_content(t: thread::ThreadView) -> Seq<message::AgentContentView> {
    match t.pending {
        Some(message::MessageView::Agent { content, tool_results }) => content,
        _ => Seq::empty(),
    }
}

/// The tool results of the message that is being written.
pub open spec fn pending_results(t: thread::ThreadView) -> Seq<message::ToolResultView> {
    match t.pending {
        Some(message::MessageView::Agent { content, tool_results }) => tool_results,
        _ => Seq::empty(),
    }
}

/// The thread with the pieces of the message that is being written set.
pub open spec fn with_content(
    t: thread::ThreadView,
    content: Seq<message::AgentContentView>,
) -> thread::ThreadView {
    thread::ThreadView {
        pending: Some(
            message::MessageView::Agent { content, tool_results: pending_results(t) },
        ),
        ..t
    }
}

/// The pieces with a text behind them: it goes to the last piece, where that is a text.
pub open spec fn with_text(
    content: Seq<message::AgentContentView>,
    new_text: Seq<char>,
) -> Seq<message::AgentContentView> {
    if content.len() > 0 && content.last() is Text {
        content.update(
            content.len() - 1,
            message::AgentContentView::Text(content.last()->Text_0 + new_text),
        )
    } else {
        content.push(message::AgentContentView::Text(new_text))
    }
}

/// The pieces with a thought behind them: it goes to the last piece, where that is a thought. A new
/// signature takes the place of the old one.
pub open spec fn with_thinking(
    content: Seq<message::AgentContentView>,
    new_text: Seq<char>,
    new_signature: Option<Seq<char>>,
) -> Seq<message::AgentContentView> {
    if content.len() > 0 && content.last() is Thinking {
        content.update(
            content.len() - 1,
            message::AgentContentView::Thinking {
                text: content.last()->Thinking_text + new_text,
                signature: match new_signature {
                    Some(s) => Some(s),
                    None => content.last()->Thinking_signature,
                },
            },
        )
    } else {
        content.push(
            message::AgentContentView::Thinking { text: new_text, signature: new_signature },
        )
    }
}

/// Whether a call is not the one that the last piece is.
pub open spec fn is_new_call(content: Seq<message::AgentContentView>, id: Seq<char>) -> bool {
    !(content.len() > 0 && content.last() is ToolUse && content.last()->ToolUse_0.id == id)
}

/// The pieces with a call at their end: it takes the place of the last piece, where that is the same
/// call.
pub open spec fn with_call(
    content: Seq<message::AgentContentView>,
    tool_use: message::ToolUseView,
) -> Seq<message::AgentContentView> {
    if is_new_call(content, tool_use.id) {
        content.push(message::AgentContentView::ToolUse(tool_use))
    } else {
        content.update(content.len() - 1, message::AgentContentView::ToolUse(tool_use))
    }
}

/// The result of a call that was cancelled.
pub open spec fn cancelled_result(tool_use: message::ToolUseView) -> message::ToolResultView {
    message::ToolResultView {
        tool_use_id: tool_use.id,
        tool_name: tool_use.name,
        is_error: true,
        content: message::ResultContentView::Text(TOOL_CANCELED_MESSAGE@),
        output: None,
    }
}

/// The results, with a cancelled one for each call that has none.
pub open spec fn completed_results(
    content: Seq<message::AgentContentView>,
    results: Seq<message::ToolResultView>,
) -> Seq<message::ToolResultView>
    decreases content.len(),
{
    if content.len() == 0 {
        results
    } else {
        let before = completed_results(content.drop_last(), results);
        match content.last() {
            message::AgentContentView::ToolUse(tool_use) => if request::has_result(
                before,
                tool_use.id,
            ) {
                before
            } else {
                before.push(cancelled_result(tool_use))
            },
            _ => before,
        }
    }
}

/// The thread with the message that was being written among its messages. An empty one is dropped.
/// `now` is the time; it is kept only where a message was added.
pub open spec fn flushed(t: thread::ThreadView, now: i64) -> thread::ThreadView {
    if t.pending is None {
        t
    } else if pending_content(t).len() == 0 {
        thread::ThreadView { pending: None, ..t }
    } else {
        thread::ThreadView {
            messages: t.messages.push(
                message::MessageView::Agent {
                    content: pending_content(t),
                    tool_results: completed_results(pending_content(t), pending_results(t)),
                },
            ),
            pending: None,
            summary: None,
            updated_at_ms: now,
            ..t
        }
    }
}

/// The thread after its turn was cancelled, at a time.
pub open spec fn cancelled(t: thread::ThreadView, now: i64) -> thread::ThreadView {
    flushed(thread::ThreadView { running_turn: false, ..t }, now)
}

/// Results with one put in: it takes the place of an earlier one for the same call.
pub open spec fn with_result(
    results: Seq<message::ToolResultView>,
    result: message::ToolResultView,
) -> Seq<message::ToolResultView> {
    match result_index(results, result.tool_use_id) {
        Some(i) => results.update(i, result),
        None => results.push(result),
    }
}

/// The position of the first result of a call.
pub open spec fn result_index(results: Seq<message::ToolResultView>, id: Seq<char>) -> Option<int>
    decreases results.len(),
{
    if results.len() == 0 {
        None
    } else {
        match result_index(results.drop_last(), id) {
            Some(i) => Some(i),
            None => if results.last().tool_use_id == id {
                Some(results.len() - 1)
            } else {
                None
            },
        }
    }
}

// ---------------------------------------------------------------------------
// Events
// ---------------------------------------------------------------------------

/// The result of a call of a tool that does not exist.
pub open spec fn missing_tool_result(tool_use: message::ToolUseView) -> message::ToolResultView {
    message::ToolResultView {
        tool_use_id: tool_use.id,
        tool_name: tool_use.name,
        is_error: true,
        content: message::ResultContentView::Text("No tool named "@ + tool_use.name + " exists"@),
        output: None,
    }
}

/// A call as a tool presents it; without a tool it has the name for its title, and no special kind.
pub open spec fn presented(
    id: Seq<char>,
    name: Seq<char>,
    input: json::JsonView,
    look: Option<ToolLook>,
) -> ShownView {
    ShownView {
        id,
        title: match look {
            Some(l) => l.title@,
            None => name,
        },
        kind: match look {
            Some(l) => l.kind,
            None => ToolKind::Other,
        },
        input,
    }
}

/// How a call of a tool is shown: as the tool presents it, where there is such a tool.
pub open spec fn call_shown(
    tools: Seq<Seq<char>>,
    tool_use: message::ToolUseView,
    look: Option<ToolLook>,
) -> ShownView {
    presented(
        tool_use.id,
        tool_use.name,
        tool_use.input,
        if tools.contains(tool_use.name) {
            look
        } else {
            None
        },
    )
}

/// A call as a tool presents it.
pub fn present(id: &str, name: &str, input: &Json, look: Option<ToolLook>) -> (r: ShownCall)
    ensures
        r@ == presented(id@, name@, input@, look),
{
    match look {
        Some(own) => ShownCall {
            id: id.to_owned(),
            title: own.title,
            kind: own.kind,
            input: input.copy(),
        },
        None => ShownCall {
            id: id.to_owned(),
            title: name.to_owned(),
            kind: ToolKind::Other,
            input: input.copy(),
        },
    }
}

/// The result of a call whose input was not JSON.
pub open spec fn parse_error_result(
    id: Seq<char>,
    tool_name: Seq<char>,
    raw_input: Seq<char>,
    error: Seq<char>,
) -> message::ToolResultView {
    message::ToolResultView {
        tool_use_id: id,
        tool_name,
        is_error: true,
        content: message::ResultContentView::Text("Error parsing input JSON: "@ + error),
        output: Some(json::JsonView::Text(raw_input)),
    }
}

/// The thread after an event, at a time.
pub open spec fn after_event(
    t: thread::ThreadView,
    event: EventView,
    now: i64,
) -> thread::ThreadView {
    match event {
        EventView::StartMessage => thread::ThreadView {
            pending: Some(
                message::MessageView::Agent {
                    content: Seq::empty(),
                    tool_results: Seq::empty(),
                },
            ),
            ..flushed(t, now)
        },
        EventView::Text(new_text) => with_content(t, with_text(pending_content(t), new_text)),
        EventView::Thinking { text, signature } => with_content(
            t,
            with_thinking(pending_content(t), text, signature),
        ),
        EventView::RedactedThinking { data } => with_content(
            t,
            pending_content(t).push(message::AgentContentView::RedactedThinking(data)),
        ),
        EventView::ToolUse(tool_use) => with_content(t, with_call(pending_content(t), tool_use)),
        EventView::UsageUpdate { tokens } => match thread::last_user_id(t.messages) {
            Some(id) => thread::ThreadView {
                usage: thread::usage_with(t.usage, id, tokens),
                ..t
            },
            None => t,
        },
        EventView::ToolUseLimitReached => thread::ThreadView { tool_use_limit_reached: true, ..t },
        _ => t,
    }
}

/// What is to be done for an event, beyond what it did to the thread.
pub open spec fn outcome_of(t: thread::ThreadView, event: EventView) -> OutcomeView {
    match event {
        EventView::Text(new_text) => OutcomeView::ShowText(new_text),
        EventView::Thinking { text, signature } => OutcomeView::ShowThinking(text),
        EventView::ToolUse(tool_use) => OutcomeView::ToolCall {
            is_new: is_new_call(pending_content(t), tool_use.id),
            step: if !tool_use.is_input_complete {
                StepView::Wait
            } else if !t.tools.contains(tool_use.name) {
                StepView::Answer(missing_tool_result(tool_use))
            } else {
                StepView::Run
            },
        },
        EventView::ToolUseJsonParseError { id, tool_name, raw_input, json_parse_error } => {
            OutcomeView::ToolResult(
                parse_error_result(id, tool_name, raw_input, json_parse_error),
            )
        },
        EventView::UsageUpdate { tokens } => OutcomeView::TokenUsage(
            if thread::last_user_id(t.messages) is Some {
                Some(TokenUsageUpdated(thread::latest_usage(after_event(t, event, t.updated_at_ms))))
            } else {
                None
            },
        ),
        EventView::RequestUsageUpdated { amount } => OutcomeView::RequestUsage { amount },
        _ => OutcomeView::Nothing,
    }
}

/// The error that an event ends the turn with, if it does.
pub open spec fn event_error(event: EventView) -> Option<CompletionError> {
    match event {
        EventView::Stop(StopReason::Refusal) => Some(CompletionError::Refusal),
        EventView::Stop(StopReason::MaxTokens) => Some(CompletionError::MaxTokens),
        _ => None,
    }
}

fn cancelled_tool_result(tool_use: &ToolUse) -> (r: ToolResult)
    ensures
        r@ == cancelled_result(tool_use@),
{
    ToolResult {
        tool_use_id: tool_use.id.clone(),
        tool_name: tool_use.name.clone(),
        is_error: true,
        content: ToolResultContent::Text(TOOL_CANCELED_MESSAGE.to_owned()),
        output: None,
    }
}

fn complete_results(content: &Vec<AgentMessageContent>, results: &mut Vec<ToolResult>)
    ensures
        message::result_views(final(results)@) == completed_results(
            message::agent_views(content@),
            message::result_views(old(results)@),
        ),
{
    let ghost all = message::agent_views(content@);
    let ghost given = message::result_views(results@);
    for i in 0..content.len()
        invariant
            all == message::agent_views(content@),
            message::result_views(results@) == completed_results(all.take(i as int), given),
    {
        assert(all.take(i + 1).drop_last() =~= all.take(i as int));
        assert(all.take(i + 1).last() == content@[i as int]@);
        if let AgentMessageContent::ToolUse(tool_use) = &content[i] {
            if !request::results_hold(results, tool_use.id.as_str()) {
                let ghost seen = results@;
                let result = cancelled_tool_result(tool_use);
                results.push(result);
                assert(message::result_views(results@) =~= message::result_views(seen).push(
                    result@,
                ));
            }
        }
    }
    assert(all.take(all.len() as int) =~= all);
}

/// The position of the first result of a call.
pub fn find_result(results: &Vec<ToolResult>, id: &str) -> (r: Option<usize>)
    ensures
        match r {
            Some(i) => i < results@.len() && result_index(message::result_views(results@), id@)
                == Some(i as int),
            None => result_index(message::result_views(results@), id@) is None,
        },
{
    let ghost all = message::result_views(results@);
    let mut found: Option<usize> = None;
    for i in 0..results.len()
        invariant
            all == message::result_views(results@),
            match found {
                Some(k) => k < i && result_index(all.take(i as int), id@) == Some(k as int),
                None => result_index(all.take(i as int), id@) is None,
            },
    {
        assert(all.take(i + 1).drop_last() =~= all.take(i as int));
        assert(all.take(i + 1).last() == results@[i as int]@);
        if found.is_none() && text::same(results[i].tool_use_id.as_str(), id) {
            found = Some(i);
        }
    }
    assert(all.take(all.len() as int) =~= all);
    found
}

fn add_text(content: &mut Vec<AgentMessageContent>, new_text: String)
    ensures
        message::agent_views(final(content)@) == with_text(
            message::agent_views(old(content)@),
            new_text@,
        ),
{
    let ghost before = content@;
    let ghost views = message::agent_views(content@);
    match content.pop() {
        Some(last) => {
            assert(last@ == views.last());
            match last {
                AgentMessageContent::Text(t) => {
                    let mut t = t;
                    t.append(new_text.as_str());
                    content.push(AgentMessageContent::Text(t));
                },
                other => {
                    content.push(other);
                    content.push(AgentMessageContent::Text(new_text));
                },
            }
        },
        None => {
            content.push(AgentMessageContent::Text(new_text));
        },
    }
    assert(message::agent_views(content@) =~= with_text(views, new_text@));
}

fn add_thinking(
    content: &mut Vec<AgentMessageContent>,
    new_text: String,
    new_signature: Option<String>,
)
    ensures
        message::agent_views(final(content)@) == with_thinking(
            message::agent_views(old(content)@),
            new_text@,
            text::opt_view(new_signature),
        ),
{
    let ghost views = message::agent_views(content@);
    match content.pop() {
        Some(last) => {
            assert(last@ == views.last());
            match last {
                AgentMessageContent::Thinking { text: old_text, signature } => {
                    let mut joined = old_text;
                    joined.append(new_text.as_str());
                    let signature = match new_signature {
                        Some(s) => Some(s),
                        None => signature,
                    };
                    content.push(AgentMessageContent::Thinking { text: joined, signature });
                },
                other => {
                    content.push(other);
                    content.push(
                        AgentMessageContent::Thinking { text: new_text, signature: new_signature },
                    );
                },
            }
        },
        None => {
            content.push(
                AgentMessageContent::Thinking { text: new_text, signature: new_signature },
            );
        },
    }
    assert(message::agent_views(content@) =~= with_thinking(
        views,
        new_text@,
        text::opt_view(new_signature),
    ));
}

fn add_call(content: &mut Vec<AgentMessageContent>, tool_use: ToolUse) -> (is_new: bool)
    ensures
        is_new == is_new_call(message::agent_views(old(content)@), tool_use@.id),
        message::agent_views(final(content)@) == with_call(
            message::agent_views(old(content)@),
            tool_use@,
        ),
{
    let ghost views = message::agent_views(content@);
    let n: usize = content.len();
    let mut is_new = true;
    if n > 0 {
        assert(views.last() == content@[n - 1]@);
        if let AgentMessageContent::ToolUse(last) = &content[n - 1] {
            if text::same(last.id.as_str(), tool_use.id.as_str()) {
                is_new = false;
            }
        }
    }
    if is_new {
        content.push(AgentMessageContent::ToolUse(tool_use));
    } else {
        content.set(n - 1, AgentMessageContent::ToolUse(tool_use));
    }
    assert(message::agent_views(content@) =~= with_call(views, tool_use@));
    is_new
}

impl Thread {
    fn take_pending(&mut self) -> (m: AgentMessage)
        ensures
            m@ == (message::MessageView::Agent {
                content: pending_content(old(self)@),
                tool_results: pending_results(old(self)@),
            }),
            final(self)@ == (thread::ThreadView { pending: None, ..old(self)@ }),
    {
        match self.pending_message.take() {
            Some(m) => m,
            None => {
                let m = AgentMessage { content: Vec::new(), tool_results: Vec::new() };
                assert(message::agent_views(m.content@) =~= Seq::<
                    message::AgentContentView,
                >::empty());
                assert(message::result_views(m.tool_results@) =~= Seq::<
                    message::ToolResultView,
                >::empty());
                m
            },
        }
    }

    /// Puts the message that is being written among the messages. A call without a result gets one
    /// that says it was cancelled; a message without content is dropped.
    pub fn flush_pending_message(&mut self)
        ensures
            final(self)@ == flushed(old(self)@, final(self)@.updated_at_ms),
    {
        let pending = self.pending_message.take();
        let m = match pending {
            None => return ,
            Some(m) => m,
        };
        assert(message::agent_views(m.content@).len() == m.content@.len());
        if m.content.len() == 0 {
            return ;
        }
        let AgentMessage { content, tool_results } = m;
        let mut tool_results = tool_results;
        complete_results(&content, &mut tool_results);
        let ghost seen = self.messages@;
        let message = Message::Agent(AgentMessage { content, tool_results });
        self.messages.push(message);
        assert(message::message_views(self.messages@) =~= message::message_views(seen).push(
            message@,
        ));
        self.updated_at_ms = thread::now_ms();
        self.summary = None;
    }

    /// Ends the turn that runs, if one does, and says whether one did.
    pub fn cancel(&mut self) -> (was_running: bool)
        ensures
            was_running == old(self)@.running_turn,
            final(self)@ == cancelled(old(self)@, final(self)@.updated_at_ms),
    {
        let was_running = self.running_turn;
        self.running_turn = false;
        self.flush_pending_message();
        was_running
    }

    /// Whether a tool is registered under a name.
    pub fn tool(&self, name: &str) -> (r: bool)
        ensures
            r == self@.tools.contains(name@),
    {
        text::contains_text(&self.tools, name)
    }

    /// How a call of a tool is shown, as a new one or as a change of the last one. `look` is how the
    /// tool presents it; there is none where there is no such tool.
    pub fn show_call(&self, tool_use: &ToolUse, look: Option<ToolLook>) -> (r: ShownCall)
        ensures
            r@ == call_shown(self@.tools, tool_use@, look),
    {
        let own = if self.tool(tool_use.name.as_str()) {
            look
        } else {
            None
        };
        present(tool_use.id.as_str(), tool_use.name.as_str(), &tool_use.input, own)
    }

    /// Takes an event of the model in.
    pub fn handle_completion_event(&mut self, event: CompletionEvent) -> (r: Result<
        EventOutcome,
        CompletionError,
    >)
        ensures
            match r {
                Ok(outcome) => event_error(event@) is None && outcome@ == outcome_of(
                    old(self)@,
                    event@,
                ) && final(self)@ == after_event(old(self)@, event@, final(self)@.updated_at_ms),
                Err(e) => event_error(event@) == Some(e) && final(self)@ == old(self)@,
            },
    {
        match event {
            CompletionEvent::StartMessage => {
                self.flush_pending_message();
                let m = AgentMessage { content: Vec::new(), tool_results: Vec::new() };
                assert(message::agent_views(m.content@) =~= Seq::<
                    message::AgentContentView,
                >::empty());
                assert(message::result_views(m.tool_results@) =~= Seq::<
                    message::ToolResultView,
                >::empty());
                self.pending_message = Some(m);
                Ok(EventOutcome::Nothing)
            },
            CompletionEvent::Text(new_text) => {
                let shown = new_text.clone();
                let AgentMessage { content, tool_results } = self.take_pending();
                let mut content = content;
                add_text(&mut content, new_text);
                self.pending_message = Some(AgentMessage { content, tool_results });
                Ok(EventOutcome::ShowText(shown))
            },
            CompletionEvent::Thinking { text, signature } => {
                let shown = text.clone();
                let AgentMessage { content, tool_results } = self.take_pending();
                let mut content = content;
                add_thinking(&mut content, text, signature);
                self.pending_message = Some(AgentMessage { content, tool_results });
                Ok(EventOutcome::ShowThinking(shown))
            },
            CompletionEvent::RedactedThinking { data } => {
                let AgentMessage { content, tool_results } = self.take_pending();
                let mut content = content;
                let ghost views = message::agent_views(content@);
                content.push(AgentMessageContent::RedactedThinking(data));
                assert(message::agent_views(content@) =~= views.push(
                    message::AgentContentView::RedactedThinking(data@),
                ));
                self.pending_message = Some(AgentMessage { content, tool_results });
                Ok(EventOutcome::Nothing)
            },
            CompletionEvent::ToolUse(tool_use) => {
                let step = if !tool_use.is_input_complete {
                    ToolStep::Wait
                } else if !self.tool(tool_use.name.as_str()) {
                    let mut answer = "No tool named ".to_owned();
                    answer.append(tool_use.name.as_str());
                    answer.append(" exists");
                    ToolStep::Answer(
                        ToolResult {
                            tool_use_id: tool_use.id.clone(),
                            tool_name: tool_use.name.clone(),
                            is_error: true,
                            content: ToolResultContent::Text(answer),
                            output: None,
                        },
                    )
                } else {
                    ToolStep::Run
                };
                let AgentMessage { content, tool_results } = self.take_pending();
                let mut content = content;
                let is_new = add_call(&mut content, tool_use);
                self.pending_message = Some(AgentMessage { content, tool_results });
                Ok(EventOutcome::ToolCall { is_new, step })
            },
            CompletionEvent::ToolUseJsonParseError { id, tool_name, raw_input, json_parse_error } => {
                let mut answer = "Error parsing input JSON: ".to_owned();
                answer.append(json_parse_error.as_str());
                Ok(
                    EventOutcome::ToolResult(
                        ToolResult {
                            tool_use_id: id,
                            tool_name,
                            is_error: true,
                            content: ToolResultContent::Text(answer),
                            output: Some(Json::Text(raw_input)),
                        },
                    ),
                )
            },
            CompletionEvent::UsageUpdate { tokens } => {
                Ok(EventOutcome::TokenUsage(self.update_token_usage(tokens)))
            },
            CompletionEvent::RequestUsageUpdated { amount } => Ok(
                EventOutcome::RequestUsage { amount },
            ),
            CompletionEvent::StatusUpdate => Ok(EventOutcome::Nothing),
            CompletionEvent::ToolUseLimitReached => {
                self.tool_use_limit_reached = true;
                Ok(EventOutcome::Nothing)
            },
            CompletionEvent::Stop(reason) => match reason {
                StopReason::Refusal => Err(CompletionError::Refusal),
                StopReason::MaxTokens => Err(CompletionError::MaxTokens),
                StopReason::ToolUse => Ok(EventOutcome::Nothing),
                StopReason::EndTurn => Ok(EventOutcome::Nothing),
            },
        }
    }

    /// Keeps the result of a call with the message that is being written.
    pub fn insert_tool_result(&mut self, result: ToolResult)
        ensures
            final(self)@ == (thread::ThreadView {
                pending: Some(
                    message::MessageView::Agent {
                        content: pending_content(old(self)@),
                        tool_results: with_result(pending_results(old(self)@), result@),
                    },
                ),
                ..old(self)@
            }),
    {
        let AgentMessage { content, tool_results } = self.take_pending();
        let mut tool_results = tool_results;
        let ghost views = message::result_views(tool_results@);
        match find_result(&tool_results, result.tool_use_id.as_str()) {
            Some(i) => {
                tool_results.set(i, result);
            },
            None => {
                tool_results.push(result);
            },
        }
        assert(message::result_views(tool_results@) =~= with_result(views, result@));
        self.pending_message = Some(AgentMessage { content, tool_results });
    }
}

// ---------------------------------------------------------------------------
// Tools
// ---------------------------------------------------------------------------

/// What a tool that ran gave back: the text or image for the model, and the structured output.
#[derive(Debug)]
pub struct ToolOutput {
    pub llm_output: ToolResultContent,
    pub raw_output: Json,
}

/// The error of an image for a model that takes none.
pub const IMAGE_ERROR: &'static str =
    "Attempted to read an image, but this model doesn't support it.";

/// The result of a call that failed.
pub open spec fn failed_result(
    id: Seq<char>,
    name: Seq<char>,
    error: Seq<char>,
) -> message::ToolResultView {
    message::ToolResultView {
        tool_use_id: id,
        tool_name: name,
        is_error: true,
        content: message::ResultContentView::Text(error),
        output: Some(json::JsonView::Text(error)),
    }
}

/// The result of a call of a tool that ran.
pub fn tool_result_of(
    tool_use_id: String,
    tool_name: String,
    ran: Result<ToolOutput, String>,
    supports_images: bool,
) -> (r: ToolResult)
    ensures
        r@ == match ran {
            Ok(output) => if output.llm_output@ is Image && !supports_images {
                failed_result(tool_use_id@, tool_name@, IMAGE_ERROR@)
            } else {
                message::ToolResultView {
                    tool_use_id: tool_use_id@,
                    tool_name: tool_name@,
                    is_error: false,
                    content: output.llm_output@,
                    output: Some(output.raw_output@),
                }
            },
            Err(error) => failed_result(tool_use_id@, tool_name@, error@),
        },
{
    let error = match ran {
        Ok(output) => {
            let image = match &output.llm_output {
                ToolResultContent::Image(_) => true,
                ToolResultContent::Text(_) => false,
            };
            if !(image && !supports_images) {
                return ToolResult {
                    tool_use_id,
                    tool_name,
                    is_error: false,
                    content: output.llm_output,
                    output: Some(output.raw_output),
                };
            }
            IMAGE_ERROR.to_owned()
        },
        Err(error) => error,
    };
    ToolResult {
        tool_use_id,
        tool_name,
        is_error: true,
        content: ToolResultContent::Text(error.clone()),
        output: Some(Json::Text(error)),
    }
}

// ---------------------------------------------------------------------------
// Turns
// ---------------------------------------------------------------------------

/// Why a turn could not begin.
#[derive(Debug, Clone, Copy, PartialEq, Eq, Structural)]
pub enum TurnError {
    NoModel,
    NoProfile,
}

impl TurnError {
    /// The error in words.
    pub fn message(&self) -> (r: String)
        ensures
            r@ == match self {
                TurnError::NoModel => NO_MODEL_MESSAGE@,
                TurnError::NoProfile => "Profile not found"@,
            },
    {
        match self {
            TurnError::NoModel => NO_MODEL_MESSAGE.to_owned(),
            TurnError::NoProfile => "Profile not found".to_owned(),
        }
    }
}

/// What a request is made for.
#[derive(Debug, Clone, Copy, PartialEq, Eq, Structural)]
pub enum CompletionIntent {
    UserPrompt,
    ToolResults,
}

/// Where a turn stands: how many attempts of the current request failed, and what it is made for.
#[derive(Debug, Clone, Copy, PartialEq, Eq, Structural)]
pub struct TurnProgress {
    pub attempt: u8,
    pub intent: CompletionIntent,
}

/// How a turn goes on after a request.
#[derive(Debug, Clone, Copy, PartialEq, Eq, Structural)]
pub enum TurnStep {
    /// The request is made again, after the delay.
    Retry(RetryStatus),
    /// The turn ends with the failure.
    Fail,
    /// The turn ends: no more tools may be used.
    ToolUseLimitReached,
    /// The turn ends.
    EndTurn,
    /// The next request is made.
    Continue,
}

/// How a turn that is over is reported.
#[derive(Debug, Clone, Copy, PartialEq, Eq, Structural)]
pub enum TurnEnd {
    Done,
    Refused,
    OutOfTokens,
    Failed,
}

/// The thread when a turn has begun, at a time.
pub open spec fn begun(t: thread::ThreadView, now: i64) -> thread::ThreadView {
    thread::ThreadView {
        tool_use_limit_reached: false,
        summary: None,
        running_turn: true,
        ..cancelled(t, now)
    }
}

/// The position that the messages are cut at where the model refuses to answer.
pub open spec fn refusal_position(t: thread::ThreadView) -> nat {
    let messages = cancelled(t, t.updated_at_ms).messages;
    if messages.len() > 0 {
        (messages.len() - 1) as nat
    } else {
        0
    }
}

/// Whether the last message is one of the agent that has no tool results.
pub open spec fn ends_without_results(t: thread::ThreadView) -> bool {
    t.messages.len() > 0 && match t.messages.last() {
        message::MessageView::Agent { content, tool_results } => tool_results.len() == 0,
        _ => false,
    }
}

/// The thread when a turn has ended, at a time. Where the model refused to answer, the messages are cut.
pub open spec fn finished(
    t: thread::ThreadView,
    message_ix: usize,
    end: TurnEnd,
    now: i64,
) -> thread::ThreadView {
    let kept = flushed(t, now);
    thread::ThreadView {
        running_turn: false,
        messages: if end == TurnEnd::Refused && message_ix < kept.messages.len() {
            kept.messages.take(message_ix as int)
        } else {
            kept.messages
        },
        ..kept
    }
}

/// How a turn that ended with an error, or failed, is reported.
pub open spec fn end_of(error: Option<CompletionError>, failed: bool) -> TurnEnd {
    match error {
        Some(CompletionError::Refusal) => TurnEnd::Refused,
        Some(CompletionError::MaxTokens) => TurnEnd::OutOfTokens,
        None => if failed {
            TurnEnd::Failed
        } else {
            TurnEnd::Done
        },
    }
}

/// The thread cut before the first message that a user wrote under an identifier, after its turn was
/// cancelled, at a time.
pub open spec fn cut_before(t: thread::ThreadView, id: Seq<char>, now: i64) -> thread::ThreadView {
    let ended = cancelled(t, now);
    match thread::user_position(ended.messages, id) {
        Some(position) => thread::ThreadView {
            messages: ended.messages.take(position),
            usage: thread::usage_without(t.usage, ended.messages.skip(position)),
            summary: None,
            ..ended
        },
        None => ended,
    }
}

/// How a turn goes on after a request, and where it stands then.
pub open spec fn step_after(
    t: thread::ThreadView,
    progress: TurnProgress,
    failure: Option<CompletionFailure>,
    ran_tools: bool,
) -> (TurnStep, TurnProgress) {
    match failure {
        Some(error) => match retry::retry_after(t.mode, error, (progress.attempt + 1) as u8) {
            Some(status) => (
                TurnStep::Retry(status),
                TurnProgress { attempt: (progress.attempt + 1) as u8, intent: progress.intent },
            ),
            None => (TurnStep::Fail, progress),
        },
        None => if t.tool_use_limit_reached {
            (TurnStep::ToolUseLimitReached, progress)
        } else if !ran_tools {
            (TurnStep::EndTurn, progress)
        } else {
            (
                TurnStep::Continue,
                TurnProgress { attempt: 0, intent: CompletionIntent::ToolResults },
            )
        },
    }
}

/// The messages when a request is made again: where the agent had begun to answer without calling tools,
/// it is told to go on.
pub open spec fn told_to_go_on(t: thread::ThreadView) -> Seq<message::MessageView> {
    if ends_without_results(t) {
        t.messages.push(message::MessageView::Resume)
    } else {
        t.messages
    }
}

/// The thread with a message that asks something, of a user or to go on.
pub open spec fn asked(t: thread::ThreadView, m: message::MessageView) -> thread::ThreadView {
    thread::ThreadView { messages: t.messages.push(m), ..t }
}

impl Thread {
    /// Begins a turn, after ending the one that runs, and gives the position at which the messages
    /// are cut where the model refuses to answer.
    pub fn run_turn(&mut self, profile_exists: bool) -> (r: Result<usize, TurnError>)
        ensures
            match r {
                Ok(ix) => old(self)@.model is Some && profile_exists && ix == refusal_position(
                    old(self)@,
                ) && final(self)@ == begun(old(self)@, final(self)@.updated_at_ms),
                Err(e) => final(self)@ == cancelled(old(self)@, final(self)@.updated_at_ms) && e == (if old(self)@.model is None {
                    TurnError::NoModel
                } else {
                    TurnError::NoProfile
                }) && (old(self)@.model is None || !profile_exists),
            },
    {
        let _ = self.cancel();
        if self.model.is_none() {
            return Err(TurnError::NoModel);
        }
        if !profile_exists {
            return Err(TurnError::NoProfile);
        }
        assert(self@.messages.len() == self.messages@.len());
        let message_ix = self.messages.len().saturating_sub(1);
        self.tool_use_limit_reached = false;
        self.summary = None;
        self.running_turn = true;
        Ok(message_ix)
    }

    /// Adds a message of the user and begins a turn.
    pub fn send(
        &mut self,
        id: String,
        content: Vec<UserMessageContent>,
        profile_exists: bool,
    ) -> (r: Result<usize, TurnError>)
        ensures
            r is Ok ==> final(self)@ == begun(
                thread::ThreadView {
                    prompt_id: final(self)@.prompt_id,
                    ..asked(
                        old(self)@,
                        message::MessageView::User {
                            id: id@,
                            content: message::user_views(content@),
                        },
                    )
                },
                final(self)@.updated_at_ms,
            ),
            ({
                let asked = thread::ThreadView {
                    messages: old(self)@.messages.push(
                        message::MessageView::User {
                            id: id@,
                            content: message::user_views(content@),
                        },
                    ),
                    prompt_id: final(self)@.prompt_id,
                    ..old(self)@
                };
                match r {
                    Ok(ix) => old(self)@.model is Some && profile_exists && ix == refusal_position(
                        asked,
                    ) && final(self)@ == begun(asked, final(self)@.updated_at_ms) && ids::is_uuid(final(self)@.prompt_id),
                    Err(TurnError::NoModel) => old(self)@.model is None && final(self)@
                        == old(self)@,
                    Err(TurnError::NoProfile) => old(self)@.model is Some && !profile_exists
                        && final(self)@ == cancelled(asked, final(self)@.updated_at_ms) && ids::is_uuid(
                        final(self)@.prompt_id,
                    ),
                }
            }),
    {
        if self.model.is_none() {
            return Err(TurnError::NoModel);
        }
        self.advance_prompt_id();
        let ghost seen = self.messages@;
        let message = Message::User(UserMessage { id, content });
        self.messages.push(message);
        assert(message::message_views(self.messages@) =~= message::message_views(seen).push(
            message@,
        ));
        self.run_turn(profile_exists)
    }

    /// Goes on where the agent left off.
    pub fn resume(&mut self, profile_exists: bool) -> (r: Result<usize, TurnError>)
        ensures
            r is Ok ==> final(self)@ == begun(
                asked(old(self)@, message::MessageView::Resume),
                final(self)@.updated_at_ms,
            ),
            ({
                let asked = thread::ThreadView {
                    messages: old(self)@.messages.push(message::MessageView::Resume),
                    ..old(self)@
                };
                match r {
                    Ok(ix) => old(self)@.model is Some && profile_exists && ix == refusal_position(
                        asked,
                    ) && final(self)@ == begun(asked, final(self)@.updated_at_ms),
                    Err(e) => final(self)@ == cancelled(asked, final(self)@.updated_at_ms) && e == (if old(self)@.model is None {
                        TurnError::NoModel
                    } else {
                        TurnError::NoProfile
                    }) && (old(self)@.model is None || !profile_exists),
                }
            }),
    {
        let ghost seen = self.messages@;
        self.messages.push(Message::Resume);
        assert(message::message_views(self.messages@) =~= message::message_views(seen).push(
            message::MessageView::Resume,
        ));
        self.run_turn(profile_exists)
    }

    /// Decides how the turn goes on after a request: `failure` is how it failed, if it did, and
    /// `ran_tools` says whether the model called any. Says also whether a title is to be made now.
    pub fn finish_request(
        &mut self,
        progress: &mut TurnProgress,
        failure: Option<CompletionFailure>,
        ran_tools: bool,
    ) -> (r: (TurnStep, bool))
        requires
            old(progress).attempt <= retry::MAX_RETRY_ATTEMPTS,
        ensures
            final(self)@ == flushed(old(self)@, final(self)@.updated_at_ms),
            final(progress).attempt <= retry::MAX_RETRY_ATTEMPTS,
            r.1 == (old(self)@.title is None && !old(self)@.pending_title_generation),
            (r.0, *final(progress)) == step_after(old(self)@, *old(progress), failure, ran_tools),
            match failure {
                Some(error) => match retry::retry_after(
                    old(self)@.mode,
                    error,
                    (old(progress).attempt + 1) as u8,
                ) {
                    Some(status) => r.0 == TurnStep::Retry(status) && *final(progress)
                        == (TurnProgress {
                        attempt: (old(progress).attempt + 1) as u8,
                        intent: old(progress).intent,
                    }),
                    None => r.0 == TurnStep::Fail && *final(progress) == *old(progress),
                },
                None => if old(self)@.tool_use_limit_reached {
                    r.0 == TurnStep::ToolUseLimitReached && *final(progress) == *old(progress)
                } else if !ran_tools {
                    r.0 == TurnStep::EndTurn && *final(progress) == *old(progress)
                } else {
                    r.0 == TurnStep::Continue && *final(progress) == (TurnProgress {
                        attempt: 0,
                        intent: CompletionIntent::ToolResults,
                    })
                },
            },
    {
        self.flush_pending_message();
        let needs_title = self.title.is_none() && !self.pending_title_generation;
        let step = match failure {
            Some(error) => {
                let attempt: u8 = progress.attempt + 1;
                match retry::handle_completion_error(self.completion_mode, &error, attempt) {
                    Some(status) => {
                        proof {
                            retry::retries_are_limited(self@.mode, error, attempt);
                        }
                        progress.attempt = attempt;
                        TurnStep::Retry(status)
                    },
                    None => TurnStep::Fail,
                }
            },
            None => {
                if self.tool_use_limit_reached {
                    TurnStep::ToolUseLimitReached
                } else if !ran_tools {
                    TurnStep::EndTurn
                } else {
                    progress.intent = CompletionIntent::ToolResults;
                    progress.attempt = 0;
                    TurnStep::Continue
                }
            },
        };
        (step, needs_title)
    }

    /// Makes the thread ready for the request to be made again: where the agent had begun to answer
    /// without calling tools, it is told to go on.
    pub fn prepare_retry(&mut self, progress: &mut TurnProgress)
        ensures
            final(self)@.messages == told_to_go_on(old(self)@),
            if ends_without_results(old(self)@) {
                final(self)@ == (thread::ThreadView {
                    messages: old(self)@.messages.push(message::MessageView::Resume),
                    ..old(self)@
                }) && *final(progress) == (TurnProgress {
                    attempt: old(progress).attempt,
                    intent: CompletionIntent::UserPrompt,
                })
            } else {
                final(self)@ == old(self)@ && *final(progress) == *old(progress)
            },
    {
        let n: usize = self.messages.len();
        assert(self@.messages.len() == n);
        let mut resume = false;
        if n > 0 {
            assert(self@.messages.last() == self.messages@[n - 1]@);
            if let Message::Agent(m) = &self.messages[n - 1] {
                assert(message::result_views(m.tool_results@).len() == m.tool_results@.len());
                resume = m.tool_results.len() == 0;
            }
        }
        if resume {
            progress.intent = CompletionIntent::UserPrompt;
            let ghost seen = self.messages@;
            self.messages.push(Message::Resume);
            assert(message::message_views(self.messages@) =~= message::message_views(seen).push(
                message::MessageView::Resume,
            ));
        }
    }

    /// Ends a turn. Where the model refused to answer, what it was asked is taken back.
    pub fn finish_turn(&mut self, message_ix: usize, error: Option<CompletionError>, failed: bool) -> (r:
        TurnEnd)
        ensures
            r == end_of(error, failed),
            final(self)@ == finished(old(self)@, message_ix, r, final(self)@.updated_at_ms),
            r == (match error {
                Some(CompletionError::Refusal) => TurnEnd::Refused,
                Some(CompletionError::MaxTokens) => TurnEnd::OutOfTokens,
                None => if failed {
                    TurnEnd::Failed
                } else {
                    TurnEnd::Done
                },
            }),
            ({
                let kept = flushed(old(self)@, final(self)@.updated_at_ms);
                final(self)@ == (thread::ThreadView {
                    running_turn: false,
                    messages: if r == TurnEnd::Refused && message_ix < kept.messages.len() {
                        kept.messages.take(message_ix as int)
                    } else {
                        kept.messages
                    },
                    ..kept
                })
            }),
    {
        self.flush_pending_message();
        let ghost flushed_messages = self.messages@;
        let end = match error {
            Some(CompletionError::Refusal) => {
                self.messages.truncate(message_ix);
                assert(message::message_views(self.messages@) =~= if message_ix
                    < flushed_messages.len() {
                    message::message_views(flushed_messages).take(message_ix as int)
                } else {
                    message::message_views(flushed_messages)
                });
                TurnEnd::Refused
            },
            Some(CompletionError::MaxTokens) => TurnEnd::OutOfTokens,
            None => if failed {
                TurnEnd::Failed
            } else {
                TurnEnd::Done
            },
        };
        self.running_turn = false;
        end
    }

    /// Cuts the thread before a message of the user, after ending the turn that runs. Says whether
    /// there is such a message.
    pub fn truncate(&mut self, message_id: &str) -> (found: bool)
        ensures
            final(self)@ == cut_before(old(self)@, message_id@, final(self)@.updated_at_ms),
            ({
                let ended = cancelled(old(self)@, final(self)@.updated_at_ms);
                match thread::user_position(ended.messages, message_id@) {
                    Some(position) => found && final(self)@ == (thread::ThreadView {
                        messages: ended.messages.take(position),
                        usage: thread::usage_without(
                            old(self)@.usage,
                            ended.messages.skip(position),
                        ),
                        summary: None,
                        ..ended
                    }),
                    None => !found && final(self)@ == ended,
                }
            }),
    {
        let _ = self.cancel();
        let position = match find_user_message(&self.messages, message_id) {
            None => return false,
            Some(position) => position,
        };
        let ghost all = self.messages@;
        let dropped = self.messages.split_off(position);
        assert(message::message_views(self.messages@) =~= message::message_views(all).take(
            position as int,
        ));
        assert(message::message_views(dropped@) =~= message::message_views(all).skip(
            position as int,
        ));
        drop_usage(&mut self.request_token_usage, &dropped);
        self.summary = None;
        true
    }
}

fn find_user_message(messages: &Vec<Message>, id: &str) -> (r: Option<usize>)
    ensures
        match r {
            Some(i) => i < messages@.len() && thread::user_position(
                message::message_views(messages@),
                id@,
            ) == Some(i as int),
            None => thread::user_position(message::message_views(messages@), id@) is None,
        },
{
    let ghost all = message::message_views(messages@);
    let mut found: Option<usize> = None;
    for i in 0..messages.len()
        invariant
            all == message::message_views(messages@),
            match found {
                Some(k) => k < i && thread::user_position(all.take(i as int), id@) == Some(
                    k as int,
                ),
                None => thread::user_position(all.take(i as int), id@) is None,
            },
    {
        assert(all.take(i + 1).drop_last() =~= all.take(i as int));
        assert(all.take(i + 1).last() == messages@[i as int]@);
        if let Message::User(m) = &messages[i] {
            if found.is_none() && text::same(m.id.as_str(), id) {
                found = Some(i);
            }
        }
    }
    assert(all.take(all.len() as int) =~= all);
    found
}

fn drop_usage(usage: &mut Vec<(String, ModelUsage)>, dropped: &Vec<Message>)
    ensures
        thread::usage_views(final(usage)@) == thread::usage_without(
            thread::usage_views(old(usage)@),
            message::message_views(dropped@),
        ),
{
    let ghost all = thread::usage_views(usage@);
    let ghost gone = message::message_views(dropped@);
    let mut kept: Vec<(String, ModelUsage)> = Vec::new();
    assert(thread::usage_views(kept@) =~= thread::usage_without(all.take(0), gone));
    for i in 0..usage.len()
        invariant
            all == thread::usage_views(usage@),
            gone == message::message_views(dropped@),
            thread::usage_views(kept@) == thread::usage_without(all.take(i as int), gone),
    {
        assert(all.take(i + 1).drop_last() =~= all.take(i as int));
        assert(all.take(i + 1).last() == (usage@[i as int].0@, usage@[i as int].1));
        proof {
            thread::user_position_is_first(gone, usage@[i as int].0@);
        }
        if find_user_message(dropped, usage[i].0.as_str()).is_none() {
            assert(!thread::is_user_message_of(gone, usage@[i as int].0@));
            let ghost seen = kept@;
            let entry = (usage[i].0.clone(), usage[i].1);
            kept.push(entry);
            assert(thread::usage_views(kept@) =~= thread::usage_views(seen).push(
                (entry.0@, entry.1),
            ));
        } else {
            assert(thread::is_user_message_of(gone, usage@[i as int].0@));
        }
    }
    assert(all.take(all.len() as int) =~= all);
    *usage = kept;
}

} // verus!
