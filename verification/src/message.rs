//! The messages of a conversation: their Markdown form, and the form in which a model is asked.

use vstd::prelude::*;

use crate::json;
use crate::json::Json;
use crate::text;

verus! {

/// Who speaks in a request message.
#[derive(Debug, Clone, Copy, PartialEq, Eq, Structural)]
pub enum Role {
    User,
    Assistant,
    System,
}

/// The lines of a file that a mention covers, counted from zero; both ends belong to it.
#[derive(Debug, Clone, Copy, PartialEq, Eq, Structural)]
pub struct LineRange {
    pub start: u32,
    pub end: u32,
}

/// What a mention refers to.
#[allow(inconsistent_fields)]
#[derive(Debug)]
pub enum MentionUri {
    File { abs_path: String },
    PastedImage,
    Directory,
    Symbol { abs_path: String, line_range: LineRange },
    Selection { abs_path: Option<String>, line_range: LineRange },
    Thread,
    TextThread,
    Rule,
    Fetch { url: String },
}

/// An image that goes to a model.
#[derive(Debug)]
pub struct MessageImage {
    /// The bytes of the image, in base64.
    pub source: String,
    pub width: i32,
    pub height: i32,
}

/// One piece of what a user wrote. `link` is the Markdown link that stands for a mention.
#[derive(Debug)]
pub enum UserMessageContent {
    Text(String),
    Mention { uri: MentionUri, link: String, content: String },
    Image(MessageImage),
}

/// What a user wrote.
#[derive(Debug)]
pub struct UserMessage {
    pub id: String,
    pub content: Vec<UserMessageContent>,
}

/// A call of a tool that a model asks for.
#[derive(Debug)]
pub struct ToolUse {
    pub id: String,
    pub name: String,
    pub raw_input: String,
    pub input: Json,
    pub is_input_complete: bool,
}

/// What a tool gave back.
#[derive(Debug)]
pub enum ToolResultContent {
    Text(String),
    Image(MessageImage),
}

/// The result of one call of a tool.
#[derive(Debug)]
pub struct ToolResult {
    pub tool_use_id: String,
    pub tool_name: String,
    pub is_error: bool,
    pub content: ToolResultContent,
    pub output: Option<Json>,
}

/// One piece of what an agent wrote.
#[derive(Debug)]
pub enum AgentMessageContent {
    Text(String),
    Thinking { text: String, signature: Option<String> },
    RedactedThinking(String),
    ToolUse(ToolUse),
}

/// What an agent wrote, with the results of the tools it called, in the order in which they came.
#[derive(Debug)]
pub struct AgentMessage {
    pub content: Vec<AgentMessageContent>,
    pub tool_results: Vec<ToolResult>,
}

/// A message of a conversation.
#[derive(Debug)]
pub enum Message {
    User(UserMessage),
    Agent(AgentMessage),
    Resume,
}

/// One piece of a request message.
#[derive(Debug)]
pub enum MessageContent {
    Text(String),
    Thinking { text: String, signature: Option<String> },
    RedactedThinking(String),
    Image(MessageImage),
    ToolUse(ToolUse),
    ToolResult(ToolResult),
}

/// A message in the form in which a model is asked.
#[derive(Debug)]
pub struct RequestMessage {
    pub role: Role,
    pub content: Vec<MessageContent>,
    pub cache: bool,
}

// ---------------------------------------------------------------------------
// Views
// ---------------------------------------------------------------------------

#[allow(inconsistent_fields)]
pub ghost enum MentionView {
    File { abs_path: Seq<char> },
    PastedImage,
    Directory,
    Symbol { abs_path: Seq<char>, line_range: LineRange },
    Selection { abs_path: Option<Seq<char>>, line_range: LineRange },
    Thread,
    TextThread,
    Rule,
    Fetch { url: Seq<char> },
}

pub ghost struct ImageView {
    pub source: Seq<char>,
    pub width: i32,
    pub height: i32,
}

pub ghost enum UserContentView {
    Text(Seq<char>),
    Mention { uri: MentionView, link: Seq<char>, content: Seq<char> },
    Image(ImageView),
}

pub ghost struct ToolUseView {
    pub id: Seq<char>,
    pub name: Seq<char>,
    pub raw_input: Seq<char>,
    pub input: json::JsonView,
    pub is_input_complete: bool,
}

pub ghost enum ResultContentView {
    Text(Seq<char>),
    Image(ImageView),
}

pub ghost struct ToolResultView {
    pub tool_use_id: Seq<char>,
    pub tool_name: Seq<char>,
    pub is_error: bool,
    pub content: ResultContentView,
    pub output: Option<json::JsonView>,
}

pub ghost enum AgentContentView {
    Text(Seq<char>),
    Thinking { text: Seq<char>, signature: Option<Seq<char>> },
    RedactedThinking(Seq<char>),
    ToolUse(ToolUseView),
}

#[allow(inconsistent_fields)]
pub ghost enum MessageView {
    User { id: Seq<char>, content: Seq<UserContentView> },
    Agent { content: Seq<AgentContentView>, tool_results: Seq<ToolResultView> },
    Resume,
}

pub ghost enum ContentView {
    Text(Seq<char>),
    Thinking { text: Seq<char>, signature: Option<Seq<char>> },
    RedactedThinking(Seq<char>),
    Image(ImageView),
    ToolUse(ToolUseView),
    ToolResult(ToolResultView),
}

pub ghost struct RequestView {
    pub role: Role,
    pub content: Seq<ContentView>,
    pub cache: bool,
}

impl View for MentionUri {
    type V = MentionView;

    open spec fn view(&self) -> MentionView {
        match self {
            MentionUri::File { abs_path } => MentionView::File { abs_path: abs_path@ },
            MentionUri::PastedImage => MentionView::PastedImage,
            MentionUri::Directory => MentionView::Directory,
            MentionUri::Symbol { abs_path, line_range } => MentionView::Symbol {
                abs_path: abs_path@,
                line_range: *line_range,
            },
            MentionUri::Selection { abs_path, line_range } => MentionView::Selection {
                abs_path: text::opt_view(*abs_path),
                line_range: *line_range,
            },
            MentionUri::Thread => MentionView::Thread,
            MentionUri::TextThread => MentionView::TextThread,
            MentionUri::Rule => MentionView::Rule,
            MentionUri::Fetch { url } => MentionView::Fetch { url: url@ },
        }
    }
}

impl View for MessageImage {
    type V = ImageView;

    open spec fn view(&self) -> ImageView {
        ImageView { source: self.source@, width: self.width, height: self.height }
    }
}

impl View for UserMessageContent {
    type V = UserContentView;

    open spec fn view(&self) -> UserContentView {
        match self {
            UserMessageContent::Text(t) => UserContentView::Text(t@),
            UserMessageContent::Mention { uri, link, content } => UserContentView::Mention {
                uri: uri@,
                link: link@,
                content: content@,
            },
            UserMessageContent::Image(image) => UserContentView::Image(image@),
        }
    }
}

impl View for ToolUse {
    type V = ToolUseView;

    open spec fn view(&self) -> ToolUseView {
        ToolUseView {
            id: self.id@,
            name: self.name@,
            raw_input: self.raw_input@,
            input: self.input@,
            is_input_complete: self.is_input_complete,
        }
    }
}

impl View for ToolResultContent {
    type V = ResultContentView;

    open spec fn view(&self) -> ResultContentView {
        match self {
            ToolResultContent::Text(t) => ResultContentView::Text(t@),
            ToolResultContent::Image(image) => ResultContentView::Image(image@),
        }
    }
}

impl View for ToolResult {
    type V = ToolResultView;

    open spec fn view(&self) -> ToolResultView {
        ToolResultView {
            tool_use_id: self.tool_use_id@,
            tool_name: self.tool_name@,
            is_error: self.is_error,
            content: self.content@,
            output: match self.output {
                Some(j) => Some(j@),
                None => None,
            },
        }
    }
}

impl View for AgentMessageContent {
    type V = AgentContentView;

    open spec fn view(&self) -> AgentContentView {
        match self {
            AgentMessageContent::Text(t) => AgentContentView::Text(t@),
            AgentMessageContent::Thinking { text, signature } => AgentContentView::Thinking {
                text: text@,
                signature: text::opt_view(*signature),
            },
            AgentMessageContent::RedactedThinking(t) => AgentContentView::RedactedThinking(t@),
            AgentMessageContent::ToolUse(tool_use) => AgentContentView::ToolUse(tool_use@),
        }
    }
}

/// What pieces of a user message hold.
pub open spec fn user_views(content: Seq<UserMessageContent>) -> Seq<UserContentView> {
    content.map_values(|c: UserMessageContent| c@)
}

/// What pieces of an agent message hold.
pub open spec fn agent_views(content: Seq<AgentMessageContent>) -> Seq<AgentContentView> {
    content.map_values(|c: AgentMessageContent| c@)
}

/// What tool results hold.
pub open spec fn result_views(results: Seq<ToolResult>) -> Seq<ToolResultView> {
    results.map_values(|r: ToolResult| r@)
}

/// What messages hold.
pub open spec fn message_views(messages: Seq<Message>) -> Seq<MessageView> {
    messages.map_values(|m: Message| m@)
}

/// What pieces of a request message hold.
pub open spec fn content_views(content: Seq<MessageContent>) -> Seq<ContentView> {
    content.map_values(|c: MessageContent| c@)
}

/// What request messages hold.
pub open spec fn request_views(requests: Seq<RequestMessage>) -> Seq<RequestView> {
    requests.map_values(|r: RequestMessage| r@)
}

impl View for UserMessage {
    type V = MessageView;

    open spec fn view(&self) -> MessageView {
        MessageView::User { id: self.id@, content: user_views(self.content@) }
    }
}

impl View for AgentMessage {
    type V = MessageView;

    open spec fn view(&self) -> MessageView {
        MessageView::Agent {
            content: agent_views(self.content@),
            tool_results: result_views(self.tool_results@),
        }
    }
}

impl View for Message {
    type V = MessageView;

    open spec fn view(&self) -> MessageView {
        match self {
            Message::User(m) => m@,
            Message::Agent(m) => m@,
            Message::Resume => MessageView::Resume,
        }
    }
}

impl View for MessageContent {
    type V = ContentView;

    open spec fn view(&self) -> ContentView {
        match self {
            MessageContent::Text(t) => ContentView::Text(t@),
            MessageContent::Thinking { text, signature } => ContentView::Thinking {
                text: text@,
                signature: text::opt_view(*signature),
            },
            MessageContent::RedactedThinking(t) => ContentView::RedactedThinking(t@),
            MessageContent::Image(image) => ContentView::Image(image@),
            MessageContent::ToolUse(tool_use) => ContentView::ToolUse(tool_use@),
            MessageContent::ToolResult(result) => ContentView::ToolResult(result@),
        }
    }
}

impl View for RequestMessage {
    type V = RequestView;

    open spec fn view(&self) -> RequestView {
        RequestView { role: self.role, content: content_views(self.content@), cache: self.cache }
    }
}

// ---------------------------------------------------------------------------
// Copies
// ---------------------------------------------------------------------------

impl MentionUri {
    pub fn copy(&self) -> (r: MentionUri)
        ensures
            r@ == self@,
    {
        match self {
            MentionUri::File { abs_path } => MentionUri::File { abs_path: abs_path.clone() },
            MentionUri::PastedImage => MentionUri::PastedImage,
            MentionUri::Directory => MentionUri::Directory,
            MentionUri::Symbol { abs_path, line_range } => MentionUri::Symbol {
                abs_path: abs_path.clone(),
                line_range: *line_range,
            },
            MentionUri::Selection { abs_path, line_range } => MentionUri::Selection {
                abs_path: text::copy_option(abs_path),
                line_range: *line_range,
            },
            MentionUri::Thread => MentionUri::Thread,
            MentionUri::TextThread => MentionUri::TextThread,
            MentionUri::Rule => MentionUri::Rule,
            MentionUri::Fetch { url } => MentionUri::Fetch { url: url.clone() },
        }
    }
}

impl MessageImage {
    pub fn copy(&self) -> (r: MessageImage)
        ensures
            r@ == self@,
    {
        MessageImage { source: self.source.clone(), width: self.width, height: self.height }
    }
}

impl UserMessageContent {
    pub fn copy(&self) -> (r: UserMessageContent)
        ensures
            r@ == self@,
    {
        match self {
            UserMessageContent::Text(t) => UserMessageContent::Text(t.clone()),
            UserMessageContent::Mention { uri, link, content } => UserMessageContent::Mention {
                uri: uri.copy(),
                link: link.clone(),
                content: content.clone(),
            },
            UserMessageContent::Image(image) => UserMessageContent::Image(image.copy()),
        }
    }
}

impl ToolUse {
    pub fn copy(&self) -> (r: ToolUse)
        ensures
            r@ == self@,
    {
        ToolUse {
            id: self.id.clone(),
            name: self.name.clone(),
            raw_input: self.raw_input.clone(),
            input: self.input.copy(),
            is_input_complete: self.is_input_complete,
        }
    }
}

impl ToolResultContent {
    pub fn copy(&self) -> (r: ToolResultContent)
        ensures
            r@ == self@,
    {
        match self {
            ToolResultContent::Text(t) => ToolResultContent::Text(t.clone()),
            ToolResultContent::Image(image) => ToolResultContent::Image(image.copy()),
        }
    }
}

impl ToolResult {
    pub fn copy(&self) -> (r: ToolResult)
        ensures
            r@ == self@,
    {
        ToolResult {
            tool_use_id: self.tool_use_id.clone(),
            tool_name: self.tool_name.clone(),
            is_error: self.is_error,
            content: self.content.copy(),
            output: match &self.output {
                Some(j) => Some(j.copy()),
                None => None,
            },
        }
    }
}

impl AgentMessageContent {
    pub fn copy(&self) -> (r: AgentMessageContent)
        ensures
            r@ == self@,
    {
        match self {
            AgentMessageContent::Text(t) => AgentMessageContent::Text(t.clone()),
            AgentMessageContent::Thinking { text, signature } => AgentMessageContent::Thinking {
                text: text.clone(),
                signature: text::copy_option(signature),
            },
            AgentMessageContent::RedactedThinking(t) => AgentMessageContent::RedactedThinking(
                t.clone(),
            ),
            AgentMessageContent::ToolUse(tool_use) => AgentMessageContent::ToolUse(tool_use.copy()),
        }
    }
}

impl UserMessage {
    pub fn copy(&self) -> (r: UserMessage)
        ensures
            r@ == self@,
    {
        let mut content: Vec<UserMessageContent> = Vec::new();
        for i in 0..self.content.len()
            invariant
                content@.len() == i,
                forall|k: int| 0 <= k < i ==> (#[trigger] content@[k])@ == self.content@[k]@,
        {
            content.push(self.content[i].copy());
        }
        assert(user_views(content@) =~= user_views(self.content@));
        UserMessage { id: self.id.clone(), content }
    }
}

impl AgentMessage {
    pub fn copy(&self) -> (r: AgentMessage)
        ensures
            r@ == self@,
    {
        let mut content: Vec<AgentMessageContent> = Vec::new();
        for i in 0..self.content.len()
            invariant
                content@.len() == i,
                forall|k: int| 0 <= k < i ==> (#[trigger] content@[k])@ == self.content@[k]@,
        {
            content.push(self.content[i].copy());
        }
        let mut tool_results: Vec<ToolResult> = Vec::new();
        for i in 0..self.tool_results.len()
            invariant
                tool_results@.len() == i,
                forall|k: int|
                    0 <= k < i ==> (#[trigger] tool_results@[k])@ == self.tool_results@[k]@,
        {
            tool_results.push(self.tool_results[i].copy());
        }
        assert(agent_views(content@) =~= agent_views(self.content@));
        assert(result_views(tool_results@) =~= result_views(self.tool_results@));
        AgentMessage { content, tool_results }
    }
}

impl Message {
    pub fn copy(&self) -> (r: Message)
        ensures
            r@ == self@,
    {
        match self {
            Message::User(m) => Message::User(m.copy()),
            Message::Agent(m) => Message::Agent(m.copy()),
            Message::Resume => Message::Resume,
        }
    }
}

impl MessageContent {
    pub fn copy(&self) -> (r: MessageContent)
        ensures
            r@ == self@,
    {
        match self {
            MessageContent::Text(t) => MessageContent::Text(t.clone()),
            MessageContent::Thinking { text, signature } => MessageContent::Thinking {
                text: text.clone(),
                signature: text::copy_option(signature),
            },
            MessageContent::RedactedThinking(t) => MessageContent::RedactedThinking(t.clone()),
            MessageContent::Image(image) => MessageContent::Image(image.copy()),
            MessageContent::ToolUse(tool_use) => MessageContent::ToolUse(tool_use.copy()),
            MessageContent::ToolResult(result) => MessageContent::ToolResult(result.copy()),
        }
    }
}

impl RequestMessage {
    pub fn copy(&self) -> (r: RequestMessage)
        ensures
            r@ == self@,
    {
        let mut content: Vec<MessageContent> = Vec::new();
        for i in 0..self.content.len()
            invariant
                content@.len() == i,
                forall|k: int| 0 <= k < i ==> (#[trigger] content@[k])@ == self.content@[k]@,
        {
            content.push(self.content[i].copy());
        }
        assert(content_views(content@) =~= content_views(self.content@));
        RequestMessage { role: self.role, content, cache: self.cache }
    }
}

/// A copy of the requests from `from` up to `to`.
pub fn copy_requests(requests: &Vec<RequestMessage>, from: usize, to: usize) -> (r: Vec<
    RequestMessage,
>)
    requires
        from <= to <= requests@.len(),
    ensures
        request_views(r@) == request_views(requests@).subrange(from as int, to as int),
{
    let mut out: Vec<RequestMessage> = Vec::new();
    for i in from..to
        invariant
            from <= to <= requests@.len(),
            out@.len() == i - from,
            forall|k: int| 0 <= k < i - from ==> (#[trigger] out@[k])@ == requests@[from + k]@,
    {
        out.push(requests[i].copy());
    }
    assert(request_views(out@) =~= request_views(requests@).subrange(from as int, to as int));
    out
}

/// A copy of the messages from `from` up to `to`.
pub fn copy_messages(messages: &Vec<Message>, from: usize, to: usize) -> (r: Vec<Message>)
    requires
        from <= to <= messages@.len(),
    ensures
        message_views(r@) == message_views(messages@).subrange(from as int, to as int),
{
    let mut out: Vec<Message> = Vec::new();
    for i in from..to
        invariant
            from <= to <= messages@.len(),
            out@.len() == i - from,
            forall|k: int| 0 <= k < i - from ==> (#[trigger] out@[k])@ == messages@[from + k]@,
    {
        out.push(messages[i].copy());
    }
    assert(message_views(out@) =~= message_views(messages@).subrange(from as int, to as int));
    out
}

} // verus!
