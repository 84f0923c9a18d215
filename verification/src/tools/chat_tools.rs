//! The tools over the stored chats: what each asks of the chat store, and how it shows the answer.

use vstd::prelude::*;

use crate::json;
use crate::json::Json;
use crate::text;
use crate::tools;
use crate::tools::ToolKind;

verus! {

/// How stored chats are searched.
#[derive(Debug, Clone, Copy, PartialEq, Eq, Structural)]
pub enum RetrievalMode {
    Bm25,
    Embedding,
    Hybrid,
}

/// The name of a way to search.
pub open spec fn mode_name(mode: RetrievalMode) -> Seq<char> {
    match mode {
        RetrievalMode::Bm25 => "bm25"@,
        RetrievalMode::Embedding => "embedding"@,
        RetrievalMode::Hybrid => "hybrid"@,
    }
}

/// The way to search with a name; every other name stands for the hybrid one.
pub open spec fn mode_named(name: Option<Seq<char>>) -> RetrievalMode {
    match name {
        Some(n) => if n == "bm25"@ {
            RetrievalMode::Bm25
        } else if n == "embedding"@ {
            RetrievalMode::Embedding
        } else {
            RetrievalMode::Hybrid
        },
        None => RetrievalMode::Hybrid,
    }
}

/// The way to search that was asked for, or else the hybrid one.
pub open spec fn mode_or_hybrid(mode: Option<RetrievalMode>) -> RetrievalMode {
    match mode {
        Some(m) => m,
        None => RetrievalMode::Hybrid,
    }
}

/// Who wrote a stored message.
#[derive(Debug, Clone, Copy, PartialEq, Eq, Structural)]
pub enum MessageRole {
    User,
    Assistant,
    System,
}

/// The name of who wrote a stored message; nobody stands for the user.
pub open spec fn author_name(role: Option<MessageRole>) -> Seq<char> {
    match role {
        Some(MessageRole::Assistant) => "assistant"@,
        Some(MessageRole::System) => "system"@,
        _ => "user"@,
    }
}

fn mode_name_text(mode: RetrievalMode) -> (r: String)
    ensures
        r@ == mode_name(mode),
{
    match mode {
        RetrievalMode::Bm25 => "bm25".to_owned(),
        RetrievalMode::Embedding => "embedding".to_owned(),
        RetrievalMode::Hybrid => "hybrid".to_owned(),
    }
}

/// The way to search with a name.
pub fn retrieval_mode(name: &Option<String>) -> (r: RetrievalMode)
    ensures
        r == mode_named(text::opt_view(*name)),
{
    match name {
        Some(n) => {
            if text::same(n.as_str(), "bm25") {
                RetrievalMode::Bm25
            } else if text::same(n.as_str(), "embedding") {
                RetrievalMode::Embedding
            } else {
                RetrievalMode::Hybrid
            }
        },
        None => RetrievalMode::Hybrid,
    }
}

// ---------------------------------------------------------------------------
// Fields
// ---------------------------------------------------------------------------

/// An optional number as a JSON value.
pub open spec fn opt_number_view(n: Option<usize>) -> json::JsonView {
    match n {
        Some(n) => json::JsonView::Unsigned(n as u64),
        None => json::JsonView::Null,
    }
}

/// An optional flag as a JSON value.
pub open spec fn opt_bool_view(b: Option<bool>) -> json::JsonView {
    match b {
        Some(b) => json::JsonView::Bool(b),
        None => json::JsonView::Null,
    }
}

/// An optional number that is not whole, as it is written.
pub open spec fn opt_decimal_view(d: Option<Seq<char>>) -> json::JsonView {
    match d {
        Some(d) => json::JsonView::Decimal(d),
        None => json::JsonView::Null,
    }
}

/// What an optional list of texts holds.
pub open spec fn opt_list(l: Option<Vec<String>>) -> Option<Seq<Seq<char>>> {
    match l {
        Some(l) => Some(text::views(l@)),
        None => None,
    }
}

/// An optional list of texts as a JSON value.
pub open spec fn opt_texts_view(l: Option<Seq<Seq<char>>>) -> json::JsonView {
    match l {
        Some(l) => json::texts_view(l),
        None => json::JsonView::Null,
    }
}

fn opt_number(n: Option<usize>) -> (r: Json)
    ensures
        r@ == opt_number_view(n),
{
    match n {
        Some(n) => Json::Unsigned(n as u64),
        None => Json::Null,
    }
}

fn opt_bool(b: Option<bool>) -> (r: Json)
    ensures
        r@ == opt_bool_view(b),
{
    match b {
        Some(b) => Json::Bool(b),
        None => Json::Null,
    }
}

fn opt_decimal(d: &Option<String>) -> (r: Json)
    ensures
        r@ == opt_decimal_view(text::opt_view(*d)),
{
    match d {
        Some(d) => Json::Decimal(d.clone()),
        None => Json::Null,
    }
}

fn opt_texts(l: &Option<Vec<String>>) -> (r: Json)
    ensures
        r@ == opt_texts_view(opt_list(*l)),
{
    match l {
        Some(l) => json::texts_value(l),
        None => Json::Null,
    }
}

// ---------------------------------------------------------------------------
// Answers
// ---------------------------------------------------------------------------

/// The answer of the chat store, or an error where it is not JSON.
pub open spec fn answer_value(raw: Seq<char>, error: Seq<char>) -> json::JsonView {
    match json::parsed_json(raw) {
        Ok(j) => j,
        Err(_) => json::JsonView::Object(
            seq![("ok"@, json::JsonView::Bool(false)), ("error"@, json::JsonView::Text(error))],
        ),
    }
}

/// The answer of the chat store under a heading.
pub open spec fn shown_answer(heading: Seq<char>, raw: Seq<char>, error: Seq<char>) -> Seq<char> {
    tools::json_section(heading, answer_value(raw, error))
}

/// Shows what was read from the answer of the chat store under a heading.
pub fn show_value(heading: &str, value: Result<Json, String>, error: &str) -> (r: String)
    ensures
        r@ == tools::json_section(
            heading@,
            match value {
                Ok(j) => j@,
                Err(_) => json::JsonView::Object(
                    seq![
                        ("ok"@, json::JsonView::Bool(false)),
                        ("error"@, json::JsonView::Text(error@)),
                    ],
                ),
            },
        ),
{
    broadcast use json::object_view;

    let shown = match value {
        Ok(j) => j,
        Err(_) => {
            let mut fields: Vec<(String, Json)> = Vec::new();
            fields.push(("ok".to_owned(), Json::Bool(false)));
            fields.push(("error".to_owned(), Json::Text(error.to_owned())));
            assert(json::fields_view(fields@) =~= seq![
                ("ok"@, json::JsonView::Bool(false)),
                ("error"@, json::JsonView::Text(error@)),
            ]);
            Json::Object(fields)
        },
    };
    tools::json_section_text(heading, &shown)
}

fn show_answer(heading: &str, raw: &str, error: &str) -> (r: String)
    ensures
        r@ == shown_answer(heading@, raw@, error@),
{
    show_value(heading, json::from_str(raw), error)
}

/// The error of tools where no chat store is there.
pub fn adapter_missing() -> (r: String)
    ensures
        r@
            == "Chat history adapter not installed. The chat history system may not be initialized."@,
{
    "Chat history adapter not installed. The chat history system may not be initialized.".to_owned()
}

// ---------------------------------------------------------------------------
// chat_answer
// ---------------------------------------------------------------------------

/// What is asked. `alpha` is a number, as it is written.
#[derive(Debug)]
pub struct ChatAnswerInput {
    pub question: String,
    pub project_id: Option<String>,
    pub chat_id: Option<String>,
    pub top_k: Option<usize>,
    pub mode: Option<String>,
    pub alpha: Option<String>,
}

/// What the chat store is asked.
pub open spec fn chat_answer_request(input: ChatAnswerInput) -> json::JsonView {
    json::JsonView::Object(
        seq![
            ("question"@, json::JsonView::Text(input.question@)),
            ("project_id"@, json::opt_text_view(text::opt_view(input.project_id))),
            ("chat_id"@, json::opt_text_view(text::opt_view(input.chat_id))),
            ("top_k"@, opt_number_view(input.top_k)),
            ("mode"@, json::JsonView::Text(mode_name(mode_named(text::opt_view(input.mode))))),
            ("alpha"@, opt_decimal_view(text::opt_view(input.alpha))),
        ],
    )
}

/// Answers a question from the stored chats.
#[derive(Debug, Clone, Copy, PartialEq, Eq, Structural)]
pub struct ChatAnswerTool;

impl ChatAnswerTool {
    pub fn new() -> (r: ChatAnswerTool)
        ensures
            r == ChatAnswerTool,
    {
        ChatAnswerTool
    }

    /// The name of the tool.
    pub fn name() -> (r: &'static str)
        ensures
            r@ == "chat_answer"@,
    {
        "chat_answer"
    }

    /// What the tool is for.
    pub fn description(&self) -> (r: String)
        ensures
            r@
                == "Answer questions by searching your chat history and synthesizing information with citations. Use this to recall past solutions, decisions, or discussions. Returns an answer with references to the specific conversations where the information was found."@,
    {
        "Answer questions by searching your chat history and synthesizing information with citations. Use this to recall past solutions, decisions, or discussions. Returns an answer with references to the specific conversations where the information was found.".to_owned()
    }

    /// What the tool does to its subject.
    pub fn kind() -> (r: ToolKind)
        ensures
            r == ToolKind::Read,
    {
        ToolKind::Read
    }

    /// The title of a call of the tool. The input is missing where it could not be read.
    pub fn initial_title(&self, input: &Option<ChatAnswerInput>) -> (r: String)
        ensures
            r@ == match input {
                Some(i) => "Answer: "@ + i.question@,
                None => "Answer from chat history"@,
            },
    {
        match input {
            Some(i) => {
                let mut out = "Answer: ".to_owned();
                out.append(i.question.as_str());
                out
            },
            None => "Answer from chat history".to_owned(),
        }
    }

    /// What the chat store is asked, as JSON.
    pub fn payload(input: &ChatAnswerInput) -> (r: String)
        ensures
            r@ == json::compact_json(chat_answer_request(*input)),
    {
        json::to_string(&Self::request(input))
    }

    /// What the chat store is asked.
    pub fn request(input: &ChatAnswerInput) -> (r: Json)
        ensures
            r@ == chat_answer_request(*input),
    {
        broadcast use json::object_view;

        let mut fields: Vec<(String, Json)> = Vec::new();
        fields.push(("question".to_owned(), Json::Text(input.question.clone())));
        fields.push(("project_id".to_owned(), json::opt_text_value(&input.project_id)));
        fields.push(("chat_id".to_owned(), json::opt_text_value(&input.chat_id)));
        fields.push(("top_k".to_owned(), opt_number(input.top_k)));
        fields.push(("mode".to_owned(), Json::Text(mode_name_text(retrieval_mode(&input.mode)))));
        fields.push(("alpha".to_owned(), opt_decimal(&input.alpha)));
        assert(json::fields_view(fields@) =~= chat_answer_request(*input)->Object_0);
        Json::Object(fields)
    }

    /// Shows the answer of the chat store.
    pub fn render(raw_result: &str) -> (r: String)
        ensures
            r@ == shown_answer("# Answer from Chat History"@, raw_result@, "Failed to parse answer results"@),
    {
        show_answer("# Answer from Chat History", raw_result, "Failed to parse answer results")
    }
}

// ---------------------------------------------------------------------------
// chat_get
// ---------------------------------------------------------------------------

/// The chat that is shown.
#[derive(Debug)]
pub struct ChatGetInput {
    pub chat_id: String,
}

/// What the chat store is asked.
pub open spec fn chat_get_request(input: ChatGetInput) -> json::JsonView {
    json::JsonView::Object(
        seq![
            ("chat_id"@, json::JsonView::Text(input.chat_id@)),
        ],
    )
}

/// Shows a stored chat.
#[derive(Debug, Clone, Copy, PartialEq, Eq, Structural)]
pub struct ChatGetTool;

impl ChatGetTool {
    pub fn new() -> (r: ChatGetTool)
        ensures
            r == ChatGetTool,
    {
        ChatGetTool
    }

    /// The name of the tool.
    pub fn name() -> (r: &'static str)
        ensures
            r@ == "chat_get"@,
    {
        "chat_get"
    }

    /// What the tool is for.
    pub fn description(&self) -> (r: String)
        ensures
            r@
                == "Retrieve a specific chat conversation with its complete message history and metadata. Use this to review past discussions in detail. Provide a chat_id to get the full conversation including all messages, timestamps, and associated information."@,
    {
        "Retrieve a specific chat conversation with its complete message history and metadata. Use this to review past discussions in detail. Provide a chat_id to get the full conversation including all messages, timestamps, and associated information.".to_owned()
    }

    /// What the tool does to its subject.
    pub fn kind() -> (r: ToolKind)
        ensures
            r == ToolKind::Read,
    {
        ToolKind::Read
    }

    /// The title of a call of the tool. The input is missing where it could not be read.
    pub fn initial_title(&self, input: &Option<ChatGetInput>) -> (r: String)
        ensures
            r@ == match input {
                Some(i) => "Get chat "@ + i.chat_id@,
                None => "Get chat"@,
            },
    {
        match input {
            Some(i) => {
                let mut out = "Get chat ".to_owned();
                out.append(i.chat_id.as_str());
                out
            },
            None => "Get chat".to_owned(),
        }
    }

    /// What the chat store is asked, as JSON.
    pub fn payload(input: &ChatGetInput) -> (r: String)
        ensures
            r@ == json::compact_json(chat_get_request(*input)),
    {
        json::to_string(&Self::request(input))
    }

    /// What the chat store is asked.
    pub fn request(input: &ChatGetInput) -> (r: Json)
        ensures
            r@ == chat_get_request(*input),
    {
        broadcast use json::object_view;

        let mut fields: Vec<(String, Json)> = Vec::new();
        fields.push(("chat_id".to_owned(), Json::Text(input.chat_id.clone())));
        assert(json::fields_view(fields@) =~= chat_get_request(*input)->Object_0);
        Json::Object(fields)
    }

    /// Shows the answer of the chat store.
    pub fn render(raw_result: &str) -> (r: String)
        ensures
            r@ == shown_answer("# Chat Details"@, raw_result@, "Failed to parse chat data"@),
    {
        show_answer("# Chat Details", raw_result, "Failed to parse chat data")
    }
}

// ---------------------------------------------------------------------------
// chat_list
// ---------------------------------------------------------------------------

/// The chats that are listed.
#[derive(Debug)]
pub struct ChatListInput {
    pub project_id: Option<String>,
    pub limit: Option<usize>,
    pub offset: Option<usize>,
}

/// What the chat store is asked.
pub open spec fn chat_list_request(input: ChatListInput) -> json::JsonView {
    json::JsonView::Object(
        seq![
            ("project_id"@, json::opt_text_view(text::opt_view(input.project_id))),
            ("limit"@, opt_number_view(input.limit)),
            ("offset"@, opt_number_view(input.offset)),
        ],
    )
}

/// Lists stored chats.
#[derive(Debug, Clone, Copy, PartialEq, Eq, Structural)]
pub struct ChatListTool;

impl ChatListTool {
    pub fn new() -> (r: ChatListTool)
        ensures
            r == ChatListTool,
    {
        ChatListTool
    }

    /// The name of the tool.
    pub fn name() -> (r: &'static str)
        ensures
            r@ == "chat_list"@,
    {
        "chat_list"
    }

    /// What the tool is for.
    pub fn description(&self) -> (r: String)
        ensures
            r@
                == "List your stored chat conversations with metadata, titles, and timestamps. Use this to browse your conversation history, find specific chats, or see what information is available. Supports filtering by project and pagination."@,
    {
        "List your stored chat conversations with metadata, titles, and timestamps. Use this to browse your conversation history, find specific chats, or see what information is available. Supports filtering by project and pagination.".to_owned()
    }

    /// What the tool does to its subject.
    pub fn kind() -> (r: ToolKind)
        ensures
            r == ToolKind::Read,
    {
        ToolKind::Read
    }

    /// The title of a call of the tool. The input is missing where it could not be read.
    pub fn initial_title(&self, input: &Option<ChatListInput>) -> (r: String)
        ensures
            r@ == match input {
                Some(i) => match i.project_id {
                    Some(t) => "List chats in "@ + t@,
                    None => "List all chats"@,
                },
                None => "List chats"@,
            },
    {
        match input {
            Some(i) => match &i.project_id {
                Some(t) => {
                    let mut out = "List chats in ".to_owned();
                    out.append(t.as_str());
                    out
                },
                None => "List all chats".to_owned(),
            },
            None => "List chats".to_owned(),
        }
    }

    /// What the chat store is asked, as JSON.
    pub fn payload(input: &ChatListInput) -> (r: String)
        ensures
            r@ == json::compact_json(chat_list_request(*input)),
    {
        json::to_string(&Self::request(input))
    }

    /// What the chat store is asked.
    pub fn request(input: &ChatListInput) -> (r: Json)
        ensures
            r@ == chat_list_request(*input),
    {
        broadcast use json::object_view;

        let mut fields: Vec<(String, Json)> = Vec::new();
        fields.push(("project_id".to_owned(), json::opt_text_value(&input.project_id)));
        fields.push(("limit".to_owned(), opt_number(input.limit)));
        fields.push(("offset".to_owned(), opt_number(input.offset)));
        assert(json::fields_view(fields@) =~= chat_list_request(*input)->Object_0);
        Json::Object(fields)
    }

    /// Shows the answer of the chat store.
    pub fn render(raw_result: &str) -> (r: String)
        ensures
            r@ == shown_answer("# Chat List"@, raw_result@, "Failed to parse chat list"@),
    {
        show_answer("# Chat List", raw_result, "Failed to parse chat list")
    }
}

// ---------------------------------------------------------------------------
// chat_search
// ---------------------------------------------------------------------------

/// What is searched for. `alpha` is a number, as it is written.
#[derive(Debug)]
pub struct ChatSearchInput {
    pub query: String,
    pub project_id: Option<String>,
    pub chat_id: Option<String>,
    pub top_k: Option<usize>,
    pub mode: Option<String>,
    pub alpha: Option<String>,
}

/// What the chat store is asked.
pub open spec fn chat_search_request(input: ChatSearchInput) -> json::JsonView {
    json::JsonView::Object(
        seq![
            ("query"@, json::JsonView::Text(input.query@)),
            ("project_id"@, json::opt_text_view(text::opt_view(input.project_id))),
            ("chat_id"@, json::opt_text_view(text::opt_view(input.chat_id))),
            ("top_k"@, opt_number_view(input.top_k)),
            ("mode"@, json::JsonView::Text(mode_name(mode_named(text::opt_view(input.mode))))),
            ("alpha"@, opt_decimal_view(text::opt_view(input.alpha))),
        ],
    )
}

/// Searches stored chats.
#[derive(Debug, Clone, Copy, PartialEq, Eq, Structural)]
pub struct ChatSearchTool;

impl ChatSearchTool {
    pub fn new() -> (r: ChatSearchTool)
        ensures
            r == ChatSearchTool,
    {
        ChatSearchTool
    }

    /// The name of the tool.
    pub fn name() -> (r: &'static str)
        ensures
            r@ == "chat_search"@,
    {
        "chat_search"
    }

    /// What the tool is for.
    pub fn description(&self) -> (r: String)
        ensures
            r@
                == "Search through your chat history using keywords and semantic similarity. Finds relevant messages across all conversations. Use this to locate past discussions, solutions, or context about specific topics."@,
    {
        "Search through your chat history using keywords and semantic similarity. Finds relevant messages across all conversations. Use this to locate past discussions, solutions, or context about specific topics.".to_owned()
    }

    /// What the tool does to its subject.
    pub fn kind() -> (r: ToolKind)
        ensures
            r == ToolKind::Read,
    {
        ToolKind::Read
    }

    /// The title of a call of the tool. The input is missing where it could not be read.
    pub fn initial_title(&self, input: &Option<ChatSearchInput>) -> (r: String)
        ensures
            r@ == match input {
                Some(i) => "Search chats: "@ + i.query@,
                None => "Search chats"@,
            },
    {
        match input {
            Some(i) => {
                let mut out = "Search chats: ".to_owned();
                out.append(i.query.as_str());
                out
            },
            None => "Search chats".to_owned(),
        }
    }

    /// What the chat store is asked, as JSON.
    pub fn payload(input: &ChatSearchInput) -> (r: String)
        ensures
            r@ == json::compact_json(chat_search_request(*input)),
    {
        json::to_string(&Self::request(input))
    }

    /// What the chat store is asked.
    pub fn request(input: &ChatSearchInput) -> (r: Json)
        ensures
            r@ == chat_search_request(*input),
    {
        broadcast use json::object_view;

        let mut fields: Vec<(String, Json)> = Vec::new();
        fields.push(("query".to_owned(), Json::Text(input.query.clone())));
        fields.push(("project_id".to_owned(), json::opt_text_value(&input.project_id)));
        fields.push(("chat_id".to_owned(), json::opt_text_value(&input.chat_id)));
        fields.push(("top_k".to_owned(), opt_number(input.top_k)));
        fields.push(("mode".to_owned(), Json::Text(mode_name_text(retrieval_mode(&input.mode)))));
        fields.push(("alpha".to_owned(), opt_decimal(&input.alpha)));
        assert(json::fields_view(fields@) =~= chat_search_request(*input)->Object_0);
        Json::Object(fields)
    }

    /// Shows the answer of the chat store.
    pub fn render(raw_result: &str) -> (r: String)
        ensures
            r@ == shown_answer("# Chat Search Results"@, raw_result@, "Failed to parse search results"@),
    {
        show_answer("# Chat Search Results", raw_result, "Failed to parse search results")
    }
}

// ---------------------------------------------------------------------------
// chat_similar
// ---------------------------------------------------------------------------

/// The chat that others are compared with; without one, the current one.
#[derive(Debug)]
pub struct ChatSimilarInput {
    pub chat_id: Option<String>,
    pub n: Option<usize>,
    pub project_scoped: Option<bool>,
}

/// What the chat store is asked.
pub open spec fn chat_similar_request(input: ChatSimilarInput) -> json::JsonView {
    json::JsonView::Object(
        seq![
            ("chat_id"@, json::opt_text_view(text::opt_view(input.chat_id))),
            ("n"@, opt_number_view(input.n)),
            ("project_scoped"@, opt_bool_view(input.project_scoped)),
        ],
    )
}

/// Finds stored chats that are like another.
#[derive(Debug, Clone, Copy, PartialEq, Eq, Structural)]
pub struct ChatSimilarTool;

impl ChatSimilarTool {
    pub fn new() -> (r: ChatSimilarTool)
        ensures
            r == ChatSimilarTool,
    {
        ChatSimilarTool
    }

    /// The name of the tool.
    pub fn name() -> (r: &'static str)
        ensures
            r@ == "chat_similar"@,
    {
        "chat_similar"
    }

    /// What the tool is for.
    pub fn description(&self) -> (r: String)
        ensures
            r@
                == "Find conversations semantically similar to the current chat or a specified conversation. Discovers related discussions and past solutions to similar problems. By default finds chats similar to your current conversation - no chat_id needed."@,
    {
        "Find conversations semantically similar to the current chat or a specified conversation. Discovers related discussions and past solutions to similar problems. By default finds chats similar to your current conversation - no chat_id needed.".to_owned()
    }

    /// What the tool does to its subject.
    pub fn kind() -> (r: ToolKind)
        ensures
            r == ToolKind::Read,
    {
        ToolKind::Read
    }

    /// The title of a call of the tool. The input is missing where it could not be read.
    pub fn initial_title(&self, input: &Option<ChatSimilarInput>) -> (r: String)
        ensures
            r@ == match input {
                Some(i) => match i.chat_id {
                    Some(t) => "Similar chats to "@ + t@,
                    None => "Similar chats to current conversation"@,
                },
                None => "Similar chats"@,
            },
    {
        match input {
            Some(i) => match &i.chat_id {
                Some(t) => {
                    let mut out = "Similar chats to ".to_owned();
                    out.append(t.as_str());
                    out
                },
                None => "Similar chats to current conversation".to_owned(),
            },
            None => "Similar chats".to_owned(),
        }
    }

    /// What the chat store is asked, as JSON.
    pub fn payload(input: &ChatSimilarInput) -> (r: String)
        ensures
            r@ == json::compact_json(chat_similar_request(*input)),
    {
        json::to_string(&Self::request(input))
    }

    /// What the chat store is asked.
    pub fn request(input: &ChatSimilarInput) -> (r: Json)
        ensures
            r@ == chat_similar_request(*input),
    {
        broadcast use json::object_view;

        let mut fields: Vec<(String, Json)> = Vec::new();
        fields.push(("chat_id".to_owned(), json::opt_text_value(&input.chat_id)));
        fields.push(("n".to_owned(), opt_number(input.n)));
        fields.push(("project_scoped".to_owned(), opt_bool(input.project_scoped)));
        assert(json::fields_view(fields@) =~= chat_similar_request(*input)->Object_0);
        Json::Object(fields)
    }

    /// Shows the answer of the chat store.
    pub fn render(raw_result: &str) -> (r: String)
        ensures
            r@ == shown_answer("# Similar Conversations"@, raw_result@, "Failed to parse similar chats results"@),
    {
        show_answer("# Similar Conversations", raw_result, "Failed to parse similar chats results")
    }
}

// ---------------------------------------------------------------------------
// chat_update
// ---------------------------------------------------------------------------

/// What is changed.
#[derive(Debug)]
pub struct ChatUpdateInput {
    pub chat_id: String,
    pub title: Option<String>,
    pub summary: Option<String>,
    pub tags_add: Option<Vec<String>>,
    pub tags_remove: Option<Vec<String>>,
    pub archived: Option<bool>,
    pub pinned: Option<bool>,
}

/// What the chat store is asked.
pub open spec fn chat_update_request(input: ChatUpdateInput) -> json::JsonView {
    json::JsonView::Object(
        seq![
            ("chat_id"@, json::JsonView::Text(input.chat_id@)),
            ("title"@, json::opt_text_view(text::opt_view(input.title))),
            ("summary"@, json::opt_text_view(text::opt_view(input.summary))),
            ("tags_add"@, opt_texts_view(opt_list(input.tags_add))),
            ("tags_remove"@, opt_texts_view(opt_list(input.tags_remove))),
            ("archived"@, opt_bool_view(input.archived)),
            ("pinned"@, opt_bool_view(input.pinned)),
        ],
    )
}

/// Changes what is known of a stored chat.
#[derive(Debug, Clone, Copy, PartialEq, Eq, Structural)]
pub struct ChatUpdateTool;

impl ChatUpdateTool {
    pub fn new() -> (r: ChatUpdateTool)
        ensures
            r == ChatUpdateTool,
    {
        ChatUpdateTool
    }

    /// The name of the tool.
    pub fn name() -> (r: &'static str)
        ensures
            r@ == "chat_update"@,
    {
        "chat_update"
    }

    /// What the tool is for.
    pub fn description(&self) -> (r: String)
        ensures
            r@
                == "Update a chat's metadata including title, summary, tags, archive status, and pin status. Use this to organize your chat history with descriptive titles, categorize with tags, add summaries for future reference, and manage which chats are archived or pinned."@,
    {
        "Update a chat's metadata including title, summary, tags, archive status, and pin status. Use this to organize your chat history with descriptive titles, categorize with tags, add summaries for future reference, and manage which chats are archived or pinned.".to_owned()
    }

    /// What the tool does to its subject.
    pub fn kind() -> (r: ToolKind)
        ensures
            r == ToolKind::Edit,
    {
        ToolKind::Edit
    }

    /// The title of a call of the tool. The input is missing where it could not be read.
    pub fn initial_title(&self, input: &Option<ChatUpdateInput>) -> (r: String)
        ensures
            r@ == match input {
                Some(i) => "Update chat "@ + i.chat_id@,
                None => "Update chat metadata"@,
            },
    {
        match input {
            Some(i) => {
                let mut out = "Update chat ".to_owned();
                out.append(i.chat_id.as_str());
                out
            },
            None => "Update chat metadata".to_owned(),
        }
    }

    /// What the chat store is asked, as JSON.
    pub fn payload(input: &ChatUpdateInput) -> (r: String)
        ensures
            r@ == json::compact_json(chat_update_request(*input)),
    {
        json::to_string(&Self::request(input))
    }

    /// What the chat store is asked.
    pub fn request(input: &ChatUpdateInput) -> (r: Json)
        ensures
            r@ == chat_update_request(*input),
    {
        broadcast use json::object_view;

        let mut fields: Vec<(String, Json)> = Vec::new();
        fields.push(("chat_id".to_owned(), Json::Text(input.chat_id.clone())));
        fields.push(("title".to_owned(), json::opt_text_value(&input.title)));
        fields.push(("summary".to_owned(), json::opt_text_value(&input.summary)));
        fields.push(("tags_add".to_owned(), opt_texts(&input.tags_add)));
        fields.push(("tags_remove".to_owned(), opt_texts(&input.tags_remove)));
        fields.push(("archived".to_owned(), opt_bool(input.archived)));
        fields.push(("pinned".to_owned(), opt_bool(input.pinned)));
        assert(json::fields_view(fields@) =~= chat_update_request(*input)->Object_0);
        Json::Object(fields)
    }

    /// Shows the answer of the chat store.
    pub fn render(raw_result: &str) -> (r: String)
        ensures
            r@ == shown_answer("# Chat Metadata Updated"@, raw_result@, "Failed to parse update result"@),
    {
        show_answer("# Chat Metadata Updated", raw_result, "Failed to parse update result")
    }
}

// ---------------------------------------------------------------------------
// ctx_chat_history
// ---------------------------------------------------------------------------

/// An optional way to search as a JSON value.
pub open spec fn opt_mode_view(mode: Option<RetrievalMode>) -> json::JsonView {
    match mode {
        Some(m) => json::JsonView::Text(mode_name(m)),
        None => json::JsonView::Null,
    }
}

/// What is done with the stored chats. Numbers that are not whole are given as they are written.
#[allow(inconsistent_fields)]
#[derive(Debug)]
pub enum ChatHistoryOperation {
    Append {
        chat_id: Option<String>,
        project_id: Option<String>,
        title: Option<String>,
        role: Option<MessageRole>,
        content: String,
    },
    Search {
        query: String,
        project_id: Option<String>,
        chat_id: Option<String>,
        top_k: Option<usize>,
        mode: Option<RetrievalMode>,
        alpha: Option<String>,
    },
    Answer {
        question: String,
        project_id: Option<String>,
        chat_id: Option<String>,
        top_k: Option<usize>,
        mode: Option<RetrievalMode>,
        alpha: Option<String>,
    },
    Similar {
        chat_id: Option<String>,
        n: Option<usize>,
        project_scoped: Option<bool>,
    },
    List {
        project_id: Option<String>,
        limit: Option<usize>,
        offset: Option<usize>,
    },
    Get {
        chat_id: String,
    },
    CreateChat {
        project_id: Option<String>,
        title: Option<String>,
    },
    DeleteChat {
        chat_id: String,
    },
    Reembed {
        chat_id: Option<String>,
    },
    UpdateMetadata {
        chat_id: String,
        title: Option<String>,
        summary: Option<String>,
        tags_add: Option<Vec<String>>,
        tags_remove: Option<Vec<String>>,
        archived: Option<bool>,
        pinned: Option<bool>,
    },
    ConfigGet,
    ConfigSet {
        embedding_model: Option<String>,
        hybrid_alpha: Option<String>,
        similar_chats_k: Option<usize>,
        summary_refresh_chars: Option<usize>,
        summary_delta_chars: Option<usize>,
        rag_top_k: Option<usize>,
        auto_tag: Option<bool>,
        default_retrieval_mode: Option<RetrievalMode>,
    },
}

/// What the chat store is asked; nothing is sent where its settings are read.
pub open spec fn operation_request(op: ChatHistoryOperation) -> Option<json::JsonView> {
    match op {
        ChatHistoryOperation::Append { chat_id, project_id, title, role, content } => Some(
            json::JsonView::Object(
                seq![
                    ("chat_id"@, json::opt_text_view(text::opt_view(chat_id))),
                    ("project_id"@, json::opt_text_view(text::opt_view(project_id))),
                    ("title"@, json::opt_text_view(text::opt_view(title))),
                    ("role"@, json::JsonView::Text(author_name(role))),
                    ("content"@, json::JsonView::Text(content@)),
                ],
            ),
        ),
        ChatHistoryOperation::Search { query, project_id, chat_id, top_k, mode, alpha } => Some(
            json::JsonView::Object(
                seq![
                    ("query"@, json::JsonView::Text(query@)),
                    ("project_id"@, json::opt_text_view(text::opt_view(project_id))),
                    ("chat_id"@, json::opt_text_view(text::opt_view(chat_id))),
                    ("top_k"@, opt_number_view(top_k)),
                    ("mode"@, json::JsonView::Text(mode_name(mode_or_hybrid(mode)))),
                    ("alpha"@, opt_decimal_view(text::opt_view(alpha))),
                ],
            ),
        ),
        ChatHistoryOperation::Answer { question, project_id, chat_id, top_k, mode, alpha } => Some(
            json::JsonView::Object(
                seq![
                    ("question"@, json::JsonView::Text(question@)),
                    ("project_id"@, json::opt_text_view(text::opt_view(project_id))),
                    ("chat_id"@, json::opt_text_view(text::opt_view(chat_id))),
                    ("top_k"@, opt_number_view(top_k)),
                    ("mode"@, json::JsonView::Text(mode_name(mode_or_hybrid(mode)))),
                    ("alpha"@, opt_decimal_view(text::opt_view(alpha))),
                ],
            ),
        ),
        ChatHistoryOperation::Similar { chat_id, n, project_scoped } => Some(
            json::JsonView::Object(
                seq![
                    ("chat_id"@, json::opt_text_view(text::opt_view(chat_id))),
                    ("n"@, opt_number_view(n)),
                    ("project_scoped"@, opt_bool_view(project_scoped)),
                ],
            ),
        ),
        ChatHistoryOperation::List { project_id, limit, offset } => Some(
            json::JsonView::Object(
                seq![
                    ("project_id"@, json::opt_text_view(text::opt_view(project_id))),
                    ("limit"@, opt_number_view(limit)),
                    ("offset"@, opt_number_view(offset)),
                ],
            ),
        ),
        ChatHistoryOperation::Get { chat_id } => Some(
            json::JsonView::Object(
                seq![
                    ("chat_id"@, json::JsonView::Text(chat_id@)),
                ],
            ),
        ),
        ChatHistoryOperation::CreateChat { project_id, title } => Some(
            json::JsonView::Object(
                seq![
                    ("project_id"@, json::opt_text_view(text::opt_view(project_id))),
                    ("title"@, json::opt_text_view(text::opt_view(title))),
                ],
            ),
        ),
        ChatHistoryOperation::DeleteChat { chat_id } => Some(
            json::JsonView::Object(
                seq![
                    ("chat_id"@, json::JsonView::Text(chat_id@)),
                ],
            ),
        ),
        ChatHistoryOperation::Reembed { chat_id } => Some(
            json::JsonView::Object(
                seq![
                    ("chat_id"@, json::opt_text_view(text::opt_view(chat_id))),
                ],
            ),
        ),
        ChatHistoryOperation::UpdateMetadata { chat_id, title, summary, tags_add, tags_remove, archived, pinned } => Some(
            json::JsonView::Object(
                seq![
                    ("chat_id"@, json::JsonView::Text(chat_id@)),
                    ("title"@, json::opt_text_view(text::opt_view(title))),
                    ("summary"@, json::opt_text_view(text::opt_view(summary))),
                    ("tags_add"@, opt_texts_view(opt_list(tags_add))),
                    ("tags_remove"@, opt_texts_view(opt_list(tags_remove))),
                    ("archived"@, opt_bool_view(archived)),
                    ("pinned"@, opt_bool_view(pinned)),
                ],
            ),
        ),
        ChatHistoryOperation::ConfigGet => None,
        ChatHistoryOperation::ConfigSet { embedding_model, hybrid_alpha, similar_chats_k, summary_refresh_chars, summary_delta_chars, rag_top_k, auto_tag, default_retrieval_mode } => Some(
            json::JsonView::Object(
                seq![
                    ("embedding_model"@, json::opt_text_view(text::opt_view(embedding_model))),
                    ("hybrid_alpha"@, opt_decimal_view(text::opt_view(hybrid_alpha))),
                    ("similar_chats_k"@, opt_number_view(similar_chats_k)),
                    ("summary_refresh_chars"@, opt_number_view(summary_refresh_chars)),
                    ("summary_delta_chars"@, opt_number_view(summary_delta_chars)),
                    ("rag_top_k"@, opt_number_view(rag_top_k)),
                    ("auto_tag"@, opt_bool_view(auto_tag)),
                    ("default_retrieval_mode"@, opt_mode_view(default_retrieval_mode)),
                ],
            ),
        ),
    }
}

/// The title of an operation.
pub open spec fn operation_title(op: ChatHistoryOperation) -> Seq<char> {
    match op {
        ChatHistoryOperation::Append { chat_id, project_id, title, role, content } => "Append chat msg"@,
        ChatHistoryOperation::Search { query, project_id, chat_id, top_k, mode, alpha } => "Search chats"@,
        ChatHistoryOperation::Answer { question, project_id, chat_id, top_k, mode, alpha } => "Answer from chats"@,
        ChatHistoryOperation::Similar { chat_id, n, project_scoped } => "Similar chats"@,
        ChatHistoryOperation::List { project_id, limit, offset } => "List chats"@,
        ChatHistoryOperation::Get { chat_id } => "Get chat"@,
        ChatHistoryOperation::CreateChat { project_id, title } => "Create chat"@,
        ChatHistoryOperation::DeleteChat { chat_id } => "Delete chat"@,
        ChatHistoryOperation::Reembed { chat_id } => "Reembed chats"@,
        ChatHistoryOperation::UpdateMetadata { chat_id, title, summary, tags_add, tags_remove, archived, pinned } => "Update chat metadata"@,
        ChatHistoryOperation::ConfigGet => "Get chat config"@,
        ChatHistoryOperation::ConfigSet { embedding_model, hybrid_alpha, similar_chats_k, summary_refresh_chars, summary_delta_chars, rag_top_k, auto_tag, default_retrieval_mode } => "Set chat config"@,
    }
}

/// The heading of the answer to an operation.
pub open spec fn operation_heading(op: ChatHistoryOperation) -> Seq<char> {
    match op {
        ChatHistoryOperation::Append { chat_id, project_id, title, role, content } => "# Chat Append"@,
        ChatHistoryOperation::Search { query, project_id, chat_id, top_k, mode, alpha } => "# Chat Search Results"@,
        ChatHistoryOperation::Answer { question, project_id, chat_id, top_k, mode, alpha } => "# Chat Answer"@,
        ChatHistoryOperation::Similar { chat_id, n, project_scoped } => "# Similar Chats"@,
        ChatHistoryOperation::List { project_id, limit, offset } => "# Chat List"@,
        ChatHistoryOperation::Get { chat_id } => "# Chat"@,
        ChatHistoryOperation::CreateChat { project_id, title } => "# Chat Created"@,
        ChatHistoryOperation::DeleteChat { chat_id } => "# Chat Deleted"@,
        ChatHistoryOperation::Reembed { chat_id } => "# Reembed Status"@,
        ChatHistoryOperation::UpdateMetadata { chat_id, title, summary, tags_add, tags_remove, archived, pinned } => "# Metadata Update"@,
        ChatHistoryOperation::ConfigGet => "# Chat Config"@,
        ChatHistoryOperation::ConfigSet { embedding_model, hybrid_alpha, similar_chats_k, summary_refresh_chars, summary_delta_chars, rag_top_k, auto_tag, default_retrieval_mode } => "# Chat Config Set"@,
    }
}

fn opt_mode(mode: Option<RetrievalMode>) -> (r: Json)
    ensures
        r@ == opt_mode_view(mode),
{
    match mode {
        Some(m) => Json::Text(mode_name_text(m)),
        None => Json::Null,
    }
}

fn mode_value(mode: Option<RetrievalMode>) -> (r: Json)
    ensures
        r@ == json::JsonView::Text(mode_name(mode_or_hybrid(mode))),
{
    match mode {
        Some(m) => Json::Text(mode_name_text(m)),
        None => Json::Text("hybrid".to_owned()),
    }
}

fn author_value(role: Option<MessageRole>) -> (r: Json)
    ensures
        r@ == json::JsonView::Text(author_name(role)),
{
    match role {
        Some(MessageRole::Assistant) => Json::Text("assistant".to_owned()),
        Some(MessageRole::System) => Json::Text("system".to_owned()),
        Some(MessageRole::User) => Json::Text("user".to_owned()),
        None => Json::Text("user".to_owned()),
    }
}

/// Does everything that can be done with the stored chats.
#[derive(Debug, Clone, Copy, PartialEq, Eq, Structural)]
pub struct ChatHistoryAgentTool;

impl ChatHistoryAgentTool {
    pub fn new() -> (r: ChatHistoryAgentTool)
        ensures
            r == ChatHistoryAgentTool,
    {
        ChatHistoryAgentTool
    }

    /// The name of the tool.
    pub fn name() -> (r: &'static str)
        ensures
            r@ == "ctx_chat_history"@,
    {
        "ctx_chat_history"
    }

    /// What the tool does to its subject.
    pub fn kind() -> (r: ToolKind)
        ensures
            r == ToolKind::Read,
    {
        ToolKind::Read
    }

    /// The error where no chat store is there.
    pub fn adapter_missing() -> (r: String)
        ensures
            r@ == "chat history adapter not installed"@,
    {
        "chat history adapter not installed".to_owned()
    }

    /// The title of a call of the tool. The operation is missing where it could not be read.
    pub fn initial_title(&self, op: &Option<ChatHistoryOperation>) -> (r: String)
        ensures
            r@ == match op {
                Some(op) => operation_title(*op),
                None => "Chat history"@,
            },
    {
        match op {
            Some(op) => match op {
                ChatHistoryOperation::Append { chat_id: _, project_id: _, title: _, role: _, content: _ } => "Append chat msg".to_owned(),
                ChatHistoryOperation::Search { query: _, project_id: _, chat_id: _, top_k: _, mode: _, alpha: _ } => "Search chats".to_owned(),
                ChatHistoryOperation::Answer { question: _, project_id: _, chat_id: _, top_k: _, mode: _, alpha: _ } => "Answer from chats".to_owned(),
                ChatHistoryOperation::Similar { chat_id: _, n: _, project_scoped: _ } => "Similar chats".to_owned(),
                ChatHistoryOperation::List { project_id: _, limit: _, offset: _ } => "List chats".to_owned(),
                ChatHistoryOperation::Get { chat_id: _ } => "Get chat".to_owned(),
                ChatHistoryOperation::CreateChat { project_id: _, title: _ } => "Create chat".to_owned(),
                ChatHistoryOperation::DeleteChat { chat_id: _ } => "Delete chat".to_owned(),
                ChatHistoryOperation::Reembed { chat_id: _ } => "Reembed chats".to_owned(),
                ChatHistoryOperation::UpdateMetadata { chat_id: _, title: _, summary: _, tags_add: _, tags_remove: _, archived: _, pinned: _ } => "Update chat metadata".to_owned(),
                ChatHistoryOperation::ConfigGet => "Get chat config".to_owned(),
                ChatHistoryOperation::ConfigSet { embedding_model: _, hybrid_alpha: _, similar_chats_k: _, summary_refresh_chars: _, summary_delta_chars: _, rag_top_k: _, auto_tag: _, default_retrieval_mode: _ } => "Set chat config".to_owned(),
            },
            None => "Chat history".to_owned(),
        }
    }

    /// What the chat store is asked. Nothing is sent where its settings are read.
    pub fn request(op: &ChatHistoryOperation) -> (r: Option<Json>)
        ensures
            match r {
                Some(j) => operation_request(*op) == Some(j@),
                None => operation_request(*op) is None,
            },
    {
        broadcast use json::object_view;

        let mut fields: Vec<(String, Json)> = Vec::new();
        match op {
            ChatHistoryOperation::Append { chat_id, project_id, title, role, content } => {
                fields.push(("chat_id".to_owned(), json::opt_text_value(chat_id)));
                fields.push(("project_id".to_owned(), json::opt_text_value(project_id)));
                fields.push(("title".to_owned(), json::opt_text_value(title)));
                fields.push(("role".to_owned(), author_value(*role)));
                fields.push(("content".to_owned(), Json::Text(content.clone())));
            },
            ChatHistoryOperation::Search { query, project_id, chat_id, top_k, mode, alpha } => {
                fields.push(("query".to_owned(), Json::Text(query.clone())));
                fields.push(("project_id".to_owned(), json::opt_text_value(project_id)));
                fields.push(("chat_id".to_owned(), json::opt_text_value(chat_id)));
                fields.push(("top_k".to_owned(), opt_number(*top_k)));
                fields.push(("mode".to_owned(), mode_value(*mode)));
                fields.push(("alpha".to_owned(), opt_decimal(alpha)));
            },
            ChatHistoryOperation::Answer { question, project_id, chat_id, top_k, mode, alpha } => {
                fields.push(("question".to_owned(), Json::Text(question.clone())));
                fields.push(("project_id".to_owned(), json::opt_text_value(project_id)));
                fields.push(("chat_id".to_owned(), json::opt_text_value(chat_id)));
                fields.push(("top_k".to_owned(), opt_number(*top_k)));
                fields.push(("mode".to_owned(), mode_value(*mode)));
                fields.push(("alpha".to_owned(), opt_decimal(alpha)));
            },
            ChatHistoryOperation::Similar { chat_id, n, project_scoped } => {
                fields.push(("chat_id".to_owned(), json::opt_text_value(chat_id)));
                fields.push(("n".to_owned(), opt_number(*n)));
                fields.push(("project_scoped".to_owned(), opt_bool(*project_scoped)));
            },
            ChatHistoryOperation::List { project_id, limit, offset } => {
                fields.push(("project_id".to_owned(), json::opt_text_value(project_id)));
                fields.push(("limit".to_owned(), opt_number(*limit)));
                fields.push(("offset".to_owned(), opt_number(*offset)));
            },
            ChatHistoryOperation::Get { chat_id } => {
                fields.push(("chat_id".to_owned(), Json::Text(chat_id.clone())));
            },
            ChatHistoryOperation::CreateChat { project_id, title } => {
                fields.push(("project_id".to_owned(), json::opt_text_value(project_id)));
                fields.push(("title".to_owned(), json::opt_text_value(title)));
            },
            ChatHistoryOperation::DeleteChat { chat_id } => {
                fields.push(("chat_id".to_owned(), Json::Text(chat_id.clone())));
            },
            ChatHistoryOperation::Reembed { chat_id } => {
                fields.push(("chat_id".to_owned(), json::opt_text_value(chat_id)));
            },
            ChatHistoryOperation::UpdateMetadata { chat_id, title, summary, tags_add, tags_remove, archived, pinned } => {
                fields.push(("chat_id".to_owned(), Json::Text(chat_id.clone())));
                fields.push(("title".to_owned(), json::opt_text_value(title)));
                fields.push(("summary".to_owned(), json::opt_text_value(summary)));
                fields.push(("tags_add".to_owned(), opt_texts(tags_add)));
                fields.push(("tags_remove".to_owned(), opt_texts(tags_remove)));
                fields.push(("archived".to_owned(), opt_bool(*archived)));
                fields.push(("pinned".to_owned(), opt_bool(*pinned)));
            },
            ChatHistoryOperation::ConfigGet => {
                return None;
            },
            ChatHistoryOperation::ConfigSet { embedding_model, hybrid_alpha, similar_chats_k, summary_refresh_chars, summary_delta_chars, rag_top_k, auto_tag, default_retrieval_mode } => {
                fields.push(("embedding_model".to_owned(), json::opt_text_value(embedding_model)));
                fields.push(("hybrid_alpha".to_owned(), opt_decimal(hybrid_alpha)));
                fields.push(("similar_chats_k".to_owned(), opt_number(*similar_chats_k)));
                fields.push(("summary_refresh_chars".to_owned(), opt_number(*summary_refresh_chars)));
                fields.push(("summary_delta_chars".to_owned(), opt_number(*summary_delta_chars)));
                fields.push(("rag_top_k".to_owned(), opt_number(*rag_top_k)));
                fields.push(("auto_tag".to_owned(), opt_bool(*auto_tag)));
                fields.push(("default_retrieval_mode".to_owned(), opt_mode(*default_retrieval_mode)));
            },
        }
        assert(json::fields_view(fields@) =~= operation_request(*op)->0->Object_0);
        Some(Json::Object(fields))
    }

    /// What the chat store is asked, as JSON.
    pub fn payload(op: &ChatHistoryOperation) -> (r: Option<String>)
        ensures
            match r {
                Some(p) => operation_request(*op) matches Some(j) && p@ == json::compact_json(j),
                None => operation_request(*op) is None,
            },
    {
        match Self::request(op) {
            Some(j) => Some(json::to_string(&j)),
            None => None,
        }
    }

    /// Shows the answer of the chat store.
    pub fn render(op: &ChatHistoryOperation, raw_result: &str) -> (r: String)
        ensures
            r@ == shown_answer(operation_heading(*op), raw_result@, "invalid json"@),
    {
        let heading = match op {
            ChatHistoryOperation::Append { chat_id: _, project_id: _, title: _, role: _, content: _ } => "# Chat Append".to_owned(),
            ChatHistoryOperation::Search { query: _, project_id: _, chat_id: _, top_k: _, mode: _, alpha: _ } => "# Chat Search Results".to_owned(),
            ChatHistoryOperation::Answer { question: _, project_id: _, chat_id: _, top_k: _, mode: _, alpha: _ } => "# Chat Answer".to_owned(),
            ChatHistoryOperation::Similar { chat_id: _, n: _, project_scoped: _ } => "# Similar Chats".to_owned(),
            ChatHistoryOperation::List { project_id: _, limit: _, offset: _ } => "# Chat List".to_owned(),
            ChatHistoryOperation::Get { chat_id: _ } => "# Chat".to_owned(),
            ChatHistoryOperation::CreateChat { project_id: _, title: _ } => "# Chat Created".to_owned(),
            ChatHistoryOperation::DeleteChat { chat_id: _ } => "# Chat Deleted".to_owned(),
            ChatHistoryOperation::Reembed { chat_id: _ } => "# Reembed Status".to_owned(),
            ChatHistoryOperation::UpdateMetadata { chat_id: _, title: _, summary: _, tags_add: _, tags_remove: _, archived: _, pinned: _ } => "# Metadata Update".to_owned(),
            ChatHistoryOperation::ConfigGet => "# Chat Config".to_owned(),
            ChatHistoryOperation::ConfigSet { embedding_model: _, hybrid_alpha: _, similar_chats_k: _, summary_refresh_chars: _, summary_delta_chars: _, rag_top_k: _, auto_tag: _, default_retrieval_mode: _ } => "# Chat Config Set".to_owned(),
        };
        show_answer(heading.as_str(), raw_result, "invalid json")
    }
}

} // verus!
