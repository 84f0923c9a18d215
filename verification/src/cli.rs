//! Calling the context tools from a command line.

use vstd::prelude::*;

use crate::json;
use crate::json::Json;
use crate::text;

verus! {

/// What is done with the memory.
#[derive(Debug, Clone, Copy, PartialEq, Eq, Structural)]
pub enum MemoryOperation {
    Store,
    Load,
    List,
    Restore,
    Prune,
}

/// What a memory call says besides its operation.
#[derive(Debug)]
pub struct MemoryArguments {
    pub start_index: Option<usize>,
    pub end_index: Option<usize>,
    pub memory_handle: Option<String>,
    pub summary: Option<String>,
    pub auto: bool,
    pub max_preview_chars: Option<usize>,
    pub restore_insert_index: Option<usize>,
    pub remove_placeholder: bool,
    pub replace_placeholder_with: Option<String>,
}

/// What is called.
#[derive(Debug)]
pub enum Commands {
    ListHistory {
        start: Option<usize>,
        limit: Option<usize>,
        max_chars_per_message: Option<usize>,
        include_full_markdown: bool,
    },
    Memory { operation: MemoryOperation, arguments: MemoryArguments },
    RawCall { name: String, arguments: Option<String> },
}

/// Why nothing is called, or nothing came back.
#[derive(Debug)]
pub enum CliError {
    EmptySocketFile(String),
    MissingOperation,
    StoreNeedsRange,
    NeedsHandle(String),
    UnknownOperation(String),
    BadArguments(String),
    UnsupportedTool(String),
    RawMemoryNeedsOperation,
    Tool(String),
    MissingResult,
    MissingContent,
    NoResponse,
}

/// An error in words. The reason why arguments could not be read comes apart.
pub open spec fn error_text(e: CliError) -> Seq<char> {
    match e {
        CliError::EmptySocketFile(file) => "socket path file "@ + file@ + " was empty"@,
        CliError::MissingOperation => "memory invocation missing operation"@,
        CliError::StoreNeedsRange => "store operation requires --start-index and --end-index"@,
        CliError::NeedsHandle(op) => op@ + " operation requires --memory-handle"@,
        CliError::UnknownOperation(op) => "unknown memory operation: "@ + op@,
        CliError::BadArguments(_) => "parsing --arguments JSON for RawCall"@,
        CliError::UnsupportedTool(name) => "unsupported tool '"@ + name@
            + "'. Allowed: list_history, memory"@,
        CliError::RawMemoryNeedsOperation =>
            "memory RawCall requires 'operation' field in arguments"@,
        CliError::Tool(e) => "tool error: "@ + e@,
        CliError::MissingResult => "missing result field"@,
        CliError::MissingContent => "missing content array"@,
        CliError::NoResponse => "did not receive a valid response for request id 1"@,
    }
}

impl CliError {
    /// The error in words.
    pub fn message(&self) -> (r: String)
        ensures
            r@ == error_text(*self),
    {
        match self {
            CliError::EmptySocketFile(file) => {
                let mut out = "socket path file ".to_owned();
                out.append(file.as_str());
                out.append(" was empty");
                out
            },
            CliError::MissingOperation => "memory invocation missing operation".to_owned(),
            CliError::StoreNeedsRange =>
                "store operation requires --start-index and --end-index".to_owned(),
            CliError::NeedsHandle(op) => {
                let mut out = op.clone();
                out.append(" operation requires --memory-handle");
                out
            },
            CliError::UnknownOperation(op) => {
                let mut out = "unknown memory operation: ".to_owned();
                out.append(op.as_str());
                out
            },
            CliError::BadArguments(_) => "parsing --arguments JSON for RawCall".to_owned(),
            CliError::UnsupportedTool(name) => {
                let mut out = "unsupported tool '".to_owned();
                out.append(name.as_str());
                out.append("'. Allowed: list_history, memory");
                out
            },
            CliError::RawMemoryNeedsOperation =>
                "memory RawCall requires 'operation' field in arguments".to_owned(),
            CliError::Tool(e) => {
                let mut out = "tool error: ".to_owned();
                out.append(e.as_str());
                out
            },
            CliError::MissingResult => "missing result field".to_owned(),
            CliError::MissingContent => "missing content array".to_owned(),
            CliError::NoResponse => "did not receive a valid response for request id 1".to_owned(),
        }
    }
}

// ---------------------------------------------------------------------------
// The socket
// ---------------------------------------------------------------------------

/// Where the path of the socket is.
#[derive(Debug)]
pub enum SocketSource {
    Path(String),
    File(String),
}

/// Finds out where the path of the socket is: given, or in a file, which has a place of its own
/// unless another is given.
pub fn socket_source(direct: &Option<String>, file_override: &Option<String>) -> (r: SocketSource)
    ensures
        match direct {
            Some(p) => r matches SocketSource::Path(q) && q@ == p@,
            None => r matches SocketSource::File(f) && f@ == match file_override {
                Some(g) => g@,
                None => ".zed/embedded_compaction_mcp_socket"@,
            },
        },
{
    match direct {
        Some(p) => SocketSource::Path(p.clone()),
        None => match file_override {
            Some(f) => SocketSource::File(f.clone()),
            None => SocketSource::File(".zed/embedded_compaction_mcp_socket".to_owned()),
        },
    }
}

/// The path of the socket that a file holds.
pub fn socket_path(file: &str, contents: &str) -> (r: Result<String, CliError>)
    ensures
        match r {
            Ok(p) => p@ == text::trim(contents@) && p@.len() > 0,
            Err(CliError::EmptySocketFile(f)) => text::trim(contents@).len() == 0 && f@ == file@,
            Err(_) => false,
        },
{
    let trimmed = text::trim_text(contents);
    if trimmed.as_str().unicode_len() == 0 {
        Err(CliError::EmptySocketFile(file.to_owned()))
    } else {
        Ok(trimmed)
    }
}

// ---------------------------------------------------------------------------
// The call
// ---------------------------------------------------------------------------

/// The name of an operation.
pub open spec fn operation_name(op: MemoryOperation) -> Seq<char> {
    match op {
        MemoryOperation::Store => "store"@,
        MemoryOperation::Load => "load"@,
        MemoryOperation::List => "list"@,
        MemoryOperation::Restore => "restore"@,
        MemoryOperation::Prune => "prune"@,
    }
}

/// A number, if there is one.
pub open spec fn number(n: Option<usize>) -> Option<json::JsonView> {
    match n {
        Some(n) => Some(json::JsonView::Unsigned(n as u64)),
        None => None,
    }
}

/// A text, if there is one.
pub open spec fn words(t: Option<String>) -> Option<json::JsonView> {
    match t {
        Some(t) => Some(json::JsonView::Text(t@)),
        None => None,
    }
}

/// A flag, where it is set.
pub open spec fn flag(b: bool) -> Option<json::JsonView> {
    if b {
        Some(json::JsonView::Bool(true))
    } else {
        None
    }
}

/// The arguments of a call that lists the history.
pub open spec fn history_arguments(
    start: Option<usize>,
    limit: Option<usize>,
    max_chars: Option<usize>,
    full: bool,
) -> Seq<(Seq<char>, json::JsonView)> {
    json::optional_field("start"@, number(start)) + json::optional_field("limit"@, number(limit))
        + json::optional_field("max_chars_per_message"@, number(max_chars)) + json::optional_field(
        "include_full_markdown"@,
        flag(full),
    )
}

/// The arguments of a memory call.
pub open spec fn memory_arguments(op: MemoryOperation, a: MemoryArguments) -> Seq<
    (Seq<char>, json::JsonView),
> {
    seq![("operation"@, json::JsonView::Text(operation_name(op)))] + json::optional_field(
        "start_index"@,
        number(a.start_index),
    ) + json::optional_field("end_index"@, number(a.end_index)) + json::optional_field(
        "memory_handle"@,
        words(a.memory_handle),
    ) + json::optional_field("summary"@, words(a.summary)) + json::optional_field(
        "auto"@,
        flag(a.auto),
    ) + json::optional_field("max_preview_chars"@, number(a.max_preview_chars))
        + json::optional_field("restore_insert_index"@, number(a.restore_insert_index))
        + json::optional_field("remove_placeholder"@, flag(a.remove_placeholder))
        + json::optional_field("replace_placeholder_with"@, words(a.replace_placeholder_with))
}

/// Why a memory call lacks something.
pub open spec fn memory_lacks(op: MemoryOperation, a: MemoryArguments) -> Option<Seq<char>> {
    match op {
        MemoryOperation::Store => if a.start_index is None || a.end_index is None {
            Some(error_text(CliError::StoreNeedsRange))
        } else {
            None
        },
        MemoryOperation::Load | MemoryOperation::Restore => if a.memory_handle is None {
            Some(operation_name(op) + " operation requires --memory-handle"@)
        } else {
            None
        },
        MemoryOperation::List | MemoryOperation::Prune => None,
    }
}

fn number_value(n: Option<usize>) -> (r: Option<Json>)
    ensures
        match r {
            Some(j) => number(n) == Some(j@),
            None => number(n) is None,
        },
{
    match n {
        Some(n) => Some(Json::Unsigned(n as u64)),
        None => None,
    }
}

fn words_value(t: &Option<String>) -> (r: Option<Json>)
    ensures
        match r {
            Some(j) => words(*t) == Some(j@),
            None => words(*t) is None,
        },
{
    match t {
        Some(t) => Some(Json::Text(t.clone())),
        None => None,
    }
}

fn flag_value(b: bool) -> (r: Option<Json>)
    ensures
        match r {
            Some(j) => flag(b) == Some(j@),
            None => flag(b) is None,
        },
{
    if b {
        Some(Json::Bool(true))
    } else {
        None
    }
}

fn operation_text(op: MemoryOperation) -> (r: String)
    ensures
        r@ == operation_name(op),
{
    match op {
        MemoryOperation::Store => "store".to_owned(),
        MemoryOperation::Load => "load".to_owned(),
        MemoryOperation::List => "list".to_owned(),
        MemoryOperation::Restore => "restore".to_owned(),
        MemoryOperation::Prune => "prune".to_owned(),
    }
}

/// The arguments of a call that lists the history.
pub fn history_call(
    start: Option<usize>,
    limit: Option<usize>,
    max_chars: Option<usize>,
    full: bool,
) -> (r: Json)
    ensures
        r@ == json::JsonView::Object(history_arguments(start, limit, max_chars, full)),
{
    broadcast use json::object_view;

    let mut fields: Vec<(String, Json)> = Vec::new();
    json::push_optional(&mut fields, "start", number_value(start));
    assert(json::fields_view(fields@) =~= json::optional_field("start"@, number(start)));
    json::push_optional(&mut fields, "limit", number_value(limit));
    json::push_optional(&mut fields, "max_chars_per_message", number_value(max_chars));
    json::push_optional(&mut fields, "include_full_markdown", flag_value(full));
    Json::Object(fields)
}

/// The arguments of a memory call. Where something is lacking that the operation needs, the error
/// says what.
pub fn memory_call(op: MemoryOperation, a: &MemoryArguments) -> (r: Result<Json, CliError>)
    ensures
        match r {
            Ok(j) => memory_lacks(op, *a) is None && j@ == json::JsonView::Object(
                memory_arguments(op, *a),
            ),
            Err(e) => memory_lacks(op, *a) == Some(error_text(e)),
        },
{
    broadcast use json::object_view;

    match op {
        MemoryOperation::Store => {
            if a.start_index.is_none() || a.end_index.is_none() {
                return Err(CliError::StoreNeedsRange);
            }
        },
        MemoryOperation::Load => {
            if a.memory_handle.is_none() {
                return Err(CliError::NeedsHandle("load".to_owned()));
            }
        },
        MemoryOperation::Restore => {
            if a.memory_handle.is_none() {
                return Err(CliError::NeedsHandle("restore".to_owned()));
            }
        },
        MemoryOperation::List => {},
        MemoryOperation::Prune => {},
    }
    let mut fields: Vec<(String, Json)> = Vec::new();
    json::push_field(&mut fields, "operation", Json::Text(operation_text(op)));
    assert(json::fields_view(fields@) =~= seq![
        ("operation"@, json::JsonView::Text(operation_name(op))),
    ]);
    json::push_optional(&mut fields, "start_index", number_value(a.start_index));
    json::push_optional(&mut fields, "end_index", number_value(a.end_index));
    json::push_optional(&mut fields, "memory_handle", words_value(&a.memory_handle));
    json::push_optional(&mut fields, "summary", words_value(&a.summary));
    json::push_optional(&mut fields, "auto", flag_value(a.auto));
    json::push_optional(&mut fields, "max_preview_chars", number_value(a.max_preview_chars));
    json::push_optional(&mut fields, "restore_insert_index", number_value(a.restore_insert_index));
    json::push_optional(&mut fields, "remove_placeholder", flag_value(a.remove_placeholder));
    json::push_optional(
        &mut fields,
        "replace_placeholder_with",
        words_value(&a.replace_placeholder_with),
    );
    Ok(Json::Object(fields))
}

/// Why arguments are not those of a memory call.
pub open spec fn memory_input_error(j: json::JsonView) -> Option<Seq<char>> {
    match json::text_field(j, "operation"@) {
        Some(op) => if op == "store"@ {
            if json::field(j, "start_index"@) is None || json::field(j, "end_index"@) is None {
                Some(error_text(CliError::StoreNeedsRange))
            } else {
                None
            }
        } else if op == "load"@ || op == "restore"@ {
            if json::field(j, "memory_handle"@) is None {
                Some(op + " operation requires --memory-handle"@)
            } else {
                None
            }
        } else if op == "list"@ || op == "prune"@ {
            None
        } else {
            Some("unknown memory operation: "@ + op)
        },
        None => Some(error_text(CliError::MissingOperation)),
    }
}

/// Checks the arguments of a memory call.
pub fn validate_memory_input(arguments: &Json) -> (r: Result<(), CliError>)
    ensures
        match r {
            Ok(()) => memory_input_error(arguments@) is None,
            Err(e) => memory_input_error(arguments@) == Some(error_text(e)),
        },
{
    let op = match arguments.get("operation") {
        Some(v) => match v.as_str() {
            Some(s) => s,
            None => return Err(CliError::MissingOperation),
        },
        None => return Err(CliError::MissingOperation),
    };
    if text::same(op.as_str(), "store") {
        if arguments.get("start_index").is_none() || arguments.get("end_index").is_none() {
            return Err(CliError::StoreNeedsRange);
        }
    } else if text::same(op.as_str(), "load") || text::same(op.as_str(), "restore") {
        if arguments.get("memory_handle").is_none() {
            return Err(CliError::NeedsHandle(op.clone()));
        }
    } else if !text::same(op.as_str(), "list") && !text::same(op.as_str(), "prune") {
        return Err(CliError::UnknownOperation(op.clone()));
    }
    Ok(())
}

/// Why a tool is not called with arguments as they are.
pub open spec fn raw_call_error(name: Seq<char>, arguments: json::JsonView) -> Option<Seq<char>> {
    if name != "list_history"@ && name != "memory"@ {
        Some("unsupported tool '"@ + name + "'. Allowed: list_history, memory"@)
    } else if name == "memory"@ && json::field(arguments, "operation"@) is None {
        Some(error_text(CliError::RawMemoryNeedsOperation))
    } else {
        None
    }
}

/// Checks a call of a tool with arguments as they are.
pub fn check_raw_call(name: &str, arguments: &Json) -> (r: Result<(), CliError>)
    ensures
        match r {
            Ok(()) => raw_call_error(name@, arguments@) is None,
            Err(e) => raw_call_error(name@, arguments@) == Some(error_text(e)),
        },
{
    if !text::same(name, "list_history") && !text::same(name, "memory") {
        return Err(CliError::UnsupportedTool(name.to_owned()));
    }
    if text::same(name, "memory") && arguments.get("operation").is_none() {
        return Err(CliError::RawMemoryNeedsOperation);
    }
    Ok(())
}

/// No fields.
pub open spec fn nothing() -> json::JsonView {
    json::JsonView::Object(Seq::empty())
}

/// What arguments say. Without a text they say nothing.
pub open spec fn raw_arguments(arguments: Option<Seq<char>>) -> Result<json::JsonView, Seq<char>> {
    match arguments {
        Some(raw) => if text::trim(raw).len() == 0 {
            Ok(nothing())
        } else {
            json::parsed_json(raw)
        },
        None => Ok(nothing()),
    }
}

fn empty_object() -> (r: Json)
    ensures
        r@ == nothing(),
{
    broadcast use json::object_view;

    let fields: Vec<(String, Json)> = Vec::new();
    assert(json::fields_view(fields@) =~= Seq::empty());
    Json::Object(fields)
}

/// The tool and the arguments of a call.
pub fn build_invocation(cmd: &Commands) -> (r: Result<(String, Json), CliError>)
    ensures
        match cmd {
            Commands::ListHistory { start, limit, max_chars_per_message, include_full_markdown } =>
            r matches Ok((name, j)) && name@ == "list_history"@ && j@ == json::JsonView::Object(
                history_arguments(*start, *limit, *max_chars_per_message, *include_full_markdown),
            ),
            Commands::Memory { operation, arguments } => match memory_lacks(
                *operation,
                *arguments,
            ) {
                Some(t) => r matches Err(e) && error_text(e) == t,
                None => r matches Ok((name, j)) && name@ == "memory"@ && j@
                    == json::JsonView::Object(memory_arguments(*operation, *arguments)),
            },
            Commands::RawCall { name, arguments } => match raw_arguments(
                text::opt_view(*arguments),
            ) {
                Ok(j) => match raw_call_error(name@, j) {
                    Some(t) => r matches Err(e) && error_text(e) == t,
                    None => r matches Ok((n, k)) && n@ == name@ && k@ == j,
                },
                Err(e) => r matches Err(CliError::BadArguments(f)) && f@ == e,
            },
        },
{
    match cmd {
        Commands::ListHistory { start, limit, max_chars_per_message, include_full_markdown } => Ok(
            (
                "list_history".to_owned(),
                history_call(*start, *limit, *max_chars_per_message, *include_full_markdown),
            ),
        ),
        Commands::Memory { operation, arguments } => match memory_call(*operation, arguments) {
            Ok(j) => Ok(("memory".to_owned(), j)),
            Err(e) => Err(e),
        },
        Commands::RawCall { name, arguments } => {
            let parsed = match arguments {
                Some(raw) => if text::trim_text(raw.as_str()).as_str().unicode_len() == 0 {
                    empty_object()
                } else {
                    match json::from_str(raw.as_str()) {
                        Ok(j) => j,
                        Err(e) => return Err(CliError::BadArguments(e)),
                    }
                },
                None => empty_object(),
            };
            match check_raw_call(name.as_str(), &parsed) {
                Ok(()) => Ok((name.clone(), parsed)),
                Err(e) => Err(e),
            }
        },
    }
}

/// The number of the request.
pub const REQUEST_ID: u64 = 1;

/// The request that calls a tool.
pub open spec fn request(name: Seq<char>, arguments: json::JsonView) -> json::JsonView {
    json::JsonView::Object(
        seq![
            ("jsonrpc"@, json::JsonView::Text("2.0"@)),
            ("id"@, json::JsonView::Unsigned(REQUEST_ID)),
            ("method"@, json::JsonView::Text("tools/call"@)),
            (
                "params"@,
                json::JsonView::Object(
                    seq![("name"@, json::JsonView::Text(name)), ("arguments"@, arguments)],
                ),
            ),
        ],
    )
}

fn request_params(name: &str, arguments: &Json) -> (r: Json)
    ensures
        r@ == json::JsonView::Object(
            seq![("name"@, json::JsonView::Text(name@)), ("arguments"@, arguments@)],
        ),
{
    broadcast use json::object_view;

    let mut fields: Vec<(String, Json)> = Vec::new();
    fields.push(("name".to_owned(), Json::Text(name.to_owned())));
    fields.push(("arguments".to_owned(), arguments.copy()));
    assert(json::fields_view(fields@) =~= seq![
        ("name"@, json::JsonView::Text(name@)),
        ("arguments"@, arguments@),
    ]);
    Json::Object(fields)
}

/// The line that calls a tool, without its end.
pub fn request_line(name: &str, arguments: &Json) -> (r: String)
    ensures
        r@ == json::compact_json(request(name@, arguments@)),
{
    broadcast use json::object_view;

    let mut fields: Vec<(String, Json)> = Vec::new();
    fields.push(("jsonrpc".to_owned(), Json::Text("2.0".to_owned())));
    fields.push(("id".to_owned(), Json::Unsigned(REQUEST_ID)));
    fields.push(("method".to_owned(), Json::Text("tools/call".to_owned())));
    fields.push(("params".to_owned(), request_params(name, arguments)));
    assert(json::fields_view(fields@) =~= request(name@, arguments@)->Object_0);
    json::to_string(&Json::Object(fields))
}

// ---------------------------------------------------------------------------
// The answer
// ---------------------------------------------------------------------------

/// The texts of an answer, one in a line.
pub open spec fn answer_texts(items: Seq<json::JsonView>) -> Seq<char>
    decreases items.len(),
{
    if items.len() == 0 {
        Seq::empty()
    } else {
        let before = answer_texts(items.drop_last());
        match json::text_field(items.last(), "text"@) {
            Some(t) => if before.len() == 0 {
                t
            } else {
                before + "\n"@ + t
            },
            None => before,
        }
    }
}

/// What an answer says, or why it says nothing.
pub open spec fn answer(root: json::JsonView) -> Result<Seq<char>, Seq<char>> {
    match json::field(root, "error"@) {
        Some(e) => Err("tool error: "@ + json::compact_json(e)),
        None => match json::field(root, "result"@) {
            Some(result) => match json::field(result, "content"@) {
                Some(json::JsonView::Array(items)) => Ok(
                    if answer_texts(items).len() == 0 {
                        "<no text content>"@
                    } else {
                        answer_texts(items)
                    },
                ),
                _ => Err(error_text(CliError::MissingContent)),
            },
            None => Err(error_text(CliError::MissingResult)),
        },
    }
}

fn texts_of(items: &Vec<Json>) -> (r: String)
    ensures
        r@ == answer_texts(json::items_view(items@)),
{
    let ghost all = json::items_view(items@);
    let mut out = String::new();
    for i in 0..items.len()
        invariant
            all == json::items_view(items@),
            out@ == answer_texts(all.take(i as int)),
    {
        assert(all.take(i + 1).drop_last() =~= all.take(i as int));
        assert(all.take(i + 1).last() == items@[i as int]@);
        if let Some(t) = items[i].get("text") {
            if let Some(s) = t.as_str() {
                if out.as_str().unicode_len() == 0 {
                    out = s.clone();
                } else {
                    out.append("\n");
                    out.append(s.as_str());
                }
            }
        }
    }
    assert(all.take(all.len() as int) =~= all);
    out
}

/// Reads what an answer says.
pub fn extract_tool_response(root: &Json) -> (r: Result<String, CliError>)
    ensures
        match r {
            Ok(t) => answer(root@) == Ok::<Seq<char>, Seq<char>>(t@),
            Err(e) => answer(root@) == Err::<Seq<char>, Seq<char>>(error_text(e)),
        },
{
    if let Some(e) = root.get("error") {
        return Err(CliError::Tool(json::to_string(e)));
    }
    let result = match root.get("result") {
        Some(v) => v,
        None => return Err(CliError::MissingResult),
    };
    let content = match result.get("content") {
        Some(v) => v,
        None => return Err(CliError::MissingContent),
    };
    match content.as_array() {
        Some(items) => {
            let out = texts_of(items);
            if out.as_str().unicode_len() == 0 {
                Ok("<no text content>".to_owned())
            } else {
                Ok(out)
            }
        },
        None => Err(CliError::MissingContent),
    }
}

/// What the tool gave back: the line that answered, and its text.
#[derive(Debug)]
pub struct ToolInvocationResponse {
    pub full_json: String,
    pub concatenated_text: String,
}

/// What follows a line.
#[derive(Debug)]
pub enum ReadStep {
    More,
    Done(ToolInvocationResponse),
    Failed(CliError),
}

/// Whether a value answers the request.
pub open spec fn is_answer(j: json::JsonView) -> bool {
    json::field(j, "id"@) == Some(json::JsonView::Unsigned(REQUEST_ID))
}

/// What follows a line that is not blank, given the value it holds.
pub open spec fn step_matches(
    r: ReadStep,
    line: Seq<char>,
    value: Result<json::JsonView, Seq<char>>,
) -> bool {
    match value {
        Ok(j) => if is_answer(j) {
            match answer(j) {
                Ok(t) => r matches ReadStep::Done(d) && d.full_json@ == text::trim(line)
                    && d.concatenated_text@ == t,
                Err(e) => r matches ReadStep::Failed(f) && error_text(f) == e,
            }
        } else {
            r is More
        },
        Err(_) => r is More,
    }
}

/// Takes a line. One that is blank, and one that holds no answer to the request, is passed over.
pub fn read_line(line: &str) -> (r: ReadStep)
    ensures
        if text::trim(line@).len() == 0 {
            r is More
        } else {
            step_matches(r, line@, json::parsed_json(text::trim(line@)))
        },
{
    let trimmed = text::trim_text(line);
    if trimmed.as_str().unicode_len() == 0 {
        return ReadStep::More;
    }
    take_value(line, json::from_str(trimmed.as_str()))
}

/// Takes a line that is not blank, and the value that it holds.
pub fn take_value(line: &str, value: Result<Json, String>) -> (r: ReadStep)
    ensures
        step_matches(
            r,
            line@,
            match value {
                Ok(j) => Ok(j@),
                Err(e) => Err(e@),
            },
        ),
{
    let j = match value {
        Ok(j) => j,
        Err(_) => return ReadStep::More,
    };
    let answers = match j.get("id") {
        Some(Json::Unsigned(id)) => *id == REQUEST_ID,
        _ => false,
    };
    if !answers {
        return ReadStep::More;
    }
    match extract_tool_response(&j) {
        Ok(concatenated_text) => ReadStep::Done(
            ToolInvocationResponse { full_json: text::trim_text(line), concatenated_text },
        ),
        Err(e) => ReadStep::Failed(e),
    }
}

/// There are no more lines.
pub fn end_of_lines() -> (r: CliError)
    ensures
        r is NoResponse,
{
    CliError::NoResponse
}

// ---------------------------------------------------------------------------
// Laws
// ---------------------------------------------------------------------------

/// The arguments that a memory call is given are such that it is accepted when it is checked.
pub proof fn memory_calls_are_valid(op: MemoryOperation, a: MemoryArguments)
    requires
        memory_lacks(op, a) is None,
    ensures
        memory_input_error(json::JsonView::Object(memory_arguments(op, a))) is None,
        raw_call_error("memory"@, json::JsonView::Object(memory_arguments(op, a))) is None,
{
    let fields = memory_arguments(op, a);
    assert(fields[0] == ("operation"@, json::JsonView::Text(operation_name(op))));
    json::first_field(fields, 0);
    if a.start_index is Some {
        assert(fields[1].0 == "start_index"@);
        json::has_field(fields, 1);
        if a.end_index is Some {
            assert(fields[2].0 == "end_index"@);
            json::has_field(fields, 2);
        }
    }
    if a.memory_handle is Some {
        let k = 1 + (if a.start_index is Some {
            1int
        } else {
            0int
        }) + (if a.end_index is Some {
            1int
        } else {
            0int
        });
        assert(fields[k].0 == "memory_handle"@);
        json::has_field(fields, k);
    }
    reveal_strlit("store");
    reveal_strlit("load");
    reveal_strlit("list");
    reveal_strlit("restore");
    reveal_strlit("prune");
    assert("load"@[1] != "list"@[1]);
    assert("store"@[0] != "prune"@[0]);
}

} // verus!
