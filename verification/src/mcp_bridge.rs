//! Serving the context tools to other programs, one request in a line.

use vstd::prelude::*;

use crate::ids;
use crate::json;
use crate::json::Json;
use crate::text;
use crate::tools::ToolKind;

verus! {

/// What is known of a tool that is served.
#[derive(Debug)]
pub struct ToolMetadata {
    pub name: String,
    pub description: String,
    pub kind: ToolKind,
    pub input_schema: Json,
}

/// What is known of a tool that is served.
pub ghost struct MetadataView {
    pub name: Seq<char>,
    pub description: Seq<char>,
    pub kind: ToolKind,
    pub input_schema: json::JsonView,
}

impl View for ToolMetadata {
    type V = MetadataView;

    open spec fn view(&self) -> MetadataView {
        MetadataView {
            name: self.name@,
            description: self.description@,
            kind: self.kind,
            input_schema: self.input_schema@,
        }
    }
}

/// What is known of tools.
pub open spec fn metadata_views(tools: Seq<ToolMetadata>) -> Seq<MetadataView> {
    tools.map_values(|t: ToolMetadata| t@)
}

/// What a tool gave back: the value, and a text to show.
#[derive(Debug)]
pub struct InvocationResult {
    pub output: Json,
    pub display: Option<String>,
}

/// The place of the last occurrence of a text, at a place or before it.
pub open spec fn last_at(s: Seq<char>, part: Seq<char>, at: int) -> Option<int>
    decreases at + 1,
{
    if at < 0 {
        None
    } else if text::stands_at(s, part, at) {
        Some(at)
    } else {
        last_at(s, part, at - 1)
    }
}

/// The last segment of the path of a type.
pub open spec fn last_segment(path: Seq<char>) -> Seq<char> {
    match last_at(path, "::"@, path.len() as int) {
        Some(at) => path.skip(at + 2),
        None => path,
    }
}

fn segment_text(path: &str) -> (r: String)
    ensures
        r@ == last_segment(path@),
{
    let chars = text::to_chars(path);
    let n: usize = chars.len();
    proof {
        reveal_strlit("::");
    }
    let mut at: usize = n;
    assert(!text::stands_at(path@, "::"@, n as int));
    while at > 0
        invariant
            chars@ == path@,
            n == chars@.len(),
            at <= n,
            "::"@.len() == 2,
            "::"@[0] == ':' && "::"@[1] == ':',
            !text::stands_at(path@, "::"@, at as int),
            last_at(path@, "::"@, n as int) == last_at(path@, "::"@, at as int),
        decreases at,
    {
        at = at - 1;
        if n - at >= 2 && chars[at] == ':' && chars[at + 1] == ':' {
            assert(path@.subrange(at as int, at + 2) =~= "::"@);
            assert(path@.skip(at + 2) =~= path@.subrange(at + 2, n as int));
            return text::from_range(&chars, at + 2, n);
        }
        assert(!text::stands_at(path@, "::"@, at as int)) by {
            if text::stands_at(path@, "::"@, at as int) {
                assert(path@.subrange(at as int, at + 2)[0] == path@[at as int]);
                assert(path@.subrange(at as int, at + 2)[1] == path@[at + 1]);
            }
        }
    }
    assert(last_at(path@, "::"@, -1) is None);
    path.to_owned()
}

/// A tool is served under its name. `type_path` is the path of its type, `schema` that of its input.
pub fn adapt_tool(name: &str, type_path: &str, kind: ToolKind, schema: Json) -> (r: ToolMetadata)
    ensures
        r@ == (MetadataView {
            name: name@,
            description: last_segment(type_path@) + " (exported)"@,
            kind,
            input_schema: schema@,
        }),
{
    let mut description = segment_text(type_path);
    description.append(" (exported)");
    ToolMetadata { name: name.to_owned(), description, kind, input_schema: schema }
}

/// What a tool gave back. A text can be shown as it is.
pub fn invocation_result(output: Json) -> (r: InvocationResult)
    ensures
        r.output@ == output@,
        text::opt_view(r.display) == match output@ {
            json::JsonView::Text(t) => Some(t),
            _ => None,
        },
{
    let display = match output.as_str() {
        Some(s) => Some(s.clone()),
        None => None,
    };
    InvocationResult { output, display }
}

/// What is said when the arguments of a tool cannot be read.
pub fn input_error(tool: &str, reason: &str, raw: &Json) -> (r: String)
    ensures
        r@ == "Failed to deserialize input for tool '"@ + tool@ + "': "@ + reason@ + ". Raw: "@
            + json::compact_json(raw@),
{
    let mut out = "Failed to deserialize input for tool '".to_owned();
    out.append(tool);
    out.append("': ");
    out.append(reason);
    out.append(". Raw: ");
    out.append(json::to_string(raw).as_str());
    out
}

/// What is said when what a tool gave back cannot be written.
pub fn output_error(tool: &str, reason: &str) -> (r: String)
    ensures
        r@ == "Serialization error for tool '"@ + tool@ + "' output: "@ + reason@,
{
    let mut out = "Serialization error for tool '".to_owned();
    out.append(tool);
    out.append("' output: ");
    out.append(reason);
    out
}

/// Gives calls identifiers of their own, and leaves what happens in them unseen.
pub struct NoopEventStreamProvider;

impl NoopEventStreamProvider {
    /// An identifier for a call of a tool, which chance has made.
    pub fn call_id(&self, tool_name: &str) -> (r: String)
        ensures
            exists|id: Seq<char>| #[trigger]
                ids::is_uuid(id) && r@ == "mcp-"@ + tool_name@ + "-"@ + id,
    {
        let id = ids::new_uuid();
        let mut out = "mcp-".to_owned();
        out.append(tool_name);
        out.append("-");
        out.append(id.as_str());
        out
    }
}

// ---------------------------------------------------------------------------
// The tools
// ---------------------------------------------------------------------------

/// The tools that are served. They are not called before all is ready.
#[derive(Debug)]
pub struct BridgeState {
    pub tools: Vec<ToolMetadata>,
    pub ready: bool,
}

/// The place of the tool with a name.
pub open spec fn tool_index(tools: Seq<MetadataView>, name: Seq<char>) -> Option<int>
    decreases tools.len(),
{
    if tools.len() == 0 {
        None
    } else {
        match tool_index(tools.drop_last(), name) {
            Some(i) => Some(i),
            None => if tools.last().name == name {
                Some(tools.len() - 1)
            } else {
                None
            },
        }
    }
}

/// The tools when one is served: it takes the place of one with its name.
pub open spec fn registered(tools: Seq<MetadataView>, tool: MetadataView) -> Seq<MetadataView> {
    match tool_index(tools, tool.name) {
        Some(i) => tools.update(i, tool),
        None => tools.push(tool),
    }
}

fn find_tool(tools: &Vec<ToolMetadata>, name: &str) -> (r: Option<usize>)
    ensures
        match r {
            Some(i) => i < tools@.len() && tool_index(metadata_views(tools@), name@) == Some(
                i as int,
            ),
            None => tool_index(metadata_views(tools@), name@) is None,
        },
{
    let ghost all = metadata_views(tools@);
    let mut found: Option<usize> = None;
    for i in 0..tools.len()
        invariant
            all == metadata_views(tools@),
            match found {
                Some(k) => k < i && tool_index(all.take(i as int), name@) == Some(k as int),
                None => tool_index(all.take(i as int), name@) is None,
            },
    {
        assert(all.take(i + 1).drop_last() =~= all.take(i as int));
        assert(all.take(i + 1).last() == tools@[i as int]@);
        if found.is_none() && text::same(tools[i].name.as_str(), name) {
            found = Some(i);
        }
    }
    assert(all.take(all.len() as int) =~= all);
    found
}

impl BridgeState {
    /// At the start only the tool that says whether all is ready is served. `schema` is that of its
    /// input, `type_path` the path of its type.
    pub fn bootstrap(type_path: &str, schema: Json) -> (r: BridgeState)
        ensures
            !r.ready,
            metadata_views(r.tools@) == seq![
                MetadataView {
                    name: "bridge_status"@,
                    description: last_segment(type_path@) + " (exported)"@,
                    kind: ToolKind::Other,
                    input_schema: schema@,
                },
            ],
    {
        let tool = adapt_tool("bridge_status", type_path, ToolKind::Other, schema);
        let mut tools: Vec<ToolMetadata> = Vec::new();
        tools.push(tool);
        assert(metadata_views(tools@) =~= seq![tool@]);
        BridgeState { tools, ready: false }
    }

    /// Serves a tool.
    pub fn register(&mut self, tool: ToolMetadata)
        ensures
            final(self).ready == old(self).ready,
            metadata_views(final(self).tools@) == registered(
                metadata_views(old(self).tools@),
                tool@,
            ),
    {
        let ghost all = metadata_views(self.tools@);
        match find_tool(&self.tools, tool.name.as_str()) {
            Some(i) => {
                self.tools.set(i, tool);
                assert(metadata_views(self.tools@) =~= all.update(i as int, tool@));
            },
            None => {
                self.tools.push(tool);
                assert(metadata_views(self.tools@) =~= all.push(tool@));
            },
        }
    }
}

/// What the tool that says whether all is ready gives back.
pub open spec fn status() -> json::JsonView {
    json::JsonView::Object(
        seq![
            ("ready"@, json::JsonView::Bool(false)),
            ("available"@, json::JsonView::Array(Seq::empty())),
        ],
    )
}

/// What the tool that says whether all is ready gives back.
pub fn status_output() -> (r: Json)
    ensures
        r@ == status(),
{
    broadcast use json::object_view, json::array_view;

    let none: Vec<Json> = Vec::new();
    assert(json::items_view(none@) =~= Seq::empty());
    let mut fields: Vec<(String, Json)> = Vec::new();
    fields.push(("ready".to_owned(), Json::Bool(false)));
    fields.push(("available".to_owned(), Json::Array(none)));
    assert(json::fields_view(fields@) =~= status()->Object_0);
    Json::Object(fields)
}

// ---------------------------------------------------------------------------
// Answers
// ---------------------------------------------------------------------------

/// An answer.
pub open spec fn success(id: json::JsonView, result: json::JsonView) -> json::JsonView {
    json::JsonView::Object(
        seq![("jsonrpc"@, json::JsonView::Text("2.0"@)), ("id"@, id), ("result"@, result)],
    )
}

/// An answer that says what went wrong.
pub open spec fn failure(id: json::JsonView, code: i32, message: Seq<char>) -> json::JsonView {
    json::JsonView::Object(
        seq![
            ("jsonrpc"@, json::JsonView::Text("2.0"@)),
            ("id"@, id),
            (
                "error"@,
                json::JsonView::Object(
                    seq![
                        ("code"@, json::JsonView::Unsigned(code as u64)),
                        ("message"@, json::JsonView::Text(message)),
                    ],
                ),
            ),
        ],
    )
}

fn success_value(id: Json, result: Json) -> (r: Json)
    ensures
        r@ == success(id@, result@),
{
    broadcast use json::object_view;

    let mut fields: Vec<(String, Json)> = Vec::new();
    fields.push(("jsonrpc".to_owned(), Json::Text("2.0".to_owned())));
    fields.push(("id".to_owned(), id));
    fields.push(("result".to_owned(), result));
    assert(json::fields_view(fields@) =~= success(id@, result@)->Object_0);
    Json::Object(fields)
}

fn error_body(code: u64, message: &str) -> (r: Json)
    ensures
        r@ == json::JsonView::Object(
            seq![
                ("code"@, json::JsonView::Unsigned(code)),
                ("message"@, json::JsonView::Text(message@)),
            ],
        ),
{
    broadcast use json::object_view;

    let mut fields: Vec<(String, Json)> = Vec::new();
    fields.push(("code".to_owned(), Json::Unsigned(code)));
    fields.push(("message".to_owned(), Json::Text(message.to_owned())));
    assert(json::fields_view(fields@) =~= seq![
        ("code"@, json::JsonView::Unsigned(code)),
        ("message"@, json::JsonView::Text(message@)),
    ]);
    Json::Object(fields)
}

fn failure_value(id: Json, code: i32, message: &str) -> (r: Json)
    requires
        0 <= code,
    ensures
        r@ == failure(id@, code, message@),
{
    broadcast use json::object_view;

    let mut fields: Vec<(String, Json)> = Vec::new();
    fields.push(("jsonrpc".to_owned(), Json::Text("2.0".to_owned())));
    fields.push(("id".to_owned(), id));
    fields.push(("error".to_owned(), error_body(code as u64, message)));
    assert(json::fields_view(fields@) =~= failure(id@, code, message@)->Object_0);
    Json::Object(fields)
}

/// What the server says of itself.
pub open spec fn server_info() -> json::JsonView {
    json::JsonView::Object(
        seq![
            ("protocolVersion"@, json::JsonView::Text("2024-11-05"@)),
            (
                "serverInfo"@,
                json::JsonView::Object(
                    seq![
                        ("name"@, json::JsonView::Text("agent2-context-tools"@)),
                        ("version"@, json::JsonView::Text("0.1.0"@)),
                    ],
                ),
            ),
            (
                "capabilities"@,
                json::JsonView::Object(
                    seq![
                        (
                            "tools"@,
                            json::JsonView::Object(
                                seq![
                                    ("list"@, json::JsonView::Bool(true)),
                                    ("call"@, json::JsonView::Bool(true)),
                                ],
                            ),
                        ),
                        (
                            "logging"@,
                            json::JsonView::Object(
                                seq![
                                    ("levels"@, json::texts_view(seq!["debug"@])),
                                    ("alwaysOn"@, json::JsonView::Bool(true)),
                                ],
                            ),
                        ),
                    ],
                ),
            ),
        ],
    )
}

fn pair(a: &str, x: Json, b: &str, y: Json) -> (r: Json)
    ensures
        r@ == json::JsonView::Object(seq![(a@, x@), (b@, y@)]),
{
    broadcast use json::object_view;

    let mut fields: Vec<(String, Json)> = Vec::new();
    fields.push((a.to_owned(), x));
    fields.push((b.to_owned(), y));
    assert(json::fields_view(fields@) =~= seq![(a@, x@), (b@, y@)]);
    Json::Object(fields)
}

fn single(a: &str, x: Json) -> (r: Json)
    ensures
        r@ == json::JsonView::Object(seq![(a@, x@)]),
{
    broadcast use json::object_view;

    let mut fields: Vec<(String, Json)> = Vec::new();
    fields.push((a.to_owned(), x));
    assert(json::fields_view(fields@) =~= seq![(a@, x@)]);
    Json::Object(fields)
}

/// The answer to a request that opens the conversation.
pub fn handle_initialize(id: Json) -> (r: Json)
    ensures
        r@ == success(id@, server_info()),
{
    broadcast use json::object_view;

    let mut levels: Vec<String> = Vec::new();
    levels.push("debug".to_owned());
    assert(text::views(levels@) =~= seq!["debug"@]);
    let name = pair(
        "name",
        Json::Text("agent2-context-tools".to_owned()),
        "version",
        Json::Text("0.1.0".to_owned()),
    );
    let tools = pair("list", Json::Bool(true), "call", Json::Bool(true));
    let logging = pair("levels", json::texts_value(&levels), "alwaysOn", Json::Bool(true));
    let capabilities = pair("tools", tools, "logging", logging);
    let mut fields: Vec<(String, Json)> = Vec::new();
    fields.push(("protocolVersion".to_owned(), Json::Text("2024-11-05".to_owned())));
    fields.push(("serverInfo".to_owned(), name));
    fields.push(("capabilities".to_owned(), capabilities));
    assert(json::fields_view(fields@) =~= server_info()->Object_0);
    success_value(id, Json::Object(fields))
}

/// What is said of a tool.
pub open spec fn tool_json(t: MetadataView) -> json::JsonView {
    json::JsonView::Object(
        seq![
            ("name"@, json::JsonView::Text(t.name)),
            ("description"@, json::JsonView::Text(t.description)),
            ("schemaVersion"@, json::JsonView::Unsigned(1)),
            ("inputSchema"@, t.input_schema),
        ],
    )
}

fn tool_value(t: &ToolMetadata) -> (r: Json)
    ensures
        r@ == tool_json(t@),
{
    broadcast use json::object_view;

    let mut fields: Vec<(String, Json)> = Vec::new();
    fields.push(("name".to_owned(), Json::Text(t.name.clone())));
    fields.push(("description".to_owned(), Json::Text(t.description.clone())));
    fields.push(("schemaVersion".to_owned(), Json::Unsigned(1)));
    fields.push(("inputSchema".to_owned(), t.input_schema.copy()));
    assert(json::fields_view(fields@) =~= tool_json(t@)->Object_0);
    Json::Object(fields)
}

/// What is said of tools.
pub open spec fn tools_json(tools: Seq<MetadataView>) -> json::JsonView {
    json::JsonView::Object(
        seq![("tools"@, json::JsonView::Array(tools.map_values(|t: MetadataView| tool_json(t))))],
    )
}

fn tool_values(tools: &Vec<ToolMetadata>) -> (r: Vec<Json>)
    ensures
        json::items_view(r@) == metadata_views(tools@).map_values(
            |t: MetadataView| tool_json(t),
        ),
{
    let ghost all = metadata_views(tools@).map_values(|t: MetadataView| tool_json(t));
    let mut out: Vec<Json> = Vec::new();
    assert(json::items_view(out@) =~= all.take(0));
    for i in 0..tools.len()
        invariant
            all == metadata_views(tools@).map_values(|t: MetadataView| tool_json(t)),
            json::items_view(out@) == all.take(i as int),
    {
        let value = tool_value(&tools[i]);
        let ghost seen = out@;
        out.push(value);
        assert(json::items_view(out@) =~= json::items_view(seen).push(value@));
        assert(all[i as int] == value@);
        assert(all.take(i + 1) =~= all.take(i as int).push(value@));
    }
    assert(all.take(all.len() as int) =~= all);
    out
}

/// The answer to a request for the tools.
pub fn handle_tools_list(id: Json, state: &BridgeState) -> (r: Json)
    ensures
        r@ == success(id@, tools_json(metadata_views(state.tools@))),
{
    broadcast use json::array_view;

    let items = Json::Array(tool_values(&state.tools));
    success_value(id, single("tools", items))
}

/// Why a tool is not called.
pub open spec fn call_error(
    name: Option<Seq<char>>,
    tools: Seq<MetadataView>,
    ready: bool,
) -> Option<Seq<char>> {
    match name {
        None => Some("Missing string field 'name'"@),
        Some(n) => if tool_index(tools, n) is None {
            Some("Unknown tool '"@ + n + "'"@)
        } else if !ready {
            Some("Bridge not yet fully initialized; tool '"@ + n + "' unavailable"@)
        } else {
            None
        },
    }
}

/// The arguments of a call; none, where it has none.
pub open spec fn call_arguments(params: json::JsonView) -> json::JsonView {
    match json::field(params, "arguments"@) {
        Some(a) => a,
        None => json::JsonView::Object(Seq::empty()),
    }
}

/// A call of a tool.
#[derive(Debug)]
pub struct ToolCall {
    pub name: String,
    pub arguments: Json,
}

fn empty_object() -> (r: Json)
    ensures
        r@ == json::JsonView::Object(Seq::empty()),
{
    broadcast use json::object_view;

    let fields: Vec<(String, Json)> = Vec::new();
    assert(json::fields_view(fields@) =~= Seq::empty());
    Json::Object(fields)
}

/// Reads a call of a tool, or says why the tool is not called.
pub fn plan_call(params: &Json, state: &BridgeState) -> (r: Result<ToolCall, String>)
    ensures
        match call_error(
            json::text_field(params@, "name"@),
            metadata_views(state.tools@),
            state.ready,
        ) {
            Some(e) => r matches Err(f) && f@ == e,
            None => r matches Ok(c) && Some(c.name@) == json::text_field(params@, "name"@)
                && c.arguments@ == call_arguments(params@),
        },
{
    let name = match params.get("name") {
        Some(v) => match v.as_str() {
            Some(s) => s,
            None => return Err("Missing string field 'name'".to_owned()),
        },
        None => return Err("Missing string field 'name'".to_owned()),
    };
    if find_tool(&state.tools, name.as_str()).is_none() {
        let mut out = "Unknown tool '".to_owned();
        out.append(name.as_str());
        out.append("'");
        return Err(out);
    }
    if !state.ready {
        let mut out = "Bridge not yet fully initialized; tool '".to_owned();
        out.append(name.as_str());
        out.append("' unavailable");
        return Err(out);
    }
    let arguments = match params.get("arguments") {
        Some(a) => a.copy(),
        None => empty_object(),
    };
    Ok(ToolCall { name: name.clone(), arguments })
}

/// What a tool gave back, in an answer: the text to show, if there is one, and the value.
pub open spec fn call_content(output: json::JsonView, display: Option<Seq<char>>) -> Seq<
    json::JsonView,
> {
    let value = json::JsonView::Object(
        seq![("type"@, json::JsonView::Text("json"@)), ("json"@, output)],
    );
    match display {
        Some(t) => seq![
            json::JsonView::Object(
                seq![
                    ("type"@, json::JsonView::Text("text"@)),
                    ("text"@, json::JsonView::Text(t)),
                ],
            ),
            value,
        ],
        None => seq![value],
    }
}

/// The answer to a call of a tool. What went wrong in the call is told.
pub open spec fn call_answer(
    id: json::JsonView,
    result: Result<(json::JsonView, Option<Seq<char>>), Seq<char>>,
) -> json::JsonView {
    match result {
        Ok((output, display)) => success(
            id,
            json::JsonView::Object(
                seq![("content"@, json::JsonView::Array(call_content(output, display)))],
            ),
        ),
        Err(e) => failure(id, 500, e),
    }
}

/// What came of a call.
pub open spec fn result_view(r: Result<InvocationResult, String>) -> Result<
    (json::JsonView, Option<Seq<char>>),
    Seq<char>,
> {
    match r {
        Ok(i) => Ok((i.output@, text::opt_view(i.display))),
        Err(e) => Err(e@),
    }
}

/// The answer to a call of a tool.
pub fn answer_call(id: Json, result: Result<InvocationResult, String>) -> (r: Json)
    ensures
        r@ == call_answer(id@, result_view(result)),
{
    broadcast use json::array_view;

    match result {
        Ok(i) => {
            let mut items: Vec<Json> = Vec::new();
            if let Some(t) = &i.display {
                items.push(
                    pair(
                        "type",
                        Json::Text("text".to_owned()),
                        "text",
                        Json::Text(t.clone()),
                    ),
                );
            }
            items.push(pair("type", Json::Text("json".to_owned()), "json", i.output.copy()));
            assert(json::items_view(items@) =~= call_content(i.output@, text::opt_view(i.display)));
            success_value(id, single("content", Json::Array(items)))
        },
        Err(e) => failure_value(id, 500, e.as_str()),
    }
}

// ---------------------------------------------------------------------------
// Requests
// ---------------------------------------------------------------------------

/// What is done with a line: nothing, or it is answered, or a tool is called and what comes of it
/// answers the line.
#[derive(Debug)]
pub enum LineAction {
    Skip,
    Answer(Json),
    Call { id: Json, call: ToolCall },
}

/// What is done with a line.
pub ghost enum ActionView {
    Skip,
    Answer(json::JsonView),
    Call { id: json::JsonView, name: Seq<char>, arguments: json::JsonView },
}

impl View for LineAction {
    type V = ActionView;

    open spec fn view(&self) -> ActionView {
        match self {
            LineAction::Skip => ActionView::Skip,
            LineAction::Answer(j) => ActionView::Answer(j@),
            LineAction::Call { id, call } => ActionView::Call {
                id: id@,
                name: call.name@,
                arguments: call.arguments@,
            },
        }
    }
}

/// The identifier of a request.
pub open spec fn request_id(j: json::JsonView) -> json::JsonView {
    match json::field(j, "id"@) {
        Some(id) => id,
        None => json::JsonView::Null,
    }
}

/// What a request asks for.
pub open spec fn request_method(j: json::JsonView) -> Seq<char> {
    match json::text_field(j, "method"@) {
        Some(m) => m,
        None => "<missing>"@,
    }
}

/// The parameters of a request.
pub open spec fn request_params(j: json::JsonView) -> json::JsonView {
    match json::field(j, "params"@) {
        Some(p) => p,
        None => json::JsonView::Object(Seq::empty()),
    }
}

/// What is done with a request.
pub open spec fn request_action(
    j: json::JsonView,
    tools: Seq<MetadataView>,
    ready: bool,
) -> ActionView {
    let id = request_id(j);
    let method = request_method(j);
    if method == "initialize"@ {
        ActionView::Answer(success(id, server_info()))
    } else if method == "tools/list"@ {
        ActionView::Answer(success(id, tools_json(tools)))
    } else if method == "tools/call"@ {
        let params = request_params(j);
        let name = json::text_field(params, "name"@);
        match call_error(name, tools, ready) {
            Some(e) => ActionView::Answer(failure(id, 500, e)),
            None => ActionView::Call { id, name: name->0, arguments: call_arguments(params) },
        }
    } else {
        ActionView::Answer(failure(id, 400, "Unsupported method: "@ + method))
    }
}

/// Decides what is done with a request.
pub fn handle_request(j: &Json, state: &BridgeState) -> (r: LineAction)
    ensures
        r@ == request_action(j@, metadata_views(state.tools@), state.ready),
{
    let id = match j.get("id") {
        Some(v) => v.copy(),
        None => Json::Null,
    };
    let method = match j.get("method") {
        Some(v) => match v.as_str() {
            Some(s) => s.clone(),
            None => "<missing>".to_owned(),
        },
        None => "<missing>".to_owned(),
    };
    if text::same(method.as_str(), "initialize") {
        LineAction::Answer(handle_initialize(id))
    } else if text::same(method.as_str(), "tools/list") {
        LineAction::Answer(handle_tools_list(id, state))
    } else if text::same(method.as_str(), "tools/call") {
        let params = match j.get("params") {
            Some(p) => p.copy(),
            None => empty_object(),
        };
        match plan_call(&params, state) {
            Ok(call) => LineAction::Call { id, call },
            Err(e) => LineAction::Answer(failure_value(id, 500, e.as_str())),
        }
    } else {
        let mut message = "Unsupported method: ".to_owned();
        message.append(method.as_str());
        LineAction::Answer(failure_value(id, 400, message.as_str()))
    }
}

/// Decides what is done with a line. One that is blank or no JSON is passed over.
pub fn handle_line(line: &str, state: &BridgeState) -> (r: LineAction)
    ensures
        r@ == if text::trim(line@).len() == 0 {
            ActionView::Skip
        } else {
            match json::parsed_json(text::trim(line@)) {
                Ok(j) => request_action(j, metadata_views(state.tools@), state.ready),
                Err(_) => ActionView::Skip,
            }
        },
{
    let trimmed = text::trim_text(line);
    if trimmed.as_str().unicode_len() == 0 {
        return LineAction::Skip;
    }
    match json::from_str(trimmed.as_str()) {
        Ok(j) => handle_request(&j, state),
        Err(_) => LineAction::Skip,
    }
}

// ---------------------------------------------------------------------------
// Laws
// ---------------------------------------------------------------------------

/// A tool that is served is found under its name, and no other is changed.
pub proof fn registered_tools_are_found(
    tools: Seq<MetadataView>,
    tool: MetadataView,
    other: Seq<char>,
)
    ensures
        tool_index(registered(tools, tool), tool.name) matches Some(i) && registered(
            tools,
            tool,
        )[i] == tool,
        other != tool.name ==> match tool_index(tools, other) {
            Some(i) => tool_index(registered(tools, tool), other) == Some(i) && registered(
                tools,
                tool,
            )[i] == tools[i],
            None => tool_index(registered(tools, tool), other) is None,
        },
{
    let now = registered(tools, tool);
    tool_index_is_first(tools, tool.name);
    tool_index_is_first(tools, other);
    tool_index_is_first(now, tool.name);
    tool_index_is_first(now, other);
    let at = match tool_index(tools, tool.name) {
        Some(i) => i,
        None => tools.len() as int,
    };
    assert(now[at] == tool);
    assert forall|j: int| 0 <= j < tools.len() && j != at implies (#[trigger] now[j])
        == tools[j] by {}
    let found = tool_index(now, tool.name)->0;
    if found < at {
        assert(now[found] == tools[found]);
    }
    if other != tool.name {
        match (tool_index(tools, other), tool_index(now, other)) {
            (Some(i), Some(k)) => {
                assert(now[i] == tools[i]);
                assert(now[k] == tools[k]);
            },
            (Some(i), None) => {
                assert(now[i] == tools[i]);
            },
            (None, Some(k)) => {
                assert(now[k] == tools[k]);
            },
            (None, None) => {},
        }
    }
}

proof fn tool_index_is_first(tools: Seq<MetadataView>, name: Seq<char>)
    ensures
        match tool_index(tools, name) {
            Some(i) => 0 <= i < tools.len() && tools[i].name == name && forall|j: int|
                0 <= j < i ==> (#[trigger] tools[j]).name != name,
            None => forall|j: int| 0 <= j < tools.len() ==> (#[trigger] tools[j]).name != name,
        },
    decreases tools.len(),
{
    if tools.len() > 0 {
        let less = tools.drop_last();
        tool_index_is_first(less, name);
        assert forall|j: int| 0 <= j < less.len() implies (#[trigger] tools[j]) == less[j] by {}
    }
}

/// Before all is ready no tool is called.
pub proof fn nothing_is_called_too_early(j: json::JsonView, tools: Seq<MetadataView>)
    ensures
        !(request_action(j, tools, false) is Call),
{
}

/// An answer carries the identifier of its request.
pub proof fn answers_carry_the_request_id(
    j: json::JsonView,
    tools: Seq<MetadataView>,
    ready: bool,
)
    ensures
        request_action(j, tools, ready) matches ActionView::Answer(a) ==> json::field(a, "id"@)
            == Some(request_id(j)),
        request_action(j, tools, ready) matches ActionView::Call { id, .. } ==> id == request_id(j),
{
    reveal_strlit("jsonrpc");
    reveal_strlit("id");
    assert("jsonrpc"@.len() != "id"@.len());
    match request_action(j, tools, ready) {
        ActionView::Answer(a) => {
            let fields = a->Object_0;
            assert(fields[1].0 == "id"@ && fields[1].1 == request_id(j));
            assert(fields[0].0 == "jsonrpc"@);
            json::first_field(fields, 1);
        },
        _ => {},
    }
}

} // verus!
