//! What holds between those that send a request and those that answer it.

use vstd::prelude::*;

use crate::cli;
use crate::json;
use crate::mcp_bridge;
use crate::request_laws;
use crate::text;
use crate::tools::laws;

verus! {

/// A request that the command line sends is read as the call that it is meant to be, where the tool
/// is served.
pub proof fn requests_are_read_as_calls(
    name: Seq<char>,
    arguments: json::JsonView,
    tools: Seq<mcp_bridge::MetadataView>,
)
    requires
        mcp_bridge::tool_index(tools, name) is Some,
    ensures
        mcp_bridge::request_action(cli::request(name, arguments), tools, true)
            == (mcp_bridge::ActionView::Call {
            id: json::JsonView::Unsigned(cli::REQUEST_ID),
            name,
            arguments,
        }),
{
    reveal_strlit("jsonrpc");
    reveal_strlit("id");
    reveal_strlit("method");
    reveal_strlit("params");
    reveal_strlit("name");
    reveal_strlit("arguments");
    reveal_strlit("initialize");
    reveal_strlit("tools/list");
    reveal_strlit("tools/call");
    assert("tools/list"@[6] != "tools/call"@[6]);
    assert("initialize"@[0] != "tools/call"@[0]);
    assert("method"@[0] != "params"@[0]);
    let j = cli::request(name, arguments);
    let fields = j->Object_0;
    assert(fields[0].0 == "jsonrpc"@);
    assert(fields[1].0 == "id"@);
    assert(fields[2].0 == "method"@);
    assert(fields[3].0 == "params"@);
    json::first_field(fields, 1);
    json::first_field(fields, 2);
    json::first_field(fields, 3);
    let params = fields[3].1->Object_0;
    assert(params[0].0 == "name"@);
    assert(params[1].0 == "arguments"@);
    json::first_field(params, 0);
    json::first_field(params, 1);
}

/// What a tool says in a text is what the command line shows, and what went wrong is told.
pub proof fn answers_are_read(result: Result<Seq<char>, Seq<char>>)
    ensures
        ({
            let id = json::JsonView::Unsigned(cli::REQUEST_ID);
            let sent = mcp_bridge::call_answer(
                id,
                match result {
                    Ok(t) => Ok((json::JsonView::Text(t), Some(t))),
                    Err(e) => Err(e),
                },
            );
            &&& cli::is_answer(sent)
            &&& match result {
                Ok(t) => t.len() > 0 ==> cli::answer(sent) == Ok::<Seq<char>, Seq<char>>(t),
                Err(_) => true,
            }
            &&& result is Err ==> cli::answer(sent) is Err
        }),
{
    reveal_strlit("jsonrpc");
    reveal_strlit("id");
    reveal_strlit("result");
    reveal_strlit("error");
    reveal_strlit("content");
    reveal_strlit("type");
    reveal_strlit("text");
    reveal_strlit("json");
    assert("type"@[1] != "text"@[1]);
    assert("text"@[0] != "json"@[0]);
    assert("type"@[0] != "json"@[0]);
    let id = json::JsonView::Unsigned(cli::REQUEST_ID);
    match result {
        Ok(t) => {
            let sent = mcp_bridge::call_answer(id, Ok((json::JsonView::Text(t), Some(t))));
            let fields = sent->Object_0;
            assert(fields[0].0 == "jsonrpc"@ && fields[1].0 == "id"@ && fields[2].0 == "result"@);
            json::first_field(fields, 1);
            json::first_field(fields, 2);
            json::no_field(fields, "error"@);
            let inner = fields[2].1->Object_0;
            assert(inner[0].0 == "content"@);
            json::first_field(inner, 0);
            let items = inner[0].1->Array_0;
            let first = items[0]->Object_0;
            let second = items[1]->Object_0;
            assert(first[0].0 == "type"@ && first[1].0 == "text"@);
            json::first_field(first, 1);
            assert(second[0].0 == "type"@ && second[1].0 == "json"@);
            json::no_field(second, "text"@);
            reveal_with_fuel(cli::answer_texts, 3);
            assert(items.drop_last() =~= seq![items[0]]);
            assert(items.drop_last().drop_last() =~= Seq::<json::JsonView>::empty());
            assert(cli::answer_texts(items.drop_last()) == t);
        },
        Err(e) => {
            let sent = mcp_bridge::call_answer(id, Err(e));
            let fields = sent->Object_0;
            assert(fields[0].0 == "jsonrpc"@ && fields[1].0 == "id"@ && fields[2].0 == "error"@);
            json::first_field(fields, 1);
            json::first_field(fields, 2);
        },
    }
}

// ---------------------------------------------------------------------------
// Serving
// ---------------------------------------------------------------------------

/// Whether an answer is for a request and holds a result.
pub open spec fn is_success(
    answer: json::JsonView,
    id: json::JsonView,
    result: json::JsonView,
) -> bool {
    answer matches json::JsonView::Object(fields) && fields.len() == 3 && fields.contains(
        ("jsonrpc"@, json::JsonView::Text("2.0"@)),
    ) && fields.contains(("id"@, id)) && fields.contains(("result"@, result))
}

/// Whether an answer is for a request and says what went wrong.
pub open spec fn is_failure(
    answer: json::JsonView,
    id: json::JsonView,
    code: u64,
    message: Seq<char>,
) -> bool {
    answer matches json::JsonView::Object(fields) && fields.len() == 3 && fields.contains(
        ("jsonrpc"@, json::JsonView::Text("2.0"@)),
    ) && fields.contains(("id"@, id)) && exists|error: json::JsonView|
        fields.contains(("error"@, error)) && #[trigger] laws::has_entry(
            error,
            "code"@,
            json::JsonView::Unsigned(code),
        ) && laws::has_entry(error, "message"@, json::JsonView::Text(message))
}

proof fn success_is_success(id: json::JsonView, result: json::JsonView)
    ensures
        is_success(mcp_bridge::success(id, result), id, result),
{
    let fields = mcp_bridge::success(id, result)->Object_0;
    assert(fields[0] == ("jsonrpc"@, json::JsonView::Text("2.0"@)));
    assert(fields[1] == ("id"@, id));
    assert(fields[2] == ("result"@, result));
}

proof fn failure_is_failure(id: json::JsonView, code: i32, message: Seq<char>)
    requires
        0 <= code,
    ensures
        is_failure(mcp_bridge::failure(id, code, message), id, code as u64, message),
{
    let fields = mcp_bridge::failure(id, code, message)->Object_0;
    assert(fields[0] == ("jsonrpc"@, json::JsonView::Text("2.0"@)));
    assert(fields[1] == ("id"@, id));
    let error = fields[2].1;
    assert(fields[2] == ("error"@, error));
    let inner = error->Object_0;
    assert(inner[0] == ("code"@, json::JsonView::Unsigned(code as u64)));
    assert(inner[1] == ("message"@, json::JsonView::Text(message)));
    assert(laws::has_entry(error, "code"@, json::JsonView::Unsigned(code as u64)));
}

/// What a client is told of a tool.
pub open spec fn describes(item: json::JsonView, tool: mcp_bridge::MetadataView) -> bool {
    &&& laws::has_entry(item, "name"@, json::JsonView::Text(tool.name))
    &&& laws::has_entry(item, "description"@, json::JsonView::Text(tool.description))
    &&& laws::has_entry(item, "inputSchema"@, tool.input_schema)
}

/// A client that asks for the tools is told of every tool that is served, in order, under the identifier
/// of its request.
pub proof fn every_tool_is_told(
    j: json::JsonView,
    tools: Seq<mcp_bridge::MetadataView>,
    ready: bool,
)
    requires
        json::text_field(j, "method"@) == Some("tools/list"@),
    ensures
        mcp_bridge::request_action(j, tools, ready) matches mcp_bridge::ActionView::Answer(answer)
            && exists|items: Seq<json::JsonView>|
            {
                &&& #[trigger] is_success(
                    answer,
                    mcp_bridge::request_id(j),
                    json::JsonView::Object(seq![("tools"@, json::JsonView::Array(items))]),
                )
                &&& items.len() == tools.len()
                &&& forall|i: int| 0 <= i < tools.len() ==> describes(#[trigger] items[i], tools[i])
            },
{
    reveal_strlit("initialize");
    reveal_strlit("tools/list");
    assert("initialize"@[0] != "tools/list"@[0]);
    let fields = mcp_bridge::tools_json(tools)->Object_0;
    let items = fields[0].1->Array_0;
    assert(fields =~= seq![("tools"@, json::JsonView::Array(items))]);
    let id = mcp_bridge::request_id(j);
    success_is_success(id, mcp_bridge::tools_json(tools));
    assert(is_success(
        mcp_bridge::request_action(j, tools, ready)->Answer_0,
        id,
        json::JsonView::Object(seq![("tools"@, json::JsonView::Array(items))]),
    ));
    assert forall|i: int| 0 <= i < tools.len() implies describes(#[trigger] items[i], tools[i]) by {
        let fields = items[i]->Object_0;
        assert(fields[0] == ("name"@, json::JsonView::Text(tools[i].name)));
        assert(fields[1] == ("description"@, json::JsonView::Text(tools[i].description)));
        assert(fields[3] == ("inputSchema"@, tools[i].input_schema));
    }
}

/// A tool is called exactly where all is ready and a tool with the name that is given is served: under
/// that name, and with the arguments that are given. Else the client is told why not.
pub proof fn served_tools_are_called(
    j: json::JsonView,
    tools: Seq<mcp_bridge::MetadataView>,
    ready: bool,
)
    requires
        json::text_field(j, "method"@) == Some("tools/call"@),
    ensures
        ({
            let id = mcp_bridge::request_id(j);
            let params = mcp_bridge::request_params(j);
            let name = json::text_field(params, "name"@);
            let there = name is Some && exists|i: int|
                0 <= i < tools.len() && (#[trigger] tools[i]).name == name->0;
            let action = mcp_bridge::request_action(j, tools, ready);
            &&& there && ready ==> action == (mcp_bridge::ActionView::Call {
                id,
                name: name->0,
                arguments: match json::field(params, "arguments"@) {
                    Some(a) => a,
                    None => json::JsonView::Object(Seq::empty()),
                },
            })
            &&& there && !ready ==> (action matches mcp_bridge::ActionView::Answer(a) && is_failure(
                a,
                id,
                500,
                "Bridge not yet fully initialized; tool '"@ + name->0 + "' unavailable"@,
            ))
            &&& !there && name is Some ==> (action matches mcp_bridge::ActionView::Answer(a)
                && is_failure(a, id, 500, "Unknown tool '"@ + name->0 + "'"@))
            &&& name is None ==> (action matches mcp_bridge::ActionView::Answer(a) && is_failure(
                a,
                id,
                500,
                "Missing string field 'name'"@,
            ))
        }),
{
    reveal_strlit("initialize");
    reveal_strlit("tools/list");
    reveal_strlit("tools/call");
    assert("tools/list"@[6] != "tools/call"@[6]);
    let id = mcp_bridge::request_id(j);
    let name = json::text_field(mcp_bridge::request_params(j), "name"@);
    if let Some(n) = name {
        tools_are_found(tools, n);
    }
    if let Some(e) = mcp_bridge::call_error(name, tools, ready) {
        failure_is_failure(id, 500, e);
    }
}

/// A tool is found where one with its name is served.
pub proof fn tools_are_found(tools: Seq<mcp_bridge::MetadataView>, name: Seq<char>)
    ensures
        mcp_bridge::tool_index(tools, name) is Some <==> exists|i: int|
            0 <= i < tools.len() && (#[trigger] tools[i]).name == name,
        mcp_bridge::tool_index(tools, name) matches Some(i) ==> 0 <= i < tools.len()
            && tools[i].name == name,
    decreases tools.len(),
{
    if tools.len() > 0 {
        let less = tools.drop_last();
        tools_are_found(less, name);
        assert(tools[tools.len() - 1] == tools.last());
        if exists|i: int| 0 <= i < tools.len() && (#[trigger] tools[i]).name == name {
            let i = choose|i: int| 0 <= i < tools.len() && (#[trigger] tools[i]).name == name;
            if i < less.len() {
                assert(less[i].name == name);
            }
        }
        if exists|i: int| 0 <= i < less.len() && (#[trigger] less[i]).name == name {
            let i = choose|i: int| 0 <= i < less.len() && (#[trigger] less[i]).name == name;
            assert(tools[i].name == name);
        }
    }
}

/// A request that is none of those that are served is refused, and the client is told which it was.
pub proof fn other_requests_are_refused(
    j: json::JsonView,
    tools: Seq<mcp_bridge::MetadataView>,
    ready: bool,
    method: Seq<char>,
)
    requires
        json::text_field(j, "method"@) == Some(method),
        method != "initialize"@ && method != "tools/list"@ && method != "tools/call"@,
    ensures
        mcp_bridge::request_action(j, tools, ready) matches mcp_bridge::ActionView::Answer(a)
            && is_failure(a, mcp_bridge::request_id(j), 400, "Unsupported method: "@ + method),
{
    failure_is_failure(mcp_bridge::request_id(j), 400, "Unsupported method: "@ + method);
}

/// What a tool gave back is answered: its value, and before it the text to show, if there is one. What
/// went wrong is told.
pub proof fn results_are_answered(
    id: json::JsonView,
    result: Result<(json::JsonView, Option<Seq<char>>), Seq<char>>,
)
    ensures
        ({
            let answer = mcp_bridge::call_answer(id, result);
            match result {
                Err(e) => is_failure(answer, id, 500, e),
                Ok((output, display)) => exists|content: Seq<json::JsonView>|
                    {
                        &&& #[trigger] is_success(
                            answer,
                            id,
                            json::JsonView::Object(
                                seq![("content"@, json::JsonView::Array(content))],
                            ),
                        )
                        &&& content.len() == if display is Some {
                            2int
                        } else {
                            1
                        }
                        &&& laws::has_entry(content.last(), "type"@, json::JsonView::Text("json"@))
                        &&& laws::has_entry(content.last(), "json"@, output)
                        &&& display matches Some(t) ==> laws::has_entry(
                            content[0],
                            "type"@,
                            json::JsonView::Text("text"@),
                        ) && laws::has_entry(content[0], "text"@, json::JsonView::Text(t))
                    },
            }
        }),
{
    match result {
        Err(e) => {
            failure_is_failure(id, 500, e);
        },
        Ok((output, display)) => {
            let content = mcp_bridge::call_content(output, display);
            let value = json::JsonView::Object(
                seq![("content"@, json::JsonView::Array(content))],
            );
            success_is_success(id, value);
            assert(is_success(mcp_bridge::call_answer(id, result), id, value));
            let last = content.last()->Object_0;
            assert(last[0] == ("type"@, json::JsonView::Text("json"@)));
            assert(last[1] == ("json"@, output));
            if let Some(t) = display {
                let first = content[0]->Object_0;
                assert(first[0] == ("type"@, json::JsonView::Text("text"@)));
                assert(first[1] == ("text"@, json::JsonView::Text(t)));
            }
        },
    }
}

// ---------------------------------------------------------------------------
// The command line
// ---------------------------------------------------------------------------

proof fn both_hold(
    a: Seq<(Seq<char>, json::JsonView)>,
    b: Seq<(Seq<char>, json::JsonView)>,
    f: (Seq<char>, json::JsonView),
)
    ensures
        (a + b).contains(f) <==> a.contains(f) || b.contains(f),
{
    let both = a + b;
    if a.contains(f) {
        let i = choose|i: int| 0 <= i < a.len() && a[i] == f;
        assert(both[i] == f);
    }
    if b.contains(f) {
        let i = choose|i: int| 0 <= i < b.len() && b[i] == f;
        assert(both[a.len() + i] == f);
    }
    if both.contains(f) {
        let i = choose|i: int| 0 <= i < both.len() && both[i] == f;
        if i < a.len() {
            assert(a[i] == f);
        } else {
            assert(b[i - a.len()] == f);
        }
    }
}

proof fn optional_holds(
    name: Seq<char>,
    value: Option<json::JsonView>,
    f: (Seq<char>, json::JsonView),
)
    ensures
        json::optional_field(name, value).contains(f) <==> f.0 == name && value == Some(f.1),
{
    if value is Some {
        assert(json::optional_field(name, value)[0] == (name, value->0));
    }
}

/// The arguments of a call that lists the history are those that are given, and no others.
pub proof fn history_calls_say_what_is_given(
    start: Option<usize>,
    limit: Option<usize>,
    max_chars: Option<usize>,
    full: bool,
    name: Seq<char>,
    v: json::JsonView,
)
    ensures
        cli::history_arguments(start, limit, max_chars, full).contains((name, v)) <==> {
            ||| name == "start"@ && start is Some && v == json::JsonView::Unsigned(start->0 as u64)
            ||| name == "limit"@ && limit is Some && v == json::JsonView::Unsigned(limit->0 as u64)
            ||| name == "max_chars_per_message"@ && max_chars is Some && v
                == json::JsonView::Unsigned(max_chars->0 as u64)
            ||| name == "include_full_markdown"@ && full && v == json::JsonView::Bool(true)
        },
{
    let f = (name, v);
    let a = json::optional_field("start"@, cli::number(start));
    let b = json::optional_field("limit"@, cli::number(limit));
    let c = json::optional_field("max_chars_per_message"@, cli::number(max_chars));
    let d = json::optional_field("include_full_markdown"@, cli::flag(full));
    optional_holds("start"@, cli::number(start), f);
    optional_holds("limit"@, cli::number(limit), f);
    optional_holds("max_chars_per_message"@, cli::number(max_chars), f);
    optional_holds("include_full_markdown"@, cli::flag(full), f);
    both_hold(a, b, f);
    both_hold(a + b, c, f);
    both_hold(a + b + c, d, f);
}

/// The arguments of a memory call are its operation and what is given with it, and no others.
pub proof fn memory_calls_say_what_is_given(
    op: cli::MemoryOperation,
    a: cli::MemoryArguments,
    name: Seq<char>,
    v: json::JsonView,
)
    ensures
        cli::memory_arguments(op, a).contains((name, v)) <==> {
            ||| name == "operation"@ && v == json::JsonView::Text(
                match op {
                    cli::MemoryOperation::Store => "store"@,
                    cli::MemoryOperation::Load => "load"@,
                    cli::MemoryOperation::List => "list"@,
                    cli::MemoryOperation::Restore => "restore"@,
                    cli::MemoryOperation::Prune => "prune"@,
                },
            )
            ||| name == "start_index"@ && a.start_index is Some && v == json::JsonView::Unsigned(
                a.start_index->0 as u64,
            )
            ||| name == "end_index"@ && a.end_index is Some && v == json::JsonView::Unsigned(
                a.end_index->0 as u64,
            )
            ||| name == "memory_handle"@ && a.memory_handle is Some && v == json::JsonView::Text(
                a.memory_handle->0@,
            )
            ||| name == "summary"@ && a.summary is Some && v == json::JsonView::Text(a.summary->0@)
            ||| name == "auto"@ && a.auto && v == json::JsonView::Bool(true)
            ||| name == "max_preview_chars"@ && a.max_preview_chars is Some && v
                == json::JsonView::Unsigned(a.max_preview_chars->0 as u64)
            ||| name == "restore_insert_index"@ && a.restore_insert_index is Some && v
                == json::JsonView::Unsigned(a.restore_insert_index->0 as u64)
            ||| name == "remove_placeholder"@ && a.remove_placeholder && v == json::JsonView::Bool(
                true,
            )
            ||| name == "replace_placeholder_with"@ && a.replace_placeholder_with is Some && v
                == json::JsonView::Text(a.replace_placeholder_with->0@)
        },
{
    let f = (name, v);
    let s0 = seq![("operation"@, json::JsonView::Text(cli::operation_name(op)))];
    let f1 = json::optional_field("start_index"@, cli::number(a.start_index));
    let f2 = json::optional_field("end_index"@, cli::number(a.end_index));
    let f3 = json::optional_field("memory_handle"@, cli::words(a.memory_handle));
    let f4 = json::optional_field("summary"@, cli::words(a.summary));
    let f5 = json::optional_field("auto"@, cli::flag(a.auto));
    let f6 = json::optional_field("max_preview_chars"@, cli::number(a.max_preview_chars));
    let f7 = json::optional_field("restore_insert_index"@, cli::number(a.restore_insert_index));
    let f8 = json::optional_field("remove_placeholder"@, cli::flag(a.remove_placeholder));
    let f9 = json::optional_field(
        "replace_placeholder_with"@,
        cli::words(a.replace_placeholder_with),
    );
    optional_holds("start_index"@, cli::number(a.start_index), f);
    optional_holds("end_index"@, cli::number(a.end_index), f);
    optional_holds("memory_handle"@, cli::words(a.memory_handle), f);
    optional_holds("summary"@, cli::words(a.summary), f);
    optional_holds("auto"@, cli::flag(a.auto), f);
    optional_holds("max_preview_chars"@, cli::number(a.max_preview_chars), f);
    optional_holds("restore_insert_index"@, cli::number(a.restore_insert_index), f);
    optional_holds("remove_placeholder"@, cli::flag(a.remove_placeholder), f);
    optional_holds("replace_placeholder_with"@, cli::words(a.replace_placeholder_with), f);
    assert(s0.contains(f) <==> f == s0[0]) by {
        if s0.contains(f) {
            let i = choose|i: int| 0 <= i < s0.len() && s0[i] == f;
            assert(i == 0);
        }
        if f == s0[0] {
            assert(s0[0] == f);
        }
    }
    let s1 = s0 + f1;
    let s2 = s1 + f2;
    let s3 = s2 + f3;
    let s4 = s3 + f4;
    let s5 = s4 + f5;
    let s6 = s5 + f6;
    let s7 = s6 + f7;
    let s8 = s7 + f8;
    both_hold(s0, f1, f);
    both_hold(s1, f2, f);
    both_hold(s2, f3, f);
    both_hold(s3, f4, f);
    both_hold(s4, f5, f);
    both_hold(s5, f6, f);
    both_hold(s6, f7, f);
    both_hold(s7, f8, f);
    both_hold(s8, f9, f);
}

/// A memory call lacks something exactly where it stores without both ends of a range, or loads or
/// restores without a handle.
pub proof fn only_what_is_needed_is_lacking(op: cli::MemoryOperation, a: cli::MemoryArguments)
    ensures
        cli::memory_lacks(op, a) is Some <==> {
            ||| op == cli::MemoryOperation::Store && (a.start_index is None || a.end_index is None)
            ||| op == cli::MemoryOperation::Load && a.memory_handle is None
            ||| op == cli::MemoryOperation::Restore && a.memory_handle is None
        },
{
}

/// Arguments are those of a memory call exactly where they name an operation, and hold what it needs.
pub proof fn only_memory_calls_are_accepted(j: json::JsonView)
    ensures
        cli::memory_input_error(j) is None <==> {
            &&& json::text_field(j, "operation"@) matches Some(op)
            &&& {
                ||| op == "list"@ || op == "prune"@
                ||| op == "store"@ && json::field(j, "start_index"@) is Some && json::field(
                    j,
                    "end_index"@,
                ) is Some
                ||| (op == "load"@ || op == "restore"@) && json::field(
                    j,
                    "memory_handle"@,
                ) is Some
            }
        },
{
    reveal_strlit("list");
    reveal_strlit("prune");
    reveal_strlit("store");
    reveal_strlit("load");
    reveal_strlit("restore");
    assert("list"@[0] != "load"@[0] || "list"@[1] != "load"@[1]);
    assert("prune"@[0] != "store"@[0]);
}

/// The texts of an answer stand one in a line, in order; what has no text says nothing.
pub proof fn answers_say_all_texts(items: Seq<json::JsonView>)
    requires
        forall|i: int|
            0 <= i < items.len() ==> (json::text_field(#[trigger] items[i], "text"@) matches Some(
                t,
            ) ==> t.len() > 0),
    ensures
        cli::answer_texts(items) == text::join(
            items.filter_map(|j: json::JsonView| json::text_field(j, "text"@)),
            "\n"@,
        ),
        cli::answer_texts(items).len() == 0 <==> items.filter_map(
            |j: json::JsonView| json::text_field(j, "text"@),
        ).len() == 0,
    decreases items.len(),
{
    let f = |j: json::JsonView| json::text_field(j, "text"@);
    reveal(Seq::filter_map);
    reveal_strlit("\n");
    if items.len() > 0 {
        let less = items.drop_last();
        assert forall|i: int| 0 <= i < less.len() implies (json::text_field(
            #[trigger] less[i],
            "text"@,
        ) matches Some(t) ==> t.len() > 0) by {
            assert(less[i] == items[i]);
        }
        answers_say_all_texts(less);
        let before = less.filter_map(f);
        assert(items.last() == items[items.len() - 1]);
        if let Some(t) = f(items.last()) {
            let now = items.filter_map(f);
            assert(now =~= before.push(t));
            assert(now.drop_last() =~= before);
        }
    }
}

/// An answer that tells of an error is no text; one with a result says its texts; a line that answers
/// another request is passed over.
pub proof fn errors_are_not_taken_for_texts(root: json::JsonView)
    ensures
        json::field(root, "error"@) is Some ==> cli::answer(root) is Err,
        cli::answer(root) is Ok <==> json::field(root, "error"@) is None && (json::field(
            root,
            "result"@,
        ) matches Some(result) && (json::field(result, "content"@) matches Some(content)
            && content is Array)),
        cli::is_answer(root) <==> json::field(root, "id"@) == Some(json::JsonView::Unsigned(1)),
{
}

/// Arguments that are not given, or blank, say nothing; others say what they hold.
pub proof fn given_arguments_are_read(raw: Seq<char>)
    ensures
        cli::raw_arguments(None) == Ok::<json::JsonView, Seq<char>>(
            json::JsonView::Object(Seq::empty()),
        ),
        text::trim(raw).len() == 0 ==> cli::raw_arguments(Some(raw)) == Ok::<
            json::JsonView,
            Seq<char>,
        >(json::JsonView::Object(Seq::empty())),
        text::trim(raw).len() > 0 ==> cli::raw_arguments(Some(raw)) == json::parsed_json(raw),
{
}

/// What follows a line: its text, where it answers the request; the error, where it tells of one; and
/// the next line, where it answers another request, or none.
pub proof fn lines_are_followed(
    r: cli::ReadStep,
    line: Seq<char>,
    value: Result<json::JsonView, Seq<char>>,
)
    requires
        cli::step_matches(r, line, value),
    ensures
        value is Err ==> r is More,
        value matches Ok(j) ==> {
            &&& json::field(j, "id"@) != Some(json::JsonView::Unsigned(1)) ==> r is More
            &&& json::field(j, "id"@) == Some(json::JsonView::Unsigned(1)) ==> !(r is More)
            &&& (json::field(j, "id"@) == Some(json::JsonView::Unsigned(1)) && json::field(
                j,
                "error"@,
            ) is Some) ==> r is Failed
            &&& (json::field(j, "id"@) == Some(json::JsonView::Unsigned(1)) && cli::answer(j) is Ok)
                ==> (r matches cli::ReadStep::Done(d) && d.concatenated_text@ == cli::answer(
                j,
            )->Ok_0 && d.full_json@ == text::trim(line))
        },
{
}

/// An error in words names what it is about.
pub proof fn errors_name_their_subject(name: String)
    ensures
        request_laws::has_part(cli::error_text(cli::CliError::EmptySocketFile(name)), name@),
        request_laws::has_part(cli::error_text(cli::CliError::NeedsHandle(name)), name@),
        request_laws::has_part(cli::error_text(cli::CliError::UnknownOperation(name)), name@),
        request_laws::has_part(cli::error_text(cli::CliError::UnsupportedTool(name)), name@),
        request_laws::has_part(cli::error_text(cli::CliError::Tool(name)), name@),
{
    let none = Seq::<char>::empty();
    assert(cli::error_text(cli::CliError::EmptySocketFile(name)) == "socket path file "@ + name@
        + " was empty"@);
    assert(cli::error_text(cli::CliError::NeedsHandle(name)) =~= none + name@
        + " operation requires --memory-handle"@);
    assert(cli::error_text(cli::CliError::UnknownOperation(name))
        =~= "unknown memory operation: "@ + name@ + none);
    assert(cli::error_text(cli::CliError::UnsupportedTool(name)) == "unsupported tool '"@ + name@
        + "'. Allowed: list_history, memory"@);
    assert(cli::error_text(cli::CliError::Tool(name)) =~= "tool error: "@ + name@ + none);
}

/// A request is read by its fields: without an identifier it has none, and without parameters none.
pub proof fn requests_are_read_by_their_fields(j: json::JsonView)
    ensures
        json::field(j, "id"@) is Some ==> mcp_bridge::request_id(j) == json::field(j, "id"@)->0,
        json::field(j, "id"@) is None ==> mcp_bridge::request_id(j) is Null,
        json::field(j, "params"@) is Some ==> mcp_bridge::request_params(j) == json::field(
            j,
            "params"@,
        )->0,
        json::field(j, "params"@) is None ==> mcp_bridge::request_params(j)
            == json::JsonView::Object(Seq::empty()),
        json::text_field(j, "method"@) is Some ==> mcp_bridge::request_method(j)
            == json::text_field(j, "method"@)->0,
{
}

/// A request that opens the conversation is answered with the version of the protocol and the name of
/// the server.
pub proof fn the_server_says_who_it_is(
    j: json::JsonView,
    tools: Seq<mcp_bridge::MetadataView>,
    ready: bool,
)
    requires
        json::text_field(j, "method"@) == Some("initialize"@),
    ensures
        mcp_bridge::request_action(j, tools, ready) matches mcp_bridge::ActionView::Answer(answer)
            && exists|info: json::JsonView, name: json::JsonView|
            {
                &&& is_success(answer, mcp_bridge::request_id(j), info)
                &&& laws::has_entry(
                    info,
                    "protocolVersion"@,
                    json::JsonView::Text("2024-11-05"@),
                )
                &&& #[trigger] laws::has_entry(info, "serverInfo"@, name)
                &&& laws::has_entry(name, "name"@, json::JsonView::Text("agent2-context-tools"@))
            },
{
    let info = mcp_bridge::server_info();
    success_is_success(mcp_bridge::request_id(j), info);
    let f = info->Object_0;
    assert(f[0] == ("protocolVersion"@, json::JsonView::Text("2024-11-05"@)));
    let name = f[1].1;
    assert(f[1] == ("serverInfo"@, name));
    assert(name->Object_0[0] == ("name"@, json::JsonView::Text("agent2-context-tools"@)));
    assert(laws::has_entry(info, "serverInfo"@, name));
}

/// The last segment of the path of a type is what stands behind its last pair of colons; all of it, where
/// there is none.
pub proof fn types_are_named_by_their_last_segment(path: Seq<char>, at: int)
    ensures
        (text::stands_at(path, "::"@, at) && forall|i: int|
            at < i <= path.len() ==> !text::stands_at(path, "::"@, i)) ==> mcp_bridge::last_segment(
            path,
        ) == path.skip(at + 2),
        (forall|i: int| 0 <= i <= path.len() ==> !text::stands_at(path, "::"@, i))
            ==> mcp_bridge::last_segment(path) == path,
{
    if text::stands_at(path, "::"@, at) && forall|i: int|
        at < i <= path.len() ==> !text::stands_at(path, "::"@, i) {
        last_is_found(path, "::"@, path.len() as int, at);
    }
    if forall|i: int| 0 <= i <= path.len() ==> !text::stands_at(path, "::"@, i) {
        none_is_found(path, "::"@, path.len() as int);
    }
}

proof fn last_is_found(s: Seq<char>, part: Seq<char>, from: int, at: int)
    requires
        text::stands_at(s, part, at),
        at <= from,
        forall|i: int| at < i <= from ==> !text::stands_at(s, part, i),
    ensures
        mcp_bridge::last_at(s, part, from) == Some(at),
    decreases from - at,
{
    if at < from {
        assert(!text::stands_at(s, part, from));
        last_is_found(s, part, from - 1, at);
    }
}

proof fn none_is_found(s: Seq<char>, part: Seq<char>, from: int)
    requires
        forall|i: int| 0 <= i <= from ==> !text::stands_at(s, part, i),
    ensures
        mcp_bridge::last_at(s, part, from) is None,
    decreases from + 1,
{
    if 0 <= from {
        assert(!text::stands_at(s, part, from));
        none_is_found(s, part, from - 1);
    }
}

} // verus!
