//! Running a tool of a thread by its name, for another program.

use vstd::prelude::*;

use crate::json;
use crate::json::Json;
use crate::text;
use crate::thread::Thread;

verus! {

/// A call of a context tool by its name.
#[derive(Debug)]
pub struct CallContextToolInput {
    pub name: String,
    pub arguments: Option<Json>,
}

/// Why a tool cannot be run.
#[derive(Debug)]
pub enum ExecutionError {
    /// The tool that calls others cannot be called itself.
    CallContextToolUnavailable,
    ThreadGone,
    UnsupportedTool(String),
}

impl ExecutionError {
    /// The error in words.
    pub fn message(&self) -> (r: String)
        ensures
            r@ == match self {
                ExecutionError::CallContextToolUnavailable =>
                    "'call_context_tool' not available (pending AgentTool wrapper)"@,
                ExecutionError::ThreadGone => "thread no longer exists"@,
                ExecutionError::UnsupportedTool(name) => "unsupported tool: "@ + name@,
            },
    {
        match self {
            ExecutionError::CallContextToolUnavailable =>
                "'call_context_tool' not available (pending AgentTool wrapper)".to_owned(),
            ExecutionError::ThreadGone => "thread no longer exists".to_owned(),
            ExecutionError::UnsupportedTool(name) => {
                let mut out = "unsupported tool: ".to_owned();
                out.append(name.as_str());
                out
            },
        }
    }
}

/// A tool that is to be run: its input, and the identifier of the run.
#[derive(Debug)]
pub struct Execution {
    pub input: Json,
    pub run_id: String,
}

/// Decides whether a tool is run, and with what input: without arguments, with an empty object.
pub fn plan_execution(thread: Option<&Thread>, name: &str, args: Option<Json>) -> (r: Result<
    Execution,
    ExecutionError,
>)
    ensures
        match r {
            Ok(e) => name@ != "call_context_tool"@ && (thread matches Some(t)
                && t@.tools.contains(name@)) && e.run_id@ == name@ + "_exec"@ && e.input@ == (
            match args {
                Some(j) => j@,
                None => json::JsonView::Object(Seq::empty()),
            }),
            Err(ExecutionError::CallContextToolUnavailable) => name@ == "call_context_tool"@,
            Err(ExecutionError::ThreadGone) => name@ != "call_context_tool"@ && thread is None,
            Err(ExecutionError::UnsupportedTool(unknown)) => name@ != "call_context_tool"@ && (
            thread matches Some(t) && !t@.tools.contains(name@)) && unknown@ == name@,
        },
{
    broadcast use json::object_view;

    if text::same(name, "call_context_tool") {
        return Err(ExecutionError::CallContextToolUnavailable);
    }
    let t = match thread {
        None => return Err(ExecutionError::ThreadGone),
        Some(t) => t,
    };
    if !t.tool(name) {
        return Err(ExecutionError::UnsupportedTool(name.to_owned()));
    }
    let input = match args {
        Some(j) => j,
        None => {
            let fields: Vec<(String, Json)> = Vec::new();
            assert(json::fields_view(fields@) =~= Seq::<(Seq<char>, json::JsonView)>::empty());
            Json::Object(fields)
        },
    };
    let mut run_id = name.to_owned();
    run_id.append("_exec");
    Ok(Execution { input, run_id })
}

} // verus!
