//! The tools that an agent is offered.

use vstd::prelude::*;

use crate::json;
use crate::json::Json;

pub mod analyze_images_tool;
pub mod chat_laws;
pub mod chat_tools;
pub mod context_compaction;
pub mod detect_binaries_tool;
pub mod enhanced_terminal_tool;
pub mod host_laws;
pub mod laws;
pub mod list_history_tool;
pub mod memory_tool;
pub mod precise_token_tool;
pub mod project_info_tool;
pub mod registry;
pub mod rewrite_history_tool;
pub mod shell_detector_tool;
pub mod token_usage_tool;

verus! {

/// What a tool does to its subject.
#[derive(Debug, Clone, Copy, PartialEq, Eq, Structural)]
pub enum ToolKind {
    Read,
    Edit,
    Execute,
    Other,
}

/// A heading, and a JSON value in a code block.
pub open spec fn json_section(heading: Seq<char>, j: json::JsonView) -> Seq<char> {
    heading + "\n\n```json\n"@ + json::pretty_json(j) + "\n```\n"@
}

/// A heading, and a JSON value in a code block.
pub fn json_section_text(heading: &str, j: &Json) -> (r: String)
    ensures
        r@ == json_section(heading@, j@),
{
    let mut out = heading.to_owned();
    out.append("\n\n```json\n");
    out.append(json::to_string_pretty(j).as_str());
    out.append("\n```\n");
    out
}

} // verus!
