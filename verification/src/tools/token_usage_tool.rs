//! Reports the token usage of a thread.

use vstd::prelude::*;

use crate::json;
use crate::json::Json;
use crate::thread::TokenUsage;
use crate::tools;
use crate::tools::ToolKind;

verus! {

/// What is reported beyond the usage itself.
#[derive(Debug, Clone, Copy, PartialEq, Eq, Structural)]
pub struct TokenUsageToolInput {
    pub include_per_message: bool,
    pub include_memory_breakdown: bool,
}

/// The usage in its structured form. `pct` is the share of the tokens that are used, in percent, as a
/// number is written. The system prompt and the archive are not counted.
pub open spec fn usage_json(usage: Option<TokenUsage>, pct: Seq<char>) -> json::JsonView {
    let (used, max) = match usage {
        Some(u) => (u.used_tokens, u.max_tokens),
        None => (0, 0),
    };
    json::JsonView::Object(
        seq![
            ("active_tokens_used"@, json::JsonView::Unsigned(used)),
            ("active_tokens_max"@, json::JsonView::Unsigned(max)),
            ("active_usage_pct"@, json::JsonView::Decimal(pct)),
            ("active_is_precise"@, json::JsonView::Bool(false)),
            ("system_prompt_tokens"@, json::JsonView::Unsigned(0)),
            ("active_tokens_used_including_system_prompt"@, json::JsonView::Unsigned(used)),
            ("active_usage_pct_including_system_prompt"@, json::JsonView::Decimal(pct)),
            ("full_tokens_used"@, json::JsonView::Unsigned(used)),
            ("full_tokens_max"@, json::JsonView::Unsigned(max)),
            ("full_usage_pct"@, json::JsonView::Decimal(pct)),
            ("memory_segment_count"@, json::JsonView::Unsigned(0)),
            ("memory_saved_tokens_estimate"@, json::JsonView::Unsigned(0)),
        ],
    )
}

/// Reports the token usage of a thread.
pub struct TokenUsageTool;

impl TokenUsageTool {
    /// The name of the tool.
    pub fn name() -> (r: &'static str)
        ensures
            r@ == "token_usage"@,
    {
        "token_usage"
    }

    /// What the tool does to its subject.
    pub fn kind() -> (r: ToolKind)
        ensures
            r == ToolKind::Read,
    {
        ToolKind::Read
    }

    /// The title of a call of the tool. The input is missing where it could not be read.
    pub fn initial_title(input: &Option<TokenUsageToolInput>) -> (r: String)
        ensures
            r@ == if *input matches Some(i) && i.include_per_message {
                "Token usage (detailed)"@
            } else {
                "Token usage"@
            },
    {
        let detailed = match input {
            Some(i) => i.include_per_message,
            None => false,
        };
        if detailed {
            "Token usage (detailed)".to_owned()
        } else {
            "Token usage".to_owned()
        }
    }

    /// What is said where the thread is gone.
    pub fn thread_gone() -> (r: String)
        ensures
            r@ == "# Token Usage\n\nThread no longer exists.\n"@,
    {
        "# Token Usage\n\nThread no longer exists.\n".to_owned()
    }

    /// Reports the usage. `pct` is the share of the tokens that are used, in percent.
    pub fn run(usage: Option<TokenUsage>, pct: &str, input: &TokenUsageToolInput) -> (r: String)
        ensures
            r@ == tools::json_section("# Token Usage"@, usage_json(usage, pct@)) + (
            if input.include_per_message {
                "\n## Per-Message Tokens\n\nDetailed per-message token data is not available in the current build.\n"@
            } else {
                Seq::empty()
            }) + (if input.include_memory_breakdown {
                "\n## Memory Segments\n\nNo memory segmentation data is available in the current build.\n"@
            } else {
                Seq::empty()
            }),
    {
        broadcast use json::object_view;

        let (used, max): (u64, u64) = match usage {
            Some(u) => (u.used_tokens, u.max_tokens),
            None => (0, 0),
        };
        let mut fields: Vec<(String, Json)> = Vec::new();
        fields.push(("active_tokens_used".to_owned(), Json::Unsigned(used)));
        fields.push(("active_tokens_max".to_owned(), Json::Unsigned(max)));
        fields.push(("active_usage_pct".to_owned(), Json::Decimal(pct.to_owned())));
        fields.push(("active_is_precise".to_owned(), Json::Bool(false)));
        fields.push(("system_prompt_tokens".to_owned(), Json::Unsigned(0)));
        fields.push(
            ("active_tokens_used_including_system_prompt".to_owned(), Json::Unsigned(used)),
        );
        fields.push(
            ("active_usage_pct_including_system_prompt".to_owned(), Json::Decimal(pct.to_owned())),
        );
        fields.push(("full_tokens_used".to_owned(), Json::Unsigned(used)));
        fields.push(("full_tokens_max".to_owned(), Json::Unsigned(max)));
        fields.push(("full_usage_pct".to_owned(), Json::Decimal(pct.to_owned())));
        fields.push(("memory_segment_count".to_owned(), Json::Unsigned(0)));
        fields.push(("memory_saved_tokens_estimate".to_owned(), Json::Unsigned(0)));
        assert(json::fields_view(fields@) =~= usage_json(usage, pct@)->Object_0);
        let core = Json::Object(fields);
        let mut out = tools::json_section_text("# Token Usage", &core);
        let mut per_message = String::new();
        if input.include_per_message {
            per_message =
            "\n## Per-Message Tokens\n\nDetailed per-message token data is not available in the current build.\n".to_owned();
        }
        let mut breakdown = String::new();
        if input.include_memory_breakdown {
            breakdown =
            "\n## Memory Segments\n\nNo memory segmentation data is available in the current build.\n".to_owned();
        }
        out.append(per_message.as_str());
        out.append(breakdown.as_str());
        out
    }
}

} // verus!
