//! Reports how many tokens the messages of a thread take, from the counts of a model.

use vstd::prelude::*;

use crate::json;
use crate::json::Json;
use crate::memory;
use crate::message;
use crate::message::RequestMessage;
use crate::text;
use crate::thread::Thread;
use crate::token_usage;
use crate::tools;
use crate::tools::ToolKind;

verus! {

/// What is measured: the requests from `start` up to `end`, or all of them.
#[derive(Debug, Clone, Copy, PartialEq, Eq, Structural)]
pub struct PreciseTokenToolInput {
    pub include_per_message: bool,
    pub start: Option<usize>,
    pub end: Option<usize>,
}

/// A bound that was asked for, or else another one; none lies beyond the end.
pub open spec fn bound(asked: Option<usize>, other: int, total: int) -> int {
    let b = match asked {
        Some(n) => n as int,
        None => other,
    };
    if b < total {
        b
    } else {
        total
    }
}

/// What is to be measured, or what is said where nothing is.
#[derive(Debug)]
pub enum PreciseTokenPlan {
    Said(String),
    Measure { start: usize, end: usize, slice: Vec<RequestMessage> },
}

/// A range of requests.
pub open spec fn range_text(start: int, end: int) -> Seq<char> {
    text::decimal(start as nat) + ".."@ + text::decimal(end as nat)
}

/// The counts as a whole.
pub open spec fn core_json(total: usize, start: int, end: int) -> json::JsonView {
    json::JsonView::Object(
        seq![
            ("total_precise_tokens"@, json::JsonView::Unsigned(total as u64)),
            ("message_count"@, json::JsonView::Unsigned((end - start) as u64)),
            ("measured_range"@, json::JsonView::Text(range_text(start, end))),
        ],
    )
}

/// The count of one message.
pub open spec fn per_message_json(index: int, tokens: usize) -> json::JsonView {
    json::JsonView::Object(
        seq![
            ("index"@, json::JsonView::Unsigned(index as u64)),
            ("tokens"@, json::JsonView::Unsigned(tokens as u64)),
        ],
    )
}

/// The counts of the messages.
pub open spec fn per_messages_json(per: Seq<usize>, start: int) -> json::JsonView {
    json::JsonView::Array(
        Seq::new(per.len(), |i: int| per_message_json(start + i, per[i])),
    )
}

/// The report of counts.
pub open spec fn report(
    per: Seq<usize>,
    total: usize,
    start: int,
    end: int,
    include_per_message: bool,
) -> Seq<char> {
    tools::json_section("# Precise Token Counts"@, core_json(total, start, end)) + (
    if include_per_message {
        "\n"@ + tools::json_section("## Per-Message Tokens"@, per_messages_json(per, start))
    } else {
        Seq::empty()
    })
}

fn per_message_entry(index: usize, tokens: usize) -> (r: Json)
    ensures
        r@ == per_message_json(index as int, tokens),
{
    broadcast use json::object_view;

    let mut entry: Vec<(String, Json)> = Vec::new();
    entry.push(("index".to_owned(), Json::Unsigned(index as u64)));
    entry.push(("tokens".to_owned(), Json::Unsigned(tokens as u64)));
    assert(json::fields_view(entry@) =~= per_message_json(index as int, tokens)->Object_0);
    Json::Object(entry)
}

/// Counts the tokens of a thread.
pub struct PreciseTokenTool;

impl PreciseTokenTool {
    /// The name of the tool.
    pub fn name() -> (r: &'static str)
        ensures
            r@ == "precise_tokens"@,
    {
        "precise_tokens"
    }

    /// What the tool does to its subject.
    pub fn kind() -> (r: ToolKind)
        ensures
            r == ToolKind::Read,
    {
        ToolKind::Read
    }

    /// The title of a call of the tool. The input is missing where it could not be read.
    pub fn initial_title(input: &Option<PreciseTokenToolInput>) -> (r: String)
        ensures
            r@ == if *input matches Some(i) && i.include_per_message {
                "Precise token usage (detailed)"@
            } else {
                "Precise token usage"@
            },
    {
        let detailed = match input {
            Some(i) => i.include_per_message,
            None => false,
        };
        if detailed {
            "Precise token usage (detailed)".to_owned()
        } else {
            "Precise token usage".to_owned()
        }
    }

    /// What is said where the thread is gone.
    pub fn thread_gone() -> (r: String)
        ensures
            r@ == "# Precise Tokens\n\nThread no longer exists.\n"@,
    {
        "# Precise Tokens\n\nThread no longer exists.\n".to_owned()
    }

    /// Decides what is measured. Without a model, or with nothing to measure, that is said.
    pub fn plan(thread: &Thread, input: &PreciseTokenToolInput) -> (r: PreciseTokenPlan)
        ensures
            ({
                let all = memory::requests_of(thread@.messages);
                let total = all.len() as int;
                let from = bound(input.start, 0, total);
                let to = bound(input.end, total, total);
                match r {
                    PreciseTokenPlan::Said(said) => if thread@.model is None {
                        said@
                            == "# Precise Tokens\n\nNo language model configured for this thread; precise counting unavailable.\n"@
                    } else {
                        from >= to && said@
                            == "# Precise Tokens\n\nInvalid or empty slice requested: start="@
                            + text::decimal(from as nat) + " end="@ + text::decimal(to as nat)
                            + " (total messages: "@ + text::decimal(total as nat) + ")\n"@
                    },
                    PreciseTokenPlan::Measure { start, end, slice } => thread@.model is Some
                        && start == from && end == to && from < to && message::request_views(
                        slice@,
                    ) == all.subrange(from, to),
                }
            }),
    {
        if thread.model.is_none() {
            return PreciseTokenPlan::Said(
                "# Precise Tokens\n\nNo language model configured for this thread; precise counting unavailable.\n".to_owned(),
            );
        }
        let requests = memory::requests_of_messages(&thread.messages);
        let total: usize = requests.len();
        assert(message::request_views(requests@).len() == total);
        let mut start: usize = match input.start {
            Some(n) => n,
            None => 0,
        };
        if start > total {
            start = total;
        }
        let mut end: usize = match input.end {
            Some(n) => n,
            None => total,
        };
        if end > total {
            end = total;
        }
        if start >= end {
            let mut said =
                "# Precise Tokens\n\nInvalid or empty slice requested: start=".to_owned();
            said.append(text::count_text(start).as_str());
            said.append(" end=");
            said.append(text::count_text(end).as_str());
            said.append(" (total messages: ");
            said.append(text::count_text(total).as_str());
            said.append(")\n");
            return PreciseTokenPlan::Said(said);
        }
        let slice = message::copy_requests(&requests, start, end);
        PreciseTokenPlan::Measure { start, end, slice }
    }

    /// Reports the tokens of what was measured. `counted` is what the model answered for each prefix
    /// of it; a prefix that was not counted is estimated.
    pub fn report(
        start: usize,
        end: usize,
        slice: &Vec<RequestMessage>,
        counted: &Vec<Result<u64, String>>,
        include_per_message: bool,
    ) -> (r: String)
        requires
            start <= end,
            slice@.len() == end - start,
            counted@.len() == slice@.len(),
        ensures
            ({
                let totals = token_usage::prefix_totals(
                    message::request_views(slice@),
                    token_usage::answer_views(counted@),
                );
                r@ == report(
                    token_usage::differences(totals),
                    token_usage::last_total(totals),
                    start as int,
                    end as int,
                    include_per_message,
                )
            }),
    {
        broadcast use {json::object_view, json::array_view};

        let (per, total) = token_usage::precise_per_message_tokens(slice, counted);
        let mut range = text::count_text(start);
        range.append("..");
        range.append(text::count_text(end).as_str());
        let mut fields: Vec<(String, Json)> = Vec::new();
        fields.push(("total_precise_tokens".to_owned(), Json::Unsigned(total as u64)));
        fields.push(("message_count".to_owned(), Json::Unsigned(slice.len() as u64)));
        fields.push(("measured_range".to_owned(), Json::Text(range)));
        assert(json::fields_view(fields@) =~= core_json(
            total,
            start as int,
            end as int,
        )->Object_0);
        let core = Json::Object(fields);
        let mut out = tools::json_section_text("# Precise Token Counts", &core);
        let mut tail = String::new();
        if include_per_message {
            let mut items: Vec<Json> = Vec::new();
            for i in 0..per.len()
                invariant
                    per@.len() == end - start,
                    items@.len() == i,
                    forall|k: int|
                        0 <= k < i ==> (#[trigger] items@[k])@ == per_message_json(
                            start + k,
                            per@[k],
                        ),
            {
                items.push(per_message_entry(start + i, per[i]));
            }
            assert(json::items_view(items@) =~= per_messages_json(
                per@,
                start as int,
            )->Array_0);
            let list = Json::Array(items);
            tail = "\n".to_owned();
            tail.append(tools::json_section_text("## Per-Message Tokens", &list).as_str());
        }
        out.append(tail.as_str());
        out
    }
}

} // verus!
