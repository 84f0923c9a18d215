//! Lists the messages of a conversation with their indices and previews.

use vstd::prelude::*;
use vstd::utf8::*;

use crate::json;
use crate::json::Json;
use crate::markdown;
use crate::message;
use crate::message::{Message, Role};
use crate::text;
use crate::tools::ToolKind;

verus! {

/// How many messages are listed where nothing is said.
pub fn default_limit() -> (n: usize)
    ensures
        n == 40,
{
    40
}

/// How long a preview is where nothing is said.
pub fn default_max_chars() -> (n: usize)
    ensures
        n == 160,
{
    160
}

/// What is listed: `limit` messages from `start` on, each with a preview of `max_chars_per_message`
/// characters, and their full text where it is asked for.
#[derive(Debug, Clone, Copy, PartialEq, Eq, Structural)]
pub struct ListHistoryToolInput {
    pub start: usize,
    pub limit: usize,
    pub max_chars_per_message: usize,
    pub include_full_markdown: bool,
}

impl Default for ListHistoryToolInput {
    fn default() -> (r: ListHistoryToolInput)
        ensures
            r == (ListHistoryToolInput {
                start: 0,
                limit: 40,
                max_chars_per_message: 160,
                include_full_markdown: false,
            }),
    {
        ListHistoryToolInput {
            start: 0,
            limit: default_limit(),
            max_chars_per_message: default_max_chars(),
            include_full_markdown: false,
        }
    }
}

/// A number kept between two others.
pub open spec fn clamped(n: int, low: int, high: int) -> int {
    if n < low {
        low
    } else if n > high {
        high
    } else {
        n
    }
}

/// A number kept between two others.
pub fn clamp(n: usize, low: usize, high: usize) -> (r: usize)
    requires
        low <= high,
    ensures
        r == clamped(n as int, low as int, high as int),
{
    if n < low {
        low
    } else if n > high {
        high
    } else {
        n
    }
}

/// Where a list of `limit` messages from `start` on ends.
pub open spec fn list_end(start: int, limit: int, total: int) -> int {
    if start + limit < total {
        start + limit
    } else {
        total
    }
}

/// The name of a role in a table.
pub open spec fn role_name(role: Role) -> Seq<char> {
    match role {
        Role::User => "User"@,
        Role::Assistant => "Assistant"@,
        Role::System => "System"@,
    }
}

/// The name of a role in a table.
pub fn role_name_text(role: Role) -> (r: String)
    ensures
        r@ == role_name(role),
{
    match role {
        Role::User => "User".to_owned(),
        Role::Assistant => "Assistant".to_owned(),
        Role::System => "System".to_owned(),
    }
}

/// The preview of a message in a cell of a table: cut where it is longer than `max` characters, with
/// bars escaped and line feeds as spaces.
pub open spec fn preview(full: Seq<char>, max: int) -> Seq<char> {
    let cell = text::substitute(
        text::substitute(text::head(full, max), '|', "\\|"@),
        '\n',
        " "@,
    );
    if full.len() > max {
        cell + "..."@
    } else {
        cell
    }
}

/// A row of the table.
pub open spec fn row(m: message::MessageView, index: int, max: int) -> Seq<char> {
    let full = markdown::message_markdown(m);
    "| "@ + text::decimal(index as nat) + " | "@ + role_name(markdown::role_of(m)) + " | "@
        + text::decimal(full.len()) + " | "@ + preview(full, max) + " |\n"@
}

/// The rows of the messages from `start` up to `end`.
pub open spec fn rows(
    messages: Seq<message::MessageView>,
    start: int,
    end: int,
    max: int,
) -> Seq<char>
    decreases end - start,
{
    if end <= start {
        Seq::empty()
    } else {
        rows(messages, start, end - 1, max) + row(messages[end - 1], end - 1, max)
    }
}

/// The full text of a message, under a heading.
pub open spec fn full_entry(m: message::MessageView, index: int) -> Seq<char> {
    "### Message "@ + text::decimal(index as nat) + " ("@ + role_name(markdown::role_of(m))
        + ")\n\n"@ + markdown::message_markdown(m) + "\n\n"@
}

/// The full text of the messages from `start` up to `end`.
pub open spec fn full_entries(messages: Seq<message::MessageView>, start: int, end: int) -> Seq<
    char,
>
    decreases end - start,
{
    if end <= start {
        Seq::empty()
    } else {
        full_entries(messages, start, end - 1) + full_entry(messages[end - 1], end - 1)
    }
}

/// What is said of the list as a whole.
pub open spec fn list_summary(total: int, start: int, end: int) -> json::JsonView {
    json::JsonView::Object(
        seq![
            ("total_messages"@, json::JsonView::Unsigned(total as u64)),
            (
                "showing_range"@,
                json::JsonView::Text(
                    text::decimal(start as nat) + ".."@ + text::decimal(end as nat),
                ),
            ),
            ("messages_shown"@, json::JsonView::Unsigned((end - start) as u64)),
        ],
    )
}

/// The list of messages.
pub open spec fn history(
    messages: Seq<message::MessageView>,
    input: ListHistoryToolInput,
) -> Seq<char> {
    let total = messages.len() as int;
    let start = input.start as int;
    let limit = clamped(input.limit as int, 1, 500);
    let max = clamped(input.max_chars_per_message as int, 16, 4096);
    let end = list_end(start, limit, total);
    if start >= total {
        "# Conversation History\n\n"@ + "No messages found starting from index "@ + text::decimal(
            start as nat,
        ) + " (total messages: "@ + text::decimal(total as nat) + ")\n"@
    } else {
        "# Conversation History\n\n"@ + "```json\n"@ + json::pretty_json(
            list_summary(total, start, end),
        ) + "\n```\n\n"@ + "| Idx | Role | Chars | Preview |\n"@
            + "|-----|------|-------|---------|\n"@ + rows(messages, start, end, max) + (
        if input.include_full_markdown {
            "\n## Full Message Content\n\n"@ + full_entries(messages, start, end)
        } else {
            Seq::empty()
        })
    }
}

fn row_text(m: &Message, index: usize, max: usize) -> (r: String)
    ensures
        r@ == row(m@, index as int, max as int),
{
    let full = m.to_markdown();
    let count: usize = full.as_str().unicode_len();
    let cut = text::head_text(full.as_str(), max);
    let bars = text::substitute_text(cut.as_str(), '|', "\\|");
    let mut cell = text::substitute_text(bars.as_str(), '\n', " ");
    if count > max {
        cell.append("...");
    }
    let mut out = "| ".to_owned();
    out.append(text::count_text(index).as_str());
    out.append(" | ");
    out.append(role_name_text(m.role()).as_str());
    out.append(" | ");
    out.append(text::count_text(count).as_str());
    out.append(" | ");
    out.append(cell.as_str());
    out.append(" |\n");
    out
}

fn full_entry_text(m: &Message, index: usize) -> (r: String)
    ensures
        r@ == full_entry(m@, index as int),
{
    let mut out = "### Message ".to_owned();
    out.append(text::count_text(index).as_str());
    out.append(" (");
    out.append(role_name_text(m.role()).as_str());
    out.append(")\n\n");
    out.append(m.to_markdown().as_str());
    out.append("\n\n");
    out
}

/// What is said of the list as a whole.
pub fn list_summary_json(total: usize, start: usize, end: usize) -> (r: Json)
    requires
        start <= end,
    ensures
        r@ == list_summary(total as int, start as int, end as int),
{
    broadcast use json::object_view;

    let mut range = text::count_text(start);
    range.append("..");
    range.append(text::count_text(end).as_str());
    let mut fields: Vec<(String, Json)> = Vec::new();
    fields.push(("total_messages".to_owned(), Json::Unsigned(total as u64)));
    fields.push(("showing_range".to_owned(), Json::Text(range)));
    fields.push(("messages_shown".to_owned(), Json::Unsigned((end - start) as u64)));
    assert(json::fields_view(fields@) =~= list_summary(
        total as int,
        start as int,
        end as int,
    )->Object_0);
    Json::Object(fields)
}

/// Lists messages of a conversation.
pub struct ListHistoryTool;

impl ListHistoryTool {
    /// The name of the tool.
    pub fn name() -> (r: &'static str)
        ensures
            r@ == "list_history"@,
    {
        "list_history"
    }

    /// What the tool does to its subject.
    pub fn kind() -> (r: ToolKind)
        ensures
            r == ToolKind::Read,
    {
        ToolKind::Read
    }

    /// The title of a call of the tool. The input is missing where it could not be read.
    pub fn initial_title(input: &Option<ListHistoryToolInput>) -> (r: String)
        ensures
            r@ == match input {
                Some(i) => "List history (start: "@ + text::decimal(i.start as nat) + ", limit: "@
                    + text::decimal(i.limit as nat) + ")"@,
                None => "List conversation history"@,
            },
    {
        match input {
            Some(i) => {
                let mut out = "List history (start: ".to_owned();
                out.append(text::count_text(i.start).as_str());
                out.append(", limit: ");
                out.append(text::count_text(i.limit).as_str());
                out.append(")");
                out
            },
            None => "List conversation history".to_owned(),
        }
    }

    /// What is said where the thread is gone.
    pub fn thread_gone() -> (r: String)
        ensures
            r@ == "# Conversation History\n\nThread no longer exists.\n"@,
    {
        "# Conversation History\n\nThread no longer exists.\n".to_owned()
    }

    /// Lists messages of a conversation.
    pub fn run(messages: &Vec<Message>, input: &ListHistoryToolInput) -> (r: String)
        ensures
            r@ == history(message::message_views(messages@), *input),
    {
        let ghost all = message::message_views(messages@);
        let limit = clamp(input.limit, 1, 500);
        let max = clamp(input.max_chars_per_message, 16, 4096);
        let total: usize = messages.len();
        let start: usize = input.start;
        assert(all.len() == total);
        let mut output = "# Conversation History\n\n".to_owned();
        if start >= total {
            output.append("No messages found starting from index ");
            output.append(text::count_text(start).as_str());
            output.append(" (total messages: ");
            output.append(text::count_text(total).as_str());
            output.append(")\n");
            return output;
        }
        let end: usize = if limit < total - start {
            start + limit
        } else {
            total
        };
        output.append("```json\n");
        output.append(json::to_string_pretty(&list_summary_json(total, start, end)).as_str());
        output.append("\n```\n\n");
        output.append("| Idx | Role | Chars | Preview |\n");
        output.append("|-----|------|-------|---------|\n");
        let mut table = String::new();
        for i in start..end
            invariant
                all == message::message_views(messages@),
                start <= end <= messages@.len(),
                table@ == rows(all, start as int, i as int, max as int),
        {
            assert(all[i as int] == messages@[i as int]@);
            table.append(row_text(&messages[i], i, max).as_str());
        }
        output.append(table.as_str());
        let mut full = String::new();
        if input.include_full_markdown {
            let mut entries = String::new();
            for i in start..end
                invariant
                    all == message::message_views(messages@),
                    start <= end <= messages@.len(),
                    entries@ == full_entries(all, start as int, i as int),
            {
                assert(all[i as int] == messages@[i as int]@);
                entries.append(full_entry_text(&messages[i], i).as_str());
            }
            full = "\n## Full Message Content\n\n".to_owned();
            full.append(entries.as_str());
        }
        output.append(full.as_str());
        output
    }
}

// ---------------------------------------------------------------------------
// Laws
// ---------------------------------------------------------------------------

/// Whether every bar of a text stands behind a backslash.
pub open spec fn bars_escaped(s: Seq<char>) -> bool {
    forall|i: int| 0 <= i < s.len() && #[trigger] s[i] == '|' ==> i > 0 && s[i - 1] == '\\'
}

/// Escaping leaves no bare bar in a text.
pub proof fn escaping_leaves_no_bare_bar(s: Seq<char>)
    ensures
        bars_escaped(text::substitute(s, '|', "\\|"@)),
    decreases s.len(),
{
    reveal_strlit("\\|");
    if s.len() > 0 {
        escaping_leaves_no_bare_bar(s.drop_last());
        let before = text::substitute(s.drop_last(), '|', "\\|"@);
        let after = text::substitute(s, '|', "\\|"@);
        assert forall|i: int| 0 <= i < after.len() && #[trigger] after[i] == '|' implies i > 0
            && after[i - 1] == '\\' by {
            if i < before.len() {
                assert(after[i] == before[i]);
                assert(i > 0 && before[i - 1] == '\\');
                assert(after[i - 1] == before[i - 1]);
            } else if s.last() == '|' {
                assert(after[before.len() as int] == '\\');
                assert(after[before.len() as int + 1] == '|');
            }
        }
    }
}

/// Replacing line feeds leaves none in a text.
pub proof fn no_line_feed_is_left(s: Seq<char>)
    ensures
        !text::substitute(s, '\n', " "@).contains('\n'),
    decreases s.len(),
{
    reveal_strlit(" ");
    if s.len() > 0 {
        no_line_feed_is_left(s.drop_last());
        let before = text::substitute(s.drop_last(), '\n', " "@);
        let after = text::substitute(s, '\n', " "@);
        assert forall|i: int| 0 <= i < after.len() implies after[i] != '\n' by {
            if i < before.len() {
                assert(after[i] == before[i]);
                assert(before.contains(before[i]));
            } else if s.last() == '\n' {
                assert(after[before.len() as int] == ' ');
            }
        }
    }
}

/// A list never shows more than five hundred messages, nor messages that are not there.
pub proof fn lists_are_limited(input: ListHistoryToolInput, total: int)
    requires
        input.start < total,
    ensures
        ({
            let end = list_end(
                input.start as int,
                clamped(input.limit as int, 1, 500),
                total,
            );
            &&& input.start < end <= total
            &&& end - input.start <= 500
        }),
{
}

} // verus!
