//! What holds of the tools of a thread: what they show, and what they leave as it was.

use vstd::prelude::*;
use vstd::utf8::*;

use crate::json;
use crate::markdown;
use crate::message;
use crate::message::Role;
use crate::request_laws;
use crate::text;
use crate::text_laws;
use crate::thread;
use crate::thread::TokenUsage;
use crate::tools;
use crate::tools::list_history_tool;
use crate::tools::list_history_tool::ListHistoryToolInput;
use crate::tools::precise_token_tool;
use crate::tools::registry;
use crate::tools::registry::{OwnTool, ServerTool};
use crate::tools::rewrite_history_tool;
use crate::tools::rewrite_history_tool::RewriteStrategy;
use crate::tools::token_usage_tool;

verus! {

/// Whether an object has a field with a value.
pub open spec fn has_entry(j: json::JsonView, name: Seq<char>, v: json::JsonView) -> bool {
    j matches json::JsonView::Object(fields) && fields.contains((name, v))
}

/// A JSON value stands in its section, behind the heading.
pub proof fn sections_hold_their_value(heading: Seq<char>, j: json::JsonView)
    ensures
        request_laws::has_part(tools::json_section(heading, j), json::pretty_json(j)),
        exists|b: Seq<char>| tools::json_section(heading, j) == #[trigger] (heading + b),
{
    let whole = tools::json_section(heading, j);
    assert(whole == (heading + "\n\n```json\n"@) + json::pretty_json(j) + "\n```\n"@);
    assert(whole =~= heading + ("\n\n```json\n"@ + json::pretty_json(j) + "\n```\n"@));
}

// ---------------------------------------------------------------------------
// The history
// ---------------------------------------------------------------------------

/// The row of a message: its position, who speaks, how long it is, and how it begins.
pub open spec fn history_row(m: message::MessageView, index: int, max: int) -> Seq<char> {
    let full = markdown::message_markdown(m);
    "| "@ + text::decimal(index as nat) + " | "@ + (if m is Agent {
        "Assistant"@
    } else {
        "User"@
    }) + " | "@ + text::decimal(full.len()) + " | "@ + list_history_tool::preview(full, max)
        + " |\n"@
}

/// The messages that are listed: from the start on, as many as the limit says, but at least one and at
/// most five hundred, and none beyond the last.
pub proof fn the_limit_is_kept(start: int, limit: int, total: int)
    requires
        0 <= start < total,
        0 <= limit,
    ensures
        ({
            let end = list_history_tool::list_end(
                start,
                list_history_tool::clamped(limit, 1, 500),
                total,
            );
            &&& start < end <= total
            &&& end - start <= 500
            &&& 1 <= limit <= 500 ==> end - start == if limit < total - start {
                limit
            } else {
                total - start
            }
            &&& limit > 500 ==> end - start == if 500 < total - start {
                500
            } else {
                total - start
            }
        }),
{
}

/// A list has one row for each message of its range, in order.
pub proof fn every_message_has_a_row(
    messages: Seq<message::MessageView>,
    start: int,
    end: int,
    max: int,
)
    requires
        0 <= start <= end <= messages.len(),
    ensures
        list_history_tool::rows(messages, start, end, max) == Seq::new(
            (end - start) as nat,
            |i: int| history_row(messages[start + i], start + i, max),
        ).flatten(),
    decreases end - start,
{
    let parts = Seq::new(
        (end - start) as nat,
        |i: int| history_row(messages[start + i], start + i, max),
    );
    if end == start {
        assert(parts.flatten() =~= Seq::empty());
    } else {
        every_message_has_a_row(messages, start, end - 1, max);
        assert(parts.drop_last() =~= Seq::new(
            (end - 1 - start) as nat,
            |i: int| history_row(messages[start + i], start + i, max),
        ));
        text_laws::flattened_one_by_one(parts);
        assert(list_history_tool::row(messages[end - 1], end - 1, max) == history_row(
            messages[end - 1],
            end - 1,
            max,
        ));
    }
}

/// Where full texts are asked for, each message of the range is shown as it is under its position, in
/// order.
pub proof fn every_message_is_shown_in_full(
    messages: Seq<message::MessageView>,
    start: int,
    end: int,
)
    requires
        0 <= start <= end <= messages.len(),
    ensures
        list_history_tool::full_entries(messages, start, end) == Seq::new(
            (end - start) as nat,
            |i: int|
                "### Message "@ + text::decimal((start + i) as nat) + " ("@ + (
                if messages[start + i] is Agent {
                    "Assistant"@
                } else {
                    "User"@
                }) + ")\n\n"@ + markdown::message_markdown(messages[start + i]) + "\n\n"@,
        ).flatten(),
    decreases end - start,
{
    let parts = Seq::new(
        (end - start) as nat,
        |i: int|
            "### Message "@ + text::decimal((start + i) as nat) + " ("@ + (if messages[start
                + i] is Agent {
                "Assistant"@
            } else {
                "User"@
            }) + ")\n\n"@ + markdown::message_markdown(messages[start + i]) + "\n\n"@,
    );
    if end == start {
        assert(parts.flatten() =~= Seq::empty());
    } else {
        every_message_is_shown_in_full(messages, start, end - 1);
        assert(parts.drop_last() =~= Seq::new(
            (end - 1 - start) as nat,
            |i: int|
                "### Message "@ + text::decimal((start + i) as nat) + " ("@ + (if messages[start
                    + i] is Agent {
                    "Assistant"@
                } else {
                    "User"@
                }) + ")\n\n"@ + markdown::message_markdown(messages[start + i]) + "\n\n"@,
        ));
        text_laws::flattened_one_by_one(parts);
        assert(parts.last() == list_history_tool::full_entry(messages[end - 1], end - 1));
    }
}

/// The history of a range holds a row for each of its messages, and their full texts where they are
/// asked for; a range that starts behind the last message has none.
pub proof fn the_history_holds_its_range(
    messages: Seq<message::MessageView>,
    input: ListHistoryToolInput,
)
    ensures
        ({
            let shown = list_history_tool::history(messages, input);
            let start = input.start as int;
            let end = list_history_tool::list_end(
                start,
                list_history_tool::clamped(input.limit as int, 1, 500),
                messages.len() as int,
            );
            let max = if input.max_chars_per_message < 16 {
                16
            } else if input.max_chars_per_message > 4096 {
                4096
            } else {
                input.max_chars_per_message as int
            };
            &&& start < messages.len() ==> request_laws::has_part(
                shown,
                list_history_tool::rows(messages, start, end, max),
            )
            &&& start < messages.len() && input.include_full_markdown ==> request_laws::has_part(
                shown,
                list_history_tool::full_entries(messages, start, end),
            )
            &&& start >= messages.len() ==> request_laws::has_part(
                shown,
                "No messages found starting from index "@ + text::decimal(start as nat),
            )
        }),
{
    let shown = list_history_tool::history(messages, input);
    let total = messages.len() as int;
    let start = input.start as int;
    let limit = list_history_tool::clamped(input.limit as int, 1, 500);
    let max = list_history_tool::clamped(input.max_chars_per_message as int, 16, 4096);
    let end = list_history_tool::list_end(start, limit, total);
    if start < total {
        let before = "# Conversation History\n\n"@ + "```json\n"@ + json::pretty_json(
            list_history_tool::list_summary(total, start, end),
        ) + "\n```\n\n"@ + "| Idx | Role | Chars | Preview |\n"@
            + "|-----|------|-------|---------|\n"@;
        let rows = list_history_tool::rows(messages, start, end, max);
        let full = list_history_tool::full_entries(messages, start, end);
        let heading = "\n## Full Message Content\n\n"@;
        if input.include_full_markdown {
            assert(shown =~= before + rows + (heading + full));
            assert(shown =~= (before + rows + heading) + full + Seq::<char>::empty());
        } else {
            assert(shown =~= before + rows + Seq::<char>::empty());
        }
    } else {
        assert(shown =~= "# Conversation History\n\n"@ + ("No messages found starting from index "@
            + text::decimal(start as nat)) + (" (total messages: "@ + text::decimal(total as nat)
            + ")\n"@));
    }
}

/// A message that is short, and has neither bars nor line feeds, is its own preview; of a longer one
/// the preview is its start, marked as cut.
pub proof fn previews_are_starts(full: Seq<char>, max: int)
    requires
        0 <= max,
        !full.contains('|'),
        !full.contains('\n'),
    ensures
        full.len() <= max ==> list_history_tool::preview(full, max) == full,
        full.len() > max ==> list_history_tool::preview(full, max) == full.take(max) + "..."@,
{
    let start = text::head(full, max);
    assert forall|i: int| 0 <= i < start.len() implies start[i] != '|' && start[i] != '\n' by {
        assert(full.contains(full[i]));
    }
    text_laws::nothing_is_replaced(start, '|', "\\|"@);
    text_laws::nothing_is_replaced(start, '\n', " "@);
}

/// What is said of a list: how many messages there are, which range is shown, and how many are in it.
pub proof fn the_list_is_summed_up(total: int, start: int, end: int)
    ensures
        ({
            let j = list_history_tool::list_summary(total, start, end);
            &&& has_entry(j, "total_messages"@, json::JsonView::Unsigned(total as u64))
            &&& has_entry(
                j,
                "showing_range"@,
                json::JsonView::Text(
                    text::decimal(start as nat) + ".."@ + text::decimal(end as nat),
                ),
            )
            &&& has_entry(j, "messages_shown"@, json::JsonView::Unsigned((end - start) as u64))
        }),
{
    let fields = list_history_tool::list_summary(total, start, end)->Object_0;
    assert(fields[0].0 == "total_messages"@);
    assert(fields[1].0 == "showing_range"@);
    assert(fields[2].0 == "messages_shown"@);
}

// ---------------------------------------------------------------------------
// Rewriting
// ---------------------------------------------------------------------------

/// A range can be shortened exactly where it is one and lies in the thread.
pub proof fn ranges_of_the_thread_can_be_shortened(start: usize, end: usize, len: int)
    ensures
        rewrite_history_tool::rewrite_error(start, end, len) is None <==> start <= end < len,
{
}

/// A range that is removed has no summary. Else the summary is that of a model, where it is asked for,
/// or none was given, and the model wrote one; else the one that was given; else one that is made of
/// the text.
pub proof fn the_summary_is_chosen(
    strategy: RewriteStrategy,
    summary: Option<Seq<char>>,
    auto: Option<bool>,
    model_summary: Option<Seq<char>>,
    whole: Seq<char>,
    count: nat,
)
    ensures
        ({
            let chosen = rewrite_history_tool::summary_text(
                strategy,
                summary,
                auto,
                model_summary,
                whole,
                count,
            );
            let asks = auto == Some(true) || summary is None;
            &&& strategy == RewriteStrategy::Remove ==> chosen is None
            &&& strategy == RewriteStrategy::Summarize && asks && model_summary is Some ==> chosen
                == model_summary
            &&& strategy == RewriteStrategy::Summarize && summary is Some && (!asks
                || model_summary is None) ==> chosen == summary
            &&& strategy == RewriteStrategy::Summarize && summary is None && model_summary is None
                ==> chosen == Some(rewrite_history_tool::heuristic_summary(whole, count))
            &&& rewrite_history_tool::wants_model(strategy, summary, auto) <==> strategy
                == RewriteStrategy::Summarize && asks
        }),
{
}

/// A summary that is made of a text starts with its first line that is not blank, or with as much of it
/// as fits, and says how many messages there are.
pub proof fn made_summaries_show_the_first_line(
    lines: Seq<Seq<char>>,
    first: int,
    whole: Seq<char>,
    count: nat,
)
    requires
        lines == text::lines(whole),
        0 <= first < lines.len(),
        text::trim(lines[first]).len() > 0,
        forall|i: int| 0 <= i < first ==> text::trim(#[trigger] lines[i]).len() == 0,
    ensures
        ({
            let line = text::trim(lines[first]);
            let made = rewrite_history_tool::heuristic_summary(whole, count);
            &&& encode_utf8(line).len() <= 120 ==> made == line + " ("@ + text::decimal(count)
                + " message(s))"@
            &&& encode_utf8(line).len() > 120 ==> exists|n: int|
                0 <= n <= line.len() && made == #[trigger] line.take(n) + "… ("@ + text::decimal(
                    count,
                ) + " message(s))"@ && encode_utf8(line.take(n)).len() <= 120
        }),
{
    first_said(lines, first);
    let line = text::trim(lines[first]);
    text::byte_head_is_start(line, 120);
    text::byte_head_fits(line, 120);
}

proof fn first_said(lines: Seq<Seq<char>>, first: int)
    requires
        0 <= first < lines.len(),
        text::trim(lines[first]).len() > 0,
        forall|i: int| 0 <= i < first ==> text::trim(#[trigger] lines[i]).len() == 0,
    ensures
        rewrite_history_tool::first_line_said(lines) == text::trim(lines[first]),
    decreases lines.len(),
{
    if first > 0 {
        assert(text::trim(lines[0]).len() == 0);
        let rest = lines.drop_first();
        assert forall|i: int| 0 <= i < first - 1 implies text::trim(#[trigger] rest[i]).len() == 0 by {
            assert(rest[i] == lines[i + 1]);
        }
        first_said(rest, first - 1);
    }
}

/// A preview is the text, or its start, marked as cut. It has at least forty characters where the text
/// has, and four hundred where no length is asked for.
pub proof fn rewrite_previews_are_starts(whole: Seq<char>, asked: Option<usize>)
    ensures
        ({
            let max = rewrite_history_tool::preview_length(asked);
            let shown = rewrite_history_tool::rewrite_preview(whole, max);
            &&& max >= 40
            &&& asked is None || asked == Some(0usize) ==> max == 400
            &&& asked is Some && asked->0 >= 40 ==> max == asked->0
            &&& asked is Some && 0 < asked->0 < 40 ==> max == 40
            &&& whole.len() <= max ==> shown == whole
            &&& whole.len() > max ==> shown == whole.take(max) + "\n…(truncated)"@
        }),
{
}

/// How a marker begins: what was done to which range, and how many messages and characters there were.
pub open spec fn marker_head(
    strategy: RewriteStrategy,
    id: Seq<char>,
    start: nat,
    end: nat,
    chars: nat,
) -> Seq<char> {
    "[[history_rewrite "@ + (match strategy {
        RewriteStrategy::Remove => "removed"@,
        RewriteStrategy::Summarize => "summarized"@,
    }) + " id="@ + id + " range="@ + text::decimal(start) + ".."@ + text::decimal(end)
        + " messages="@ + text::decimal((end - start + 1) as nat) + " chars="@ + text::decimal(chars)
        + "]]\n"@
}

proof fn five_in_a_row(a: Seq<char>, b: Seq<char>, c: Seq<char>, d: Seq<char>, e: Seq<char>)
    ensures
        a + b + c + d + e == a + (b + c + d + e),
        a + b + c + d + e == a + b + (c + d + e),
        a + b + c + d + e == (a + b) + c + (d + e),
        a + b + c + d + e == (a + b + c) + d + e,
{
    assert(a + b + c + d + e =~= a + (b + c + d + e));
    assert(a + b + c + d + e =~= a + b + (c + d + e));
    assert(a + b + c + d + e =~= (a + b) + c + (d + e));
}

proof fn marker_in_parts(
    head: Seq<char>,
    said: Seq<char>,
    a: Seq<char>,
    shown: Seq<char>,
    b: Seq<char>,
    open: Seq<char>,
    whole: Seq<char>,
    close: Seq<char>,
)
    ensures
        head + said + a + shown + b + open + whole + close == head + said + (a + shown + b) + (open
            + whole) + close,
        head + said + a + shown + b + open + whole + close == head + said + (a + shown + b) + open
            + (whole + close),
{
    assert(head + said + a + shown + b =~= head + said + (a + shown + b));
    let front = head + said + (a + shown + b);
    assert(front + open + whole =~= front + (open + whole));
    assert(front + open + whole + close =~= front + open + (whole + close));
}

/// The marker says what was done to which range, how many messages and characters there were, and holds
/// the summary, where there is one, the preview and the whole text.
pub proof fn the_marker_tells_all(
    strategy: RewriteStrategy,
    id: Seq<char>,
    start: nat,
    end: nat,
    whole: Seq<char>,
    summary: Option<Seq<char>>,
    max_preview: int,
)
    ensures
        ({
            let made = rewrite_history_tool::marker(
                strategy,
                id,
                start,
                end,
                whole,
                summary,
                max_preview,
            );
            let head = marker_head(strategy, id, start, end, whole.len());
            &&& exists|b: Seq<char>| made == #[trigger] (head + b)
            &&& request_laws::has_part(made, whole)
            &&& summary matches Some(s) ==> request_laws::has_part(
                made,
                "\nSummary:\n"@ + s + "\n"@,
            )
            &&& request_laws::has_part(
                made,
                "\nPreview:\n"@ + rewrite_history_tool::rewrite_preview(whole, max_preview) + "\n"@,
            )
        }),
{
    let made = rewrite_history_tool::marker(strategy, id, start, end, whole, summary, max_preview);
    let head = marker_head(strategy, id, start, end, whole.len());
    let said = match summary {
        Some(s) => "\nSummary:\n"@ + s + "\n"@,
        None => Seq::<char>::empty(),
    };
    let preview = rewrite_history_tool::rewrite_preview(whole, max_preview);
    let shown = "\nPreview:\n"@ + preview + "\n"@;
    let open = "\n<details><summary>Original (collapsed)</summary>\n\n```\n"@;
    let close = "\n```\n</details>\n"@;
    marker_in_parts(head, said, "\nPreview:\n"@, preview, "\n"@, open, whole, close);
    assert(made == head + said + shown + (open + whole) + close);
    five_in_a_row(head, said, shown, open + whole, close);
    assert(made == head + said + shown + open + (whole + close));
    five_in_a_row(head + said, shown, open, whole, close);
    assert(made == (head + said + shown + open) + whole + close);
}

// ---------------------------------------------------------------------------
// Token tools
// ---------------------------------------------------------------------------

/// The report of the token usage tells the tokens that are used, and out of how many.
pub proof fn the_usage_is_reported(usage: TokenUsage, pct: Seq<char>)
    ensures
        ({
            let j = token_usage_tool::usage_json(Some(usage), pct);
            let used = json::JsonView::Unsigned(usage.used_tokens);
            let max = json::JsonView::Unsigned(usage.max_tokens);
            &&& has_entry(j, "active_tokens_used"@, used)
            &&& has_entry(j, "active_tokens_used_including_system_prompt"@, used)
            &&& has_entry(j, "full_tokens_used"@, used)
            &&& has_entry(j, "active_tokens_max"@, max)
            &&& has_entry(j, "full_tokens_max"@, max)
            &&& has_entry(j, "active_usage_pct"@, json::JsonView::Decimal(pct))
            &&& has_entry(
                j,
                "active_usage_pct_including_system_prompt"@,
                json::JsonView::Decimal(pct),
            )
            &&& has_entry(j, "full_usage_pct"@, json::JsonView::Decimal(pct))
            &&& has_entry(j, "active_is_precise"@, json::JsonView::Bool(false))
        }),
{
    let fields = token_usage_tool::usage_json(Some(usage), pct)->Object_0;
    assert(fields[0].0 == "active_tokens_used"@);
    assert(fields[1].0 == "active_tokens_max"@);
    assert(fields[2].0 == "active_usage_pct"@);
    assert(fields[3].0 == "active_is_precise"@);
    assert(fields[5].0 == "active_tokens_used_including_system_prompt"@);
    assert(fields[6].0 == "active_usage_pct_including_system_prompt"@);
    assert(fields[7].0 == "full_tokens_used"@);
    assert(fields[8].0 == "full_tokens_max"@);
    assert(fields[9].0 == "full_usage_pct"@);
}

/// A bound that is asked for is kept, as far as there are messages.
pub proof fn bounds_lie_in_the_thread(asked: Option<usize>, other: int, total: int)
    requires
        0 <= other <= total,
    ensures
        ({
            let b = precise_token_tool::bound(asked, other, total);
            &&& 0 <= b <= total
            &&& asked is None ==> b == other
            &&& asked is Some && asked->0 <= total ==> b == asked->0
            &&& asked is Some && asked->0 > total ==> b == total
        }),
{
}

/// The report of counts tells the total, how many messages were counted and which, and, where it is
/// asked for, the tokens of each message under its position.
pub proof fn the_counts_are_reported(per: Seq<usize>, total: usize, start: int, end: int)
    requires
        0 <= start <= end <= u64::MAX,
        per.len() == end - start,
    ensures
        ({
            let core = precise_token_tool::core_json(total, start, end);
            let each = precise_token_tool::per_messages_json(per, start);
            let brief = precise_token_tool::report(per, total, start, end, false);
            let full = precise_token_tool::report(per, total, start, end, true);
            &&& has_entry(core, "total_precise_tokens"@, json::JsonView::Unsigned(total as u64))
            &&& has_entry(core, "message_count"@, json::JsonView::Unsigned(per.len() as u64))
            &&& has_entry(
                core,
                "measured_range"@,
                json::JsonView::Text(
                    text::decimal(start as nat) + ".."@ + text::decimal(end as nat),
                ),
            )
            &&& each matches json::JsonView::Array(items) && items.len() == per.len() && (forall|
                i: int,
            |
                0 <= i < per.len() ==> has_entry(
                    #[trigger] items[i],
                    "index"@,
                    json::JsonView::Unsigned((start + i) as u64),
                ) && has_entry(items[i], "tokens"@, json::JsonView::Unsigned(per[i] as u64)))
            &&& request_laws::has_part(brief, json::pretty_json(core))
            &&& request_laws::has_part(full, json::pretty_json(core))
            &&& request_laws::has_part(full, json::pretty_json(each))
        }),
{
    let core = precise_token_tool::core_json(total, start, end);
    let fields = core->Object_0;
    assert(fields[0].0 == "total_precise_tokens"@);
    assert(fields[1].0 == "message_count"@);
    assert(fields[2].0 == "measured_range"@);
    let each = precise_token_tool::per_messages_json(per, start);
    let items = each->Array_0;
    assert forall|i: int| 0 <= i < per.len() implies has_entry(
        #[trigger] items[i],
        "index"@,
        json::JsonView::Unsigned((start + i) as u64),
    ) && has_entry(items[i], "tokens"@, json::JsonView::Unsigned(per[i] as u64)) by {
        let f = items[i]->Object_0;
        assert(f[0].0 == "index"@);
        assert(f[1].0 == "tokens"@);
    }
    let first = "# Precise Token Counts"@ + "\n\n```json\n"@;
    let second = "## Per-Message Tokens"@ + "\n\n```json\n"@;
    let close = "\n```\n"@;
    let brief = precise_token_tool::report(per, total, start, end, false);
    let full = precise_token_tool::report(per, total, start, end, true);
    assert(brief =~= first + json::pretty_json(core) + close);
    assert(full =~= first + json::pretty_json(core) + (close + "\n"@ + second + json::pretty_json(
        each,
    ) + close));
    assert(full =~= (first + json::pretty_json(core) + close + "\n"@ + second) + json::pretty_json(
        each,
    ) + close);
}

// ---------------------------------------------------------------------------
// The tools that a model is offered
// ---------------------------------------------------------------------------

/// Whether a tool of a thread is one that is offered under a name.
pub open spec fn offers_as(tool: OwnTool, name: Seq<char>) -> bool {
    tool.supported && tool.enabled && text::byte_head(tool.name@, 64) == name
}

/// A tool of the thread is offered exactly where it works with the provider and the profile allows it:
/// under its name, as far as that fits. Of tools that are named alike the last one is.
pub proof fn own_tools_are_those_that_are_on(tools: Seq<OwnTool>, name: Seq<char>)
    ensures
        registry::own_offers(tools).dom().contains(name) <==> exists|i: int|
            0 <= i < tools.len() && offers_as(#[trigger] tools[i], name),
        registry::own_offers(tools).dom().contains(name) ==> exists|i: int|
            {
                &&& 0 <= i < tools.len()
                &&& offers_as(#[trigger] tools[i], name)
                &&& registry::own_offers(tools)[name] == tools[i].id
                &&& forall|j: int| i < j < tools.len() ==> !offers_as(#[trigger] tools[j], name)
            },
    decreases tools.len(),
{
    if tools.len() > 0 {
        let less = tools.drop_last();
        own_tools_are_those_that_are_on(less, name);
        let k = tools.len() - 1;
        assert(tools[k] == tools.last());
        assert forall|i: int| 0 <= i < less.len() implies less[i] == #[trigger] tools[i] by {
        }
        if offers_as(tools.last(), name) {
            assert(registry::own_offers(tools)[name] == tools[k].id);
        } else if registry::own_offers(less).dom().contains(name) {
            let i = choose|i: int|
                {
                    &&& 0 <= i < less.len()
                    &&& offers_as(#[trigger] less[i], name)
                    &&& registry::own_offers(less)[name] == less[i].id
                    &&& forall|j: int| i < j < less.len() ==> !offers_as(#[trigger] less[j], name)
                };
            assert(offers_as(tools[i], name));
            assert forall|j: int| i < j < tools.len() implies !offers_as(#[trigger] tools[j], name) by {
                if j < less.len() {
                    assert(!offers_as(less[j], name));
                }
            }
            assert(registry::own_offers(tools)[name] == tools[i].id);
        }
    }
}

/// A tool of a context server is offered exactly where it is allowed; where two would be named alike,
/// the last one is.
pub proof fn server_tools_are_those_that_are_on(
    own: Map<Seq<char>, u64>,
    all: Seq<ServerTool>,
    n: int,
    name: Seq<char>,
)
    requires
        0 <= n <= all.len(),
    ensures
        registry::offers(own, all, n).dom().contains(name) <==> own.dom().contains(name) || exists|
            i: int,
        |
            0 <= i < n && (#[trigger] all[i]).enabled && registry::offered_name(own, all, all[i])
                == name,
        (exists|i: int|
            0 <= i < n && (#[trigger] all[i]).enabled && registry::offered_name(own, all, all[i])
                == name) ==> exists|i: int|
            {
                &&& 0 <= i < n
                &&& (#[trigger] all[i]).enabled
                &&& registry::offered_name(own, all, all[i]) == name
                &&& registry::offers(own, all, n)[name] == all[i].id
                &&& forall|j: int|
                    i < j < n && (#[trigger] all[j]).enabled ==> registry::offered_name(
                        own,
                        all,
                        all[j],
                    ) != name
            },
    decreases n,
{
    if n > 0 {
        server_tools_are_those_that_are_on(own, all, n - 1, name);
        let last = all[n - 1];
        if last.enabled && registry::offered_name(own, all, last) == name {
            assert(registry::offers(own, all, n)[name] == last.id);
        } else {
            assert(registry::offers(own, all, n).dom().contains(name) == registry::offers(
                own,
                all,
                n - 1,
            ).dom().contains(name));
            if exists|i: int|
                0 <= i < n && (#[trigger] all[i]).enabled && registry::offered_name(
                    own,
                    all,
                    all[i],
                ) == name {
                let i = choose|i: int|
                    {
                        &&& 0 <= i < n - 1
                        &&& (#[trigger] all[i]).enabled
                        &&& registry::offered_name(own, all, all[i]) == name
                        &&& registry::offers(own, all, n - 1)[name] == all[i].id
                        &&& forall|j: int|
                            i < j < n - 1 && (#[trigger] all[j]).enabled ==> registry::offered_name(
                                own,
                                all,
                                all[j],
                            ) != name
                    };
                assert(registry::offers(own, all, n)[name] == all[i].id);
            }
        }
    }
}

/// The name of a tool of a context server is its own, as far as it fits, unless another tool that is
/// offered has it too: then the name of the server stands in front, as far as there is room.
pub proof fn names_are_told_apart(
    own: Map<Seq<char>, u64>,
    all: Seq<ServerTool>,
    i: int,
)
    requires
        0 <= i < all.len(),
        all[i].enabled,
    ensures
        ({
            let name = text::byte_head(all[i].name@, 64);
            let taken = own.dom().contains(name) || exists|j: int|
                0 <= j < all.len() && j != i && (#[trigger] all[j]).enabled && text::byte_head(
                    all[j].name@,
                    64,
                ) == name;
            let shown = registry::offered_name(own, all, all[i]);
            &&& !taken ==> shown == name
            &&& taken && encode_utf8(name).len() <= 62 ==> exists|k: int|
                0 <= k <= all[i].server_id@.len() && shown == #[trigger] all[i].server_id@.take(k)
                    + "_"@ + name
            &&& taken && encode_utf8(name).len() > 62 ==> shown == name
        }),
{
    let name = text::byte_head(all[i].name@, 64);
    let taken_by = |j: int|
        0 <= j < all.len() && j != i && all[j].enabled && text::byte_head(all[j].name@, 64) == name;
    counts_of_names(all, name, i);
    let taken = own.dom().contains(name) || exists|j: int|
        0 <= j < all.len() && j != i && (#[trigger] all[j]).enabled && text::byte_head(
            all[j].name@,
            64,
        ) == name;
    assert(registry::cut_name(all[i].name@) == name);
    let room = 64 - encode_utf8(name).len();
    if taken && room >= 2 {
        text::byte_head_is_start(all[i].server_id@, room - 1);
    }
}

proof fn counts_of_names(all: Seq<ServerTool>, name: Seq<char>, i: int)
    requires
        0 <= i < all.len(),
        all[i].enabled,
        registry::cut_name(all[i].name@) == name,
    ensures
        registry::name_count(all, name) >= 1,
        registry::name_count(all, name) > 1 <==> exists|j: int|
            0 <= j < all.len() && j != i && (#[trigger] all[j]).enabled && registry::cut_name(
                all[j].name@,
            ) == name,
    decreases all.len(),
{
    let less = all.drop_last();
    assert forall|j: int| 0 <= j < less.len() implies less[j] == #[trigger] all[j] by {
    }
    let k = all.len() - 1;
    assert(all[k] == all.last());
    if i < less.len() {
        counts_of_names(less, name, i);
        if exists|j: int|
            0 <= j < all.len() && j != i && (#[trigger] all[j]).enabled && registry::cut_name(
                all[j].name@,
            ) == name {
            let j = choose|j: int|
                0 <= j < all.len() && j != i && (#[trigger] all[j]).enabled && registry::cut_name(
                    all[j].name@,
                ) == name;
            if j < less.len() {
                assert(less[j].enabled);
            }
        }
        if registry::name_count(less, name) > 1 {
            let j = choose|j: int|
                0 <= j < less.len() && j != i && (#[trigger] less[j]).enabled && registry::cut_name(
                    less[j].name@,
                ) == name;
            assert(all[j].enabled);
        }
    } else {
        some_name_counts(less, name);
        if registry::name_count(less, name) > 0 {
            let j = choose|j: int|
                0 <= j < less.len() && (#[trigger] less[j]).enabled && registry::cut_name(
                    less[j].name@,
                ) == name;
            assert(all[j].enabled && j != i);
        }
        if exists|j: int|
            0 <= j < all.len() && j != i && (#[trigger] all[j]).enabled && registry::cut_name(
                all[j].name@,
            ) == name {
            let j = choose|j: int|
                0 <= j < all.len() && j != i && (#[trigger] all[j]).enabled && registry::cut_name(
                    all[j].name@,
                ) == name;
            assert(less[j].enabled);
        }
    }
}

proof fn some_name_counts(all: Seq<ServerTool>, name: Seq<char>)
    ensures
        registry::name_count(all, name) > 0 <==> exists|j: int|
            0 <= j < all.len() && (#[trigger] all[j]).enabled && registry::cut_name(all[j].name@)
                == name,
    decreases all.len(),
{
    if all.len() > 0 {
        let less = all.drop_last();
        some_name_counts(less, name);
        assert(all[all.len() - 1] == all.last());
        assert forall|j: int| 0 <= j < less.len() implies less[j] == #[trigger] all[j] by {
        }
        if registry::name_count(less, name) > 0 {
            let j = choose|j: int|
                0 <= j < less.len() && (#[trigger] less[j]).enabled && registry::cut_name(
                    less[j].name@,
                ) == name;
            assert(all[j].enabled);
        }
        if exists|j: int|
            0 <= j < all.len() && (#[trigger] all[j]).enabled && registry::cut_name(all[j].name@)
                == name {
            let j = choose|j: int|
                0 <= j < all.len() && (#[trigger] all[j]).enabled && registry::cut_name(
                    all[j].name@,
                ) == name;
            if j < less.len() {
                assert(less[j].enabled);
            }
        }
    }
}

/// What is said of a range that was shortened: what was done, how many messages and characters there
/// were, where, and under which marker.
pub proof fn reports_say_what_was_done(
    strategy: RewriteStrategy,
    id: Seq<char>,
    start: nat,
    end: nat,
    whole: Seq<char>,
)
    ensures
        rewrite_history_tool::rewrite_report(strategy, id, start, end, whole) == (
        if strategy == RewriteStrategy::Remove {
            "Removed "@
        } else {
            "Summarized "@
        }) + text::decimal((end - start + 1) as nat) + " message(s) (chars="@ + text::decimal(
            whole.len(),
        ) + ") at indices "@ + text::decimal(start) + ".."@ + text::decimal(end)
            + ". Replacement marker id="@ + id + "."@,
{
}

/// What is kept of a range is the Markdown form of every message in it.
pub proof fn the_original_holds_every_message(
    messages: Seq<message::MessageView>,
    start: int,
    end: int,
    i: int,
)
    requires
        0 <= start <= i <= end < messages.len(),
    ensures
        request_laws::has_part(
            rewrite_history_tool::original(messages, start, end),
            markdown::message_markdown(messages[i]),
        ),
{
    let range = messages.subrange(start, end + 1);
    let parts = range.map_values(|m: message::MessageView| markdown::message_markdown(m));
    text_laws::joined_parts_are_there(parts, "\n"@, i - start);
    assert(parts[i - start] == markdown::message_markdown(messages[i]));
}

} // verus!
