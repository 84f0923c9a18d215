//! What holds of the tools that a thread offers to other programs: they show and do what the tools of
//! the thread show and do.

use vstd::prelude::*;
use vstd::utf8::*;

use crate::archive_laws;
use crate::embedded_mcp;
use crate::embedded_mcp::{MemoryProxyError, MemoryProxyOperation};
use crate::json;
use crate::markdown;
use crate::memory;
use crate::message;
use crate::request_laws;
use crate::text;
use crate::text_laws;
use crate::thread;
use crate::tools::laws;
use crate::tools::list_history_tool::ListHistoryToolInput;
use crate::tools::memory_tool;
use crate::tools::memory_tool::{MemoryAction, MemoryToolError};

verus! {

// ---------------------------------------------------------------------------
// History
// ---------------------------------------------------------------------------

/// The messages that are shown lie in the thread: there is at least one, they start where it is asked
/// for, or at the last one, and there are as many as the limit says, up to five hundred, or all that
/// are left.
pub proof fn shown_messages_lie_in_the_thread(input: ListHistoryToolInput, total: int)
    requires
        0 < total,
    ensures
        ({
            let start = embedded_mcp::shown_start(input, total);
            let end = embedded_mcp::shown_end(input, total);
            &&& 0 <= start < end <= total
            &&& input.start < total ==> start == input.start
            &&& input.start >= total ==> start == total - 1
            &&& 1 <= input.limit <= 500 && input.limit <= total - start ==> end - start
                == input.limit
            &&& 1 <= input.limit && input.limit > total - start ==> end == total || end - start
                == 500
            &&& end - start <= 500
        }),
{
}

/// The preview of a message tells its position, who speaks, how many bytes it has, and whether it was
/// cut; one that was not is the message as it is, and one that was is its start.
pub proof fn previews_tell_of_their_message(
    messages: Seq<message::MessageView>,
    start: int,
    end: int,
    max: int,
    i: int,
)
    requires
        0 <= start <= i < end <= messages.len(),
        0 <= max,
    ensures
        ({
            let shown = embedded_mcp::previews(messages, start, end, max);
            let p = shown[i - start];
            let md = markdown::message_markdown(messages[i]);
            &&& shown.len() == end - start
            &&& p.index == i
            &&& p.role == if messages[i] is Agent {
                "assistant"@
            } else {
                "user"@
            }
            &&& p.chars == encode_utf8(md).len()
            &&& p.truncated == (encode_utf8(md).len() > max)
            &&& !p.truncated ==> p.preview == md
            &&& p.truncated ==> p.preview.last() == '…' && p.preview.drop_last() == md.take(
                p.preview.len() - 1,
            ) && p.preview.len() <= max + 1
            &&& p.truncated && md.len() >= max ==> p.preview.len() == max + 1
        }),
{
    archive_laws::shortened_texts_are_starts(markdown::message_markdown(messages[i]), max);
}

/// The table has one row for each preview, in order.
pub proof fn every_preview_has_a_row(previews: Seq<embedded_mcp::PreviewView>)
    ensures
        embedded_mcp::preview_rows(previews) == previews.map_values(
            |p: embedded_mcp::PreviewView| table_row(p),
        ).flatten(),
    decreases previews.len(),
{
    let rows = previews.map_values(|p: embedded_mcp::PreviewView| table_row(p));
    if previews.len() == 0 {
        assert(rows.flatten() =~= Seq::empty());
    } else {
        every_preview_has_a_row(previews.drop_last());
        assert(rows.drop_last() =~= previews.drop_last().map_values(
            |p: embedded_mcp::PreviewView| table_row(p),
        ));
        text_laws::flattened_one_by_one(rows);
        rows_are_escaped(previews.last());
    }
}

/// A row of the table: position, role, bytes, whether it was cut, and the preview, its bars escaped.
pub open spec fn table_row(p: embedded_mcp::PreviewView) -> Seq<char> {
    "| "@ + text::decimal(p.index as nat) + " | "@ + p.role + " | "@ + text::decimal(p.chars as nat)
        + " | "@ + (if p.truncated {
        "true"@
    } else {
        "false"@
    }) + " | "@ + text::join(text::split(p.preview, '|'), "\\|"@) + " |\n"@
}

/// A row holds a preview without bars as it is.
pub proof fn rows_are_escaped(p: embedded_mcp::PreviewView)
    ensures
        embedded_mcp::preview_row(p) == table_row(p),
        !p.preview.contains('|') ==> request_laws::has_part(embedded_mcp::preview_row(p), p.preview),
{
    text_laws::replacing_joins_the_pieces(p.preview, '|', "\\|"@);
    if !p.preview.contains('|') {
        text_laws::nothing_is_replaced(p.preview, '|', "\\|"@);
        let head = "| "@ + text::decimal(p.index as nat) + " | "@ + p.role + " | "@ + text::decimal(
            p.chars as nat,
        ) + " | "@ + (embedded_mcp::bool_text(p.truncated)) + " | "@;
        assert(embedded_mcp::preview_row(p) == head + p.preview + " |\n"@);
    }
}

/// Where full texts are asked for, each message that is shown stands as it is under its position, in
/// order.
pub proof fn every_message_stands_in_full(
    messages: Seq<message::MessageView>,
    start: int,
    end: int,
)
    requires
        0 <= start <= end <= messages.len(),
    ensures
        embedded_mcp::full_sections(messages, start, end) == Seq::new(
            (end - start) as nat,
            |i: int|
                "### Message "@ + text::decimal((start + i) as nat) + "\n\n"@
                    + markdown::message_markdown(messages[start + i]) + "\n"@,
        ).flatten(),
    decreases end - start,
{
    let parts = Seq::new(
        (end - start) as nat,
        |i: int|
            "### Message "@ + text::decimal((start + i) as nat) + "\n\n"@
                + markdown::message_markdown(messages[start + i]) + "\n"@,
    );
    if end == start {
        assert(parts.flatten() =~= Seq::empty());
    } else {
        every_message_stands_in_full(messages, start, end - 1);
        assert(parts.drop_last() =~= Seq::new(
            (end - 1 - start) as nat,
            |i: int|
                "### Message "@ + text::decimal((start + i) as nat) + "\n\n"@
                    + markdown::message_markdown(messages[start + i]) + "\n"@,
        ));
        text_laws::flattened_one_by_one(parts);
    }
}

/// The history in words says how many messages there are, which are shown and how many, and holds the
/// table and, where they are asked for, the full texts.
pub proof fn the_history_holds_what_is_shown(
    messages: Seq<message::MessageView>,
    input: ListHistoryToolInput,
)
    requires
        messages.len() > 0,
    ensures
        ({
            let total = messages.len() as int;
            let start = embedded_mcp::shown_start(input, total);
            let end = embedded_mcp::shown_end(input, total);
            let said = embedded_mcp::history_text(messages, input);
            let head = "# Conversation History\n\n"@ + "Total messages: "@ + text::decimal(
                messages.len(),
            ) + "\nShowing range: "@ + (text::decimal(start as nat) + ".."@ + text::decimal(
                (end - 1) as nat,
            )) + "\nMessages shown: "@ + text::decimal((end - start) as nat) + "\n\n"@;
            &&& exists|b: Seq<char>| said == #[trigger] (head + b)
            &&& request_laws::has_part(
                said,
                embedded_mcp::preview_rows(
                    embedded_mcp::previews(
                        messages,
                        start,
                        end,
                        input.max_chars_per_message as int,
                    ),
                ),
            )
            &&& input.include_full_markdown ==> request_laws::has_part(
                said,
                embedded_mcp::full_sections(messages, start, end),
            )
        }),
{
    let total = messages.len() as int;
    let start = embedded_mcp::shown_start(input, total);
    let end = embedded_mcp::shown_end(input, total);
    let said = embedded_mcp::history_text(messages, input);
    let head = "# Conversation History\n\n"@ + "Total messages: "@ + text::decimal(messages.len())
        + "\nShowing range: "@ + (text::decimal(start as nat) + ".."@ + text::decimal(
        (end - 1) as nat,
    )) + "\nMessages shown: "@ + text::decimal((end - start) as nat) + "\n\n"@;
    let columns =
        "| index | role | chars | truncated | preview |\n|-------|------|-------|-----------|---------|\n"@;
    let rows = embedded_mcp::preview_rows(
        embedded_mcp::previews(messages, start, end, input.max_chars_per_message as int),
    );
    let full = embedded_mcp::full_sections(messages, start, end);
    let none = Seq::<char>::empty();
    if input.include_full_markdown {
        let heading = "\n\n## Full Markdown\n\n"@;
        assert(said == head + columns + rows + (heading + full));
        four_in_a_row(head, columns, rows, heading + full);
        assert(head + columns + rows + (heading + full) =~= (head + columns + rows + heading) + full
            + none);
    } else {
        assert(said == head + columns + rows + none);
        four_in_a_row(head, columns, rows, none);
    }
}

proof fn four_in_a_row(a: Seq<char>, b: Seq<char>, c: Seq<char>, d: Seq<char>)
    ensures
        a + b + c + d == a + (b + c + d),
        a + b + c + d == (a + b) + c + d,
{
    assert(a + b + c + d =~= a + (b + c + d));
}

// ---------------------------------------------------------------------------
// Archive
// ---------------------------------------------------------------------------

/// The operation of the tool of the thread that an operation stands for.
pub open spec fn own_action(op: MemoryProxyOperation) -> MemoryAction {
    match op {
        MemoryProxyOperation::List { limit } => MemoryAction::List { limit },
        MemoryProxyOperation::Store { start, end, summary } => MemoryAction::Store { start, end },
        MemoryProxyOperation::Load { id, include_messages } => MemoryAction::Load {
            id,
            include_messages,
        },
        MemoryProxyOperation::Restore { id } => MemoryAction::Restore { id },
        MemoryProxyOperation::Prune { id } => MemoryAction::Prune { id },
        MemoryProxyOperation::Stats => MemoryAction::Stats,
    }
}

/// Another program does to the archive what the thread does itself: it fails where that fails, and
/// leaves the thread as that leaves it.
pub proof fn programs_do_what_the_thread_does(
    t: thread::ThreadView,
    op: MemoryProxyOperation,
    now: u128,
)
    ensures
        embedded_mcp::after_operation(t, op, now) == memory_tool::after_action(
            t,
            own_action(op),
            now,
        ),
        match memory_tool::action_error(t, own_action(op)) {
            None => embedded_mcp::proxy_error(t, op) is None,
            Some(MemoryToolError::InvalidRange { start, end }) => embedded_mcp::proxy_error(t, op)
                == Some(MemoryProxyError::EmptyRange),
            Some(MemoryToolError::Memory(e)) => embedded_mcp::proxy_error(t, op) == Some(
                MemoryProxyError::Memory(e),
            ),
        },
{
}

/// What another program is told of an operation that did not fail: that it did not, and the segments
/// that were listed, the segment that was stored, loaded or put back, with its messages where they are
/// asked for or were put back, or the sums of the archive.
pub proof fn programs_are_told_what_was_asked_for(
    t: thread::ThreadView,
    op: MemoryProxyOperation,
    now: u128,
)
    requires
        embedded_mcp::proxy_error(t, op) is None,
        memory::segment_index(t.segments, t.next_id) is None,
    ensures
        ({
            let told = embedded_mcp::proxy_output(t, op, now);
            &&& told.success
            &&& match op {
                MemoryProxyOperation::List { limit } => told.operation == "list"@ && told.segments
                    == Some(memory_tool::segment_list(t.segments, limit)) && told.message
                    == text::decimal(memory_tool::segment_list(t.segments, limit).len())
                    + " segments"@,
                MemoryProxyOperation::Stats => told.operation == "stats"@ && (told.stats matches
                    Some(sums) && memory_tool::has_value(
                    sums,
                    "segments"@,
                    archive_laws::at_most(t.segments.len()),
                ) && memory_tool::has_value(
                    sums,
                    "messages"@,
                    archive_laws::at_most(
                        archive_laws::sum_of(
                            t.segments,
                            |s: thread::SegmentView| s.message_count,
                        ),
                    ),
                ) && memory_tool::has_value(
                    sums,
                    "chars"@,
                    archive_laws::at_most(
                        archive_laws::sum_of(
                            t.segments,
                            |s: thread::SegmentView| s.message_char_count,
                        ),
                    ),
                )),
                MemoryProxyOperation::Store { start, end, summary } => told.operation == "store"@
                    && (told.segment matches Some(j) && memory_tool::tells_of(
                    j,
                    embedded_mcp::after_operation(t, op, now).segments.last(),
                )),
                MemoryProxyOperation::Load { id, include_messages } => told.operation == "load"@ && (
                told.segment matches Some(j) && exists|i: int|
                    0 <= i < t.segments.len() && (#[trigger] t.segments[i]).id == id
                        && memory_tool::tells_of(j, t.segments[i]) && (include_messages
                        ==> told.restored_messages == Some(
                        t.segments[i].messages.map_values(
                            |m: message::MessageView| markdown::message_markdown(m),
                        ),
                    ))) && (!include_messages ==> told.restored_messages is None),
                MemoryProxyOperation::Restore { id } => told.operation == "restore"@ && (
                told.segment matches Some(j) && exists|i: int|
                    0 <= i < t.segments.len() && (#[trigger] t.segments[i]).id == id
                        && memory_tool::tells_of(j, t.segments[i]) && told.restored_messages
                        == Some(
                        t.segments[i].messages.map_values(
                            |m: message::MessageView| markdown::message_markdown(m),
                        ),
                    )),
                MemoryProxyOperation::Prune { id } => told.operation == "prune"@ && told.message
                    == "segment "@ + text::decimal(id as nat) + " pruned"@,
            }
        }),
{
    match op {
        MemoryProxyOperation::List { limit } => {},
        MemoryProxyOperation::Stats => {
            sums_are_told(t.segments);
        },
        MemoryProxyOperation::Store { start, end, summary } => {
            memory_tool::listed_tells_of(
                memory::new_segment(t, start, (end - 1) as usize, None, now),
            );
        },
        MemoryProxyOperation::Load { id, include_messages } => {
            memory::segment_index_is_first(t.segments, id);
            memory_tool::listed_tells_of(memory_tool::segment_with(t.segments, id));
        },
        MemoryProxyOperation::Restore { id } => {
            memory::segment_index_is_first(t.segments, id);
            memory_tool::listed_tells_of(memory_tool::segment_with(t.segments, id));
        },
        MemoryProxyOperation::Prune { id } => {},
    }
}

proof fn sums_are_told(segments: Seq<thread::SegmentView>)
    ensures
        ({
            let sums = embedded_mcp::proxy_stats(segments);
            &&& memory_tool::has_value(sums, "segments"@, archive_laws::at_most(segments.len()))
            &&& memory_tool::has_value(
                sums,
                "messages"@,
                archive_laws::at_most(
                    archive_laws::sum_of(segments, |s: thread::SegmentView| s.message_count),
                ),
            )
            &&& memory_tool::has_value(
                sums,
                "chars"@,
                archive_laws::at_most(
                    archive_laws::sum_of(segments, |s: thread::SegmentView| s.message_char_count),
                ),
            )
        }),
{
    reveal_strlit("segments");
    reveal_strlit("messages");
    reveal_strlit("chars");
    assert("segments"@[0] != "messages"@[0]);
    archive_laws::totals_add_up(segments, |s: thread::SegmentView| s.message_count);
    archive_laws::totals_add_up(segments, |s: thread::SegmentView| s.message_char_count);
    let fields = embedded_mcp::proxy_stats(segments)->Object_0;
    assert(fields[0] == ("segments"@, archive_laws::at_most(segments.len())));
    assert(fields[1] == (
        "messages"@,
        archive_laws::at_most(
            archive_laws::sum_of(segments, |s: thread::SegmentView| s.message_count),
        ),
    ));
    assert(fields[2] == (
        "chars"@,
        archive_laws::at_most(
            archive_laws::sum_of(segments, |s: thread::SegmentView| s.message_char_count),
        ),
    ));
}

/// What another program is told in words holds what it is told in its structured form.
pub proof fn words_hold_what_is_told(t: thread::ThreadView, op: MemoryProxyOperation, now: u128)
    ensures
        ({
            let said = embedded_mcp::proxy_text(t, op, now);
            let told = embedded_mcp::proxy_output(t, op, now);
            &&& told.segments matches Some(list) ==> request_laws::has_part(
                said,
                json::pretty_json(json::JsonView::Array(list)),
            )
            &&& told.stats matches Some(sums) ==> request_laws::has_part(
                said,
                json::pretty_json(sums),
            )
            &&& told.segment matches Some(j) ==> request_laws::has_part(said, json::pretty_json(j))
            &&& told.restored_messages matches Some(messages) ==> request_laws::has_part(
                said,
                memory_tool::message_sections(messages),
            )
            &&& op matches MemoryProxyOperation::Prune { id } ==> request_laws::has_part(
                said,
                text::decimal(id as nat),
            )
        }),
{
    let said = embedded_mcp::proxy_text(t, op, now);
    let none = Seq::<char>::empty();
    let open = "\n\n```json\n"@;
    let close = "\n```\n"@;
    match op {
        MemoryProxyOperation::List { limit } => {
            let j = json::JsonView::Array(memory_tool::segment_list(t.segments, limit));
            laws::sections_hold_their_value("# Memory Segments"@, j);
        },
        MemoryProxyOperation::Stats => {
            laws::sections_hold_their_value(
                "# Memory Stats"@,
                embedded_mcp::proxy_stats(t.segments),
            );
        },
        MemoryProxyOperation::Store { start, end, summary } => {
            let j = memory_tool::listed(
                memory::new_segment(t, start, (end - 1) as usize, None, now),
            );
            laws::sections_hold_their_value("# Stored Memory Segment"@, j);
        },
        MemoryProxyOperation::Load { id, include_messages } => {
            let s = memory_tool::segment_with(t.segments, id);
            let meta = json::pretty_json(crate::archive::segment_meta(s));
            let shown = memory_tool::message_sections(memory_tool::segment_markdown(s));
            let head = "# Memory Segment"@ + open;
            if include_messages {
                assert(said =~= head + meta + (close + "\n## Messages\n\n"@ + shown));
                assert(said =~= (head + meta + close + "\n## Messages\n\n"@) + shown + none);
            } else {
                assert(said =~= head + meta + close);
            }
        },
        MemoryProxyOperation::Restore { id } => {
            let s = memory_tool::segment_with(t.segments, id);
            let meta = json::pretty_json(crate::archive::segment_meta(s));
            let shown = memory_tool::message_sections(memory_tool::segment_markdown(s));
            let head = "# Restored Memory Segment"@ + open;
            assert(said =~= head + meta + (close + "\n## Messages\n\n"@ + shown));
            assert(said =~= (head + meta + close + "\n## Messages\n\n"@) + shown + none);
        },
        MemoryProxyOperation::Prune { id } => {
            assert(said == "# Pruned Memory Segment\n\nRemoved "@ + text::decimal(id as nat)
                + "\n"@);
        },
    }
}

} // verus!
