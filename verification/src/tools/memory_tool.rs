//! Managing the archive of a thread from inside a conversation.

use vstd::prelude::*;

use crate::archive;
use crate::json;
use crate::json::Json;
use crate::markdown;
use crate::memory;
use crate::memory::MemoryError;
use crate::message;
use crate::text;
use crate::thread;
use crate::thread::{Thread, ThreadMemorySegment};
use crate::token_usage;
use crate::tools;
use crate::tools::ToolKind;

verus! {

/// What is done with the archive. A range is half open: `end` does not belong to it.
#[derive(Debug, Clone, Copy, PartialEq, Eq, Structural)]
pub enum MemoryAction {
    /// Lists segments; a limit keeps the most recent ones.
    List { limit: Option<usize> },
    /// Sums the archive up.
    Stats,
    /// Archives a range.
    Store { start: usize, end: usize },
    /// Shows a segment, and its messages where they are asked for.
    Load { id: u64, include_messages: bool },
    /// Puts a segment back.
    Restore { id: u64 },
    /// Deletes a segment.
    Prune { id: u64 },
}

/// What the memory tool is asked for.
#[derive(Debug, Clone, Copy, PartialEq, Eq, Structural)]
pub struct MemoryToolInput {
    pub operation: MemoryAction,
}

/// Why the memory tool failed.
#[derive(Debug, Clone, Copy, PartialEq, Eq, Structural)]
pub enum MemoryToolError {
    InvalidRange { start: usize, end: usize },
    Memory(MemoryError),
}

impl MemoryToolError {
    /// The error in words.
    pub fn message(&self) -> (r: String)
        ensures
            r@ == match self {
                MemoryToolError::InvalidRange { start, end } => "invalid range: start ("@
                    + text::decimal(*start as nat) + ") must be < end ("@ + text::decimal(
                    *end as nat,
                ) + ")"@,
                MemoryToolError::Memory(e) => memory::error_text(*e),
            },
    {
        match self {
            MemoryToolError::InvalidRange { start, end } => {
                let mut out = "invalid range: start (".to_owned();
                out.append(text::count_text(*start).as_str());
                out.append(") must be < end (");
                out.append(text::count_text(*end).as_str());
                out.append(")");
                out
            },
            MemoryToolError::Memory(e) => e.message(),
        }
    }
}

// ---------------------------------------------------------------------------
// Segments as JSON
// ---------------------------------------------------------------------------

/// What is listed of a segment.
pub open spec fn listed(s: thread::SegmentView) -> json::JsonView {
    json::JsonView::Object(
        seq![
            ("id"@, json::JsonView::Unsigned(s.id)),
            ("start"@, json::JsonView::Unsigned(s.start as u64)),
            ("end"@, json::JsonView::Unsigned(s.end as u64)),
            ("count"@, json::JsonView::Unsigned(s.message_count as u64)),
            ("chars"@, json::JsonView::Unsigned(s.message_char_count as u64)),
            ("placeholder_chars"@, json::JsonView::Unsigned(s.placeholder_char_count as u64)),
            (
                "token_savings_estimate"@,
                json::JsonView::Unsigned(archive::saved_chars(s) as u64),
            ),
            ("summary"@, json::JsonView::Text(s.summary)),
            ("stored_epoch_ms"@, archive::time_view(s.stored_epoch_ms)),
        ],
    )
}

/// A segment put in behind those with no larger identifier.
pub open spec fn placed_by_id(
    sorted: Seq<thread::SegmentView>,
    s: thread::SegmentView,
) -> Seq<thread::SegmentView>
    decreases sorted.len(),
{
    if sorted.len() == 0 || sorted.last().id <= s.id {
        sorted.push(s)
    } else {
        placed_by_id(sorted.drop_last(), s).push(sorted.last())
    }
}

/// Segments by their identifiers.
pub open spec fn sorted_by_id(segments: Seq<thread::SegmentView>) -> Seq<thread::SegmentView>
    decreases segments.len(),
{
    if segments.len() == 0 {
        segments
    } else {
        placed_by_id(sorted_by_id(segments.drop_last()), segments.last())
    }
}

/// The last `limit` of a list, or all of it.
pub open spec fn most_recent(
    segments: Seq<thread::SegmentView>,
    limit: Option<usize>,
) -> Seq<thread::SegmentView> {
    match limit {
        Some(l) => if segments.len() > l {
            segments.skip(segments.len() - l)
        } else {
            segments
        },
        None => segments,
    }
}

/// The list of segments.
pub open spec fn segment_list(
    segments: Seq<thread::SegmentView>,
    limit: Option<usize>,
) -> Seq<json::JsonView> {
    most_recent(sorted_by_id(segments), limit).map_values(|s: thread::SegmentView| listed(s))
}

/// The sum of a number over segments.
pub open spec fn total(
    segments: Seq<thread::SegmentView>,
    count: spec_fn(thread::SegmentView) -> usize,
) -> nat
    decreases segments.len(),
{
    if segments.len() == 0 {
        0
    } else {
        total(segments.drop_last(), count) + count(segments.last()) as nat
    }
}

/// The number of archived messages.
pub open spec fn total_messages(segments: Seq<thread::SegmentView>) -> nat {
    total(segments, |s: thread::SegmentView| s.message_count)
}

/// The number of archived characters.
pub open spec fn total_chars(segments: Seq<thread::SegmentView>) -> nat {
    total(segments, |s: thread::SegmentView| s.message_char_count)
}

/// A sum as a JSON number.
pub open spec fn sum_view(n: nat) -> json::JsonView {
    json::JsonView::Unsigned(token_usage::capped(n) as usize as u64)
}

/// The archive summed up.
pub open spec fn stats(segments: Seq<thread::SegmentView>) -> json::JsonView {
    json::JsonView::Object(
        seq![
            ("segments"@, sum_view(segments.len())),
            ("messages"@, sum_view(total_messages(segments))),
            ("chars"@, sum_view(total_chars(segments))),
            (
                "placeholder_chars"@,
                sum_view(total(segments, |s: thread::SegmentView| s.placeholder_char_count)),
            ),
            (
                "aggregate_token_savings_estimate"@,
                sum_view(total(segments, |s: thread::SegmentView| archive::saved_chars(s))),
            ),
        ],
    )
}

/// What is listed of a segment.
pub fn listed_json(s: &ThreadMemorySegment) -> (r: Json)
    ensures
        r@ == listed(s@),
{
    broadcast use json::object_view;

    let saved = s.message_char_count.saturating_sub(s.placeholder_char_count);
    let mut fields: Vec<(String, Json)> = Vec::new();
    fields.push(("id".to_owned(), Json::Unsigned(s.id)));
    fields.push(("start".to_owned(), Json::Unsigned(s.start as u64)));
    fields.push(("end".to_owned(), Json::Unsigned(s.end as u64)));
    fields.push(("count".to_owned(), Json::Unsigned(s.message_count as u64)));
    fields.push(("chars".to_owned(), Json::Unsigned(s.message_char_count as u64)));
    fields.push(
        ("placeholder_chars".to_owned(), Json::Unsigned(s.placeholder_char_count as u64)),
    );
    fields.push(("token_savings_estimate".to_owned(), Json::Unsigned(saved as u64)));
    fields.push(("summary".to_owned(), Json::Text(s.summary.clone())));
    fields.push(("stored_epoch_ms".to_owned(), archive::time_value(s.stored_epoch_ms)));
    assert(json::fields_view(fields@) =~= listed(s@)->Object_0);
    Json::Object(fields)
}

/// Positions of segments, put in order by their identifiers.
fn place_position(
    order: &mut Vec<usize>,
    thread: &Thread,
    position: usize,
)
    requires
        position < thread.memory_segments@.len(),
        forall|k: int|
            0 <= k < old(order)@.len() ==> #[trigger] old(order)@[k]
                < thread.memory_segments@.len(),
    ensures
        positions_view(final(order)@, thread@.segments) == placed_by_id(
            positions_view(old(order)@, thread@.segments),
            thread@.segments[position as int],
        ),
        forall|k: int|
            0 <= k < final(order)@.len() ==> #[trigger] final(order)@[k]
                < thread.memory_segments@.len(),
    decreases old(order)@.len(),
{
    let ghost segments = thread@.segments;
    let ghost before = positions_view(order@, segments);
    assert(segments[position as int] == thread.memory_segments@[position as int]@);
    let n: usize = order.len();
    if n > 0 {
        let last: usize = order[n - 1];
        assert(before.last() == segments[last as int]);
        assert(segments[last as int] == thread.memory_segments@[last as int]@);
        if thread.memory_segments[last].id > thread.memory_segments[position].id {
            let ghost whole = order@;
            let _ = order.pop();
            assert(positions_view(order@, segments) =~= before.drop_last());
            assert forall|k: int| 0 <= k < order@.len() implies #[trigger] order@[k]
                < thread.memory_segments@.len() by {
                assert(order@[k] == whole[k]);
            }
            place_position(order, thread, position);
            let ghost placed = order@;
            order.push(last);
            assert(positions_view(order@, segments) =~= positions_view(placed, segments).push(
                segments[last as int],
            ));
            return ;
        }
    }
    let ghost seen = order@;
    order.push(position);
    assert(positions_view(order@, segments) =~= positions_view(seen, segments).push(
        segments[position as int],
    ));
}

/// The segments at positions.
pub open spec fn positions_view(
    order: Seq<usize>,
    segments: Seq<thread::SegmentView>,
) -> Seq<thread::SegmentView> {
    order.map_values(|p: usize| segments[p as int])
}

/// The list of segments.
pub fn segment_list_json(thread: &Thread, limit: Option<usize>) -> (r: Vec<Json>)
    ensures
        json::items_view(r@) == segment_list(thread@.segments, limit),
{
    let ghost segments = thread@.segments;
    let mut order: Vec<usize> = Vec::new();
    assert(positions_view(order@, segments) =~= sorted_by_id(segments.take(0)));
    for i in 0..thread.memory_segments.len()
        invariant
            segments == thread@.segments,
            forall|k: int|
                0 <= k < order@.len() ==> #[trigger] order@[k] < thread.memory_segments@.len(),
            positions_view(order@, segments) == sorted_by_id(segments.take(i as int)),
    {
        assert(segments.take(i + 1).drop_last() =~= segments.take(i as int));
        assert(segments.take(i + 1).last() == segments[i as int]);
        place_position(&mut order, thread, i);
    }
    assert(segments.take(segments.len() as int) =~= segments);
    let n: usize = order.len();
    let ghost sorted = sorted_by_id(segments);
    assert(sorted.len() == n);
    let from: usize = match limit {
        Some(l) => if n > l {
            n - l
        } else {
            0
        },
        None => 0,
    };
    assert(most_recent(sorted, limit) =~= sorted.skip(from as int));
    let mut out: Vec<Json> = Vec::new();
    for i in from..n
        invariant
            segments == thread@.segments,
            n == order@.len(),
            from <= n,
            sorted == positions_view(order@, segments),
            forall|k: int|
                0 <= k < order@.len() ==> #[trigger] order@[k] < thread.memory_segments@.len(),
            out@.len() == i - from,
            forall|k: int| 0 <= k < i - from ==> (#[trigger] out@[k])@ == listed(sorted[from + k]),
    {
        let p: usize = order[i];
        assert(sorted[i as int] == segments[p as int]);
        assert(segments[p as int] == thread.memory_segments@[p as int]@);
        out.push(listed_json(&thread.memory_segments[p]));
    }
    assert(json::items_view(out@) =~= segment_list(segments, limit));
    out
}

fn capped_sum(a: usize, b: usize) -> (r: usize)
    ensures
        r == token_usage::capped(a as nat + b as nat),
{
    a.saturating_add(b)
}

/// The archive summed up: segments, messages, characters, those of the placeholders, and the savings.
pub fn sums(thread: &Thread) -> (r: (usize, usize, usize, usize, usize))
    ensures
        r.0 == thread@.segments.len(),
        r.1 == token_usage::capped(total_messages(thread@.segments)),
        r.2 == token_usage::capped(total_chars(thread@.segments)),
        r.3 == token_usage::capped(
            total(thread@.segments, |s: thread::SegmentView| s.placeholder_char_count),
        ),
        r.4 == token_usage::capped(
            total(thread@.segments, |s: thread::SegmentView| archive::saved_chars(s)),
        ),
{
    let ghost segments = thread@.segments;
    let ghost f1 = |s: thread::SegmentView| s.message_count;
    let ghost f2 = |s: thread::SegmentView| s.message_char_count;
    let ghost f3 = |s: thread::SegmentView| s.placeholder_char_count;
    let ghost f4 = |s: thread::SegmentView| archive::saved_chars(s);
    let mut messages: usize = 0;
    let mut chars: usize = 0;
    let mut placeholder_chars: usize = 0;
    let mut savings: usize = 0;
    for i in 0..thread.memory_segments.len()
        invariant
            segments == thread::segment_views(thread.memory_segments@),
            f1 == (|s: thread::SegmentView| s.message_count),
            f2 == (|s: thread::SegmentView| s.message_char_count),
            f3 == (|s: thread::SegmentView| s.placeholder_char_count),
            f4 == (|s: thread::SegmentView| archive::saved_chars(s)),
            messages == token_usage::capped(total(segments.take(i as int), f1)),
            chars == token_usage::capped(total(segments.take(i as int), f2)),
            placeholder_chars == token_usage::capped(total(segments.take(i as int), f3)),
            savings == token_usage::capped(total(segments.take(i as int), f4)),
    {
        assert(segments.take(i + 1).drop_last() =~= segments.take(i as int));
        assert(segments.take(i + 1).last() == thread.memory_segments@[i as int]@);
        let s = &thread.memory_segments[i];
        messages = capped_sum(messages, s.message_count);
        chars = capped_sum(chars, s.message_char_count);
        placeholder_chars = capped_sum(placeholder_chars, s.placeholder_char_count);
        savings = capped_sum(
            savings,
            s.message_char_count.saturating_sub(s.placeholder_char_count),
        );
    }
    assert(segments.take(segments.len() as int) =~= segments);
    (thread.memory_segments.len(), messages, chars, placeholder_chars, savings)
}

fn stats_json(thread: &Thread) -> (r: Json)
    ensures
        r@ == stats(thread@.segments),
{
    broadcast use json::object_view;

    let (segments, messages, chars, placeholder_chars, savings) = sums(thread);
    let mut fields: Vec<(String, Json)> = Vec::new();
    fields.push(("segments".to_owned(), Json::Unsigned(segments as u64)));
    fields.push(("messages".to_owned(), Json::Unsigned(messages as u64)));
    fields.push(("chars".to_owned(), Json::Unsigned(chars as u64)));
    fields.push(("placeholder_chars".to_owned(), Json::Unsigned(placeholder_chars as u64)));
    fields.push(("aggregate_token_savings_estimate".to_owned(), Json::Unsigned(savings as u64)));
    assert(json::fields_view(fields@) =~= stats(thread@.segments)->Object_0);
    Json::Object(fields)
}

// ---------------------------------------------------------------------------
// The tool
// ---------------------------------------------------------------------------

/// The Markdown form of messages, each under a heading with its position.
pub open spec fn message_sections(messages: Seq<Seq<char>>) -> Seq<char>
    decreases messages.len(),
{
    if messages.len() == 0 {
        Seq::empty()
    } else {
        message_sections(messages.drop_last()) + ("### Message "@ + text::decimal(
            (messages.len() - 1) as nat,
        ) + "\n\n"@ + messages.last() + "\n\n"@)
    }
}

/// The messages of a segment in Markdown.
pub open spec fn segment_markdown(s: thread::SegmentView) -> Seq<Seq<char>> {
    s.messages.map_values(|m: message::MessageView| markdown::message_markdown(m))
}

/// The Markdown form of messages, each under a heading with its position.
pub fn message_sections_text(messages: &Vec<String>) -> (r: String)
    ensures
        r@ == message_sections(text::views(messages@)),
{
    let ghost all = text::views(messages@);
    let mut out = String::new();
    for i in 0..messages.len()
        invariant
            all == text::views(messages@),
            out@ == message_sections(all.take(i as int)),
    {
        assert(all.take(i + 1).drop_last() =~= all.take(i as int));
        assert(all.take(i + 1).last() == messages@[i as int]@);
        let mut section = "### Message ".to_owned();
        section.append(text::count_text(i).as_str());
        section.append("\n\n");
        section.append(messages[i].as_str());
        section.append("\n\n");
        out.append(section.as_str());
    }
    assert(all.take(all.len() as int) =~= all);
    out
}

/// Why an action fails on a thread, if it does.
pub open spec fn action_error(t: thread::ThreadView, action: MemoryAction) -> Option<
    MemoryToolError,
> {
    match action {
        MemoryAction::List { limit } => None,
        MemoryAction::Stats => None,
        MemoryAction::Store { start, end } => if start >= end {
            Some(MemoryToolError::InvalidRange { start, end })
        } else {
            match memory::store_error(t, start, (end - 1) as usize) {
                Some(e) => Some(MemoryToolError::Memory(e)),
                None => None,
            }
        },
        MemoryAction::Load { id, include_messages } => missing_segment(t, id),
        MemoryAction::Restore { id } => missing_segment(t, id),
        MemoryAction::Prune { id } => missing_segment(t, id),
    }
}

/// The error of an identifier without a segment.
pub open spec fn missing_segment(t: thread::ThreadView, id: u64) -> Option<MemoryToolError> {
    if memory::segment_index(t.segments, id) is None {
        Some(MemoryToolError::Memory(MemoryError::NoSegment { id }))
    } else {
        None
    }
}

/// The thread after an action that does not fail.
pub open spec fn after_action(
    t: thread::ThreadView,
    action: MemoryAction,
    now: u128,
) -> thread::ThreadView {
    match action {
        MemoryAction::Store { start, end } => memory::stored(
            t,
            start,
            (end - 1) as usize,
            None,
            now,
        ),
        MemoryAction::Restore { id } => memory::restored_by_id(t, id),
        MemoryAction::Prune { id } => memory::pruned(
            t,
            memory::segment_index(t.segments, id)->0,
        ),
        _ => t,
    }
}

/// The first segment with an identifier.
pub open spec fn segment_with(segments: Seq<thread::SegmentView>, id: u64) -> thread::SegmentView {
    segments[memory::segment_index(segments, id)->0]
}

/// What is said after an action that does not fail.
pub open spec fn action_text(
    t: thread::ThreadView,
    action: MemoryAction,
    now: u128,
) -> Seq<char> {
    match action {
        MemoryAction::List { limit } => tools::json_section(
            "# Stored Memory Segments"@,
            json::JsonView::Array(segment_list(t.segments, limit)),
        ),
        MemoryAction::Stats => tools::json_section("# Memory Stats"@, stats(t.segments)),
        MemoryAction::Store { start, end } => tools::json_section(
            "# Stored Memory Segment"@,
            listed(segment_with(after_action(t, action, now).segments, t.next_id)),
        ),
        MemoryAction::Load { id, include_messages } => {
            let s = segment_with(t.segments, id);
            tools::json_section("# Memory Segment"@, archive::segment_meta(s)) + (
            if include_messages {
                "\n## Messages\n\n"@ + message_sections(segment_markdown(s))
            } else {
                Seq::empty()
            })
        },
        MemoryAction::Restore { id } => {
            let s = segment_with(t.segments, id);
            tools::json_section("# Restored Memory Segment"@, archive::segment_meta(s))
                + "\n## Messages\n\n"@ + message_sections(segment_markdown(s))
        },
        MemoryAction::Prune { id } => "# Pruned Memory Segment\n\nRemoved segment "@
            + text::decimal(id as nat) + "\n"@,
    }
}

/// Manages the archive of a thread.
pub struct MemoryAgentTool;

impl MemoryAgentTool {
    /// The name of the tool.
    pub fn name() -> (r: &'static str)
        ensures
            r@ == "memory"@,
    {
        "memory"
    }

    /// What the tool does to its subject.
    pub fn kind() -> (r: ToolKind)
        ensures
            r == ToolKind::Read,
    {
        ToolKind::Read
    }

    /// The title of a call of the tool. The input is missing where it could not be read.
    pub fn initial_title(input: &Option<MemoryToolInput>) -> (r: String)
        ensures
            r@ == match input {
                Some(i) => match i.operation {
                    MemoryAction::List { limit } => "List memories"@,
                    MemoryAction::Stats => "Memory stats"@,
                    MemoryAction::Store { start, end } => "Archive ["@ + text::decimal(start as nat)
                        + ".."@ + text::decimal(end as nat) + ")"@,
                    MemoryAction::Load { id, include_messages } => "Load memory "@ + text::decimal(
                        id as nat,
                    ),
                    MemoryAction::Restore { id } => "Restore memory "@ + text::decimal(id as nat),
                    MemoryAction::Prune { id } => "Prune memory "@ + text::decimal(id as nat),
                },
                None => "Memory operation"@,
            },
    {
        match input {
            Some(i) => match i.operation {
                MemoryAction::List { limit: _ } => "List memories".to_owned(),
                MemoryAction::Stats => "Memory stats".to_owned(),
                MemoryAction::Store { start, end } => {
                    let mut out = "Archive [".to_owned();
                    out.append(text::count_text(start).as_str());
                    out.append("..");
                    out.append(text::count_text(end).as_str());
                    out.append(")");
                    out
                },
                MemoryAction::Load { id, include_messages: _ } => {
                    let mut out = "Load memory ".to_owned();
                    out.append(text::decimal_text(id as u128).as_str());
                    out
                },
                MemoryAction::Restore { id } => {
                    let mut out = "Restore memory ".to_owned();
                    out.append(text::decimal_text(id as u128).as_str());
                    out
                },
                MemoryAction::Prune { id } => {
                    let mut out = "Prune memory ".to_owned();
                    out.append(text::decimal_text(id as u128).as_str());
                    out
                },
            },
            None => "Memory operation".to_owned(),
        }
    }

    /// What is said where the thread is gone.
    pub fn thread_gone() -> (r: String)
        ensures
            r@ == "# Memory\n\nThread no longer exists.\n"@,
    {
        "# Memory\n\nThread no longer exists.\n".to_owned()
    }

    /// Does what the tool is asked for. `now` is the time, in milliseconds.
    pub fn run(thread: &mut Thread, input: &MemoryToolInput, now: u128) -> (r: Result<
        String,
        MemoryToolError,
    >)
        ensures
            match r {
                Ok(out) => action_error(old(thread)@, input.operation) is None && out@
                    == action_text(old(thread)@, input.operation, now) && final(thread)@
                    == after_action(old(thread)@, input.operation, now),
                Err(e) => action_error(old(thread)@, input.operation) == Some(e) && final(thread)@
                    == old(thread)@,
            },
    {
        broadcast use json::array_view;

        let ghost before = thread@;
        match input.operation {
            MemoryAction::List { limit } => {
                let list = Json::Array(segment_list_json(thread, limit));
                Ok(tools::json_section_text("# Stored Memory Segments", &list))
            },
            MemoryAction::Stats => {
                Ok(tools::json_section_text("# Memory Stats", &stats_json(thread)))
            },
            MemoryAction::Store { start, end } => {
                if start >= end {
                    return Err(MemoryToolError::InvalidRange { start, end });
                }
                let id = match thread.store_memory_segment(start, end - 1, now) {
                    Ok(id) => id,
                    Err(e) => return Err(MemoryToolError::Memory(e)),
                };
                proof {
                    memory::segment_index_is_first(thread@.segments, id);
                    assert(thread@.segments.last().id == id);
                }
                let index = memory::find_segment(&thread.memory_segments, id);
                match index {
                    Some(i) => {
                        assert(thread@.segments[i as int] == thread.memory_segments@[i as int]@);
                        let shown = listed_json(&thread.memory_segments[i]);
                        Ok(tools::json_section_text("# Stored Memory Segment", &shown))
                    },
                    None => {
                        assert(false);
                        Err(MemoryToolError::Memory(MemoryError::NoSegment { id }))
                    },
                }
            },
            MemoryAction::Load { id, include_messages } => {
                let (meta, messages) = match thread.load_memory_segment(id) {
                    Ok(loaded) => loaded,
                    Err(e) => return Err(MemoryToolError::Memory(e)),
                };
                let mut out = tools::json_section_text("# Memory Segment", &meta);
                let mut shown = String::new();
                if include_messages {
                    shown = "\n## Messages\n\n".to_owned();
                    shown.append(message_sections_text(&messages).as_str());
                }
                out.append(shown.as_str());
                Ok(out)
            },
            MemoryAction::Restore { id } => {
                if let Err(e) = thread.restore_memory_segment(id) {
                    return Err(MemoryToolError::Memory(e));
                }
                assert(thread@.segments == before.segments);
                let (meta, messages) = match thread.load_memory_segment(id) {
                    Ok(loaded) => loaded,
                    Err(e) => {
                        assert(false);
                        return Err(MemoryToolError::Memory(e));
                    },
                };
                let mut out = tools::json_section_text("# Restored Memory Segment", &meta);
                out.append("\n## Messages\n\n");
                out.append(message_sections_text(&messages).as_str());
                Ok(out)
            },
            MemoryAction::Prune { id } => {
                if let Err(e) = thread.prune_memory_segment(id) {
                    return Err(MemoryToolError::Memory(e));
                }
                let mut out = "# Pruned Memory Segment\n\nRemoved segment ".to_owned();
                out.append(text::decimal_text(id as u128).as_str());
                out.append("\n");
                Ok(out)
            },
        }
    }
}

// ---------------------------------------------------------------------------
// Laws
// ---------------------------------------------------------------------------

/// Whether segments stand in ascending order of their identifiers.
pub open spec fn ascending(segments: Seq<thread::SegmentView>) -> bool {
    forall|i: int, j: int|
        0 <= i < j < segments.len() ==> (#[trigger] segments[i]).id <= (#[trigger] segments[j]).id
}

/// Placing a segment keeps the order, and adds that segment and nothing else.
proof fn placing_keeps_order(sorted: Seq<thread::SegmentView>, s: thread::SegmentView)
    requires
        ascending(sorted),
    ensures
        ascending(placed_by_id(sorted, s)),
        placed_by_id(sorted, s).to_multiset() == sorted.to_multiset().insert(s),
        placed_by_id(sorted, s).len() == sorted.len() + 1,
    decreases sorted.len(),
{
    let now = placed_by_id(sorted, s);
    vstd::seq_lib::to_multiset_build(sorted, s);
    if sorted.len() == 0 || sorted.last().id <= s.id {
        assert(ascending(now));
    } else {
        let less = sorted.drop_last();
        placing_keeps_order(less, s);
        let before = placed_by_id(less, s);
        vstd::seq_lib::to_multiset_build(before, sorted.last());
        vstd::seq_lib::to_multiset_build(less, sorted.last());
        assert(less.push(sorted.last()) =~= sorted);
        assert(now.to_multiset() =~= sorted.to_multiset().insert(s));
        assert forall|i: int| 0 <= i < before.len() implies (#[trigger] before[i]).id
            <= sorted.last().id by {
            before.to_multiset_ensures();
            assert(before.contains(before[i]));
            assert(before.to_multiset().count(before[i]) > 0);
            if before[i] != s {
                less.to_multiset_ensures();
                assert(less.to_multiset().count(before[i]) > 0);
                assert(less.contains(before[i]));
                let k = choose|k: int| 0 <= k < less.len() && less[k] == before[i];
                assert(sorted[k] == before[i]);
                assert(sorted[sorted.len() - 1] == sorted.last());
            }
        }
        assert(ascending(now));
    }
}

/// Sorting by identifiers loses no segment and adds none.
pub proof fn sorting_keeps_the_segments(segments: Seq<thread::SegmentView>)
    ensures
        ascending(sorted_by_id(segments)),
        sorted_by_id(segments).to_multiset() == segments.to_multiset(),
        sorted_by_id(segments).len() == segments.len(),
    decreases segments.len(),
{
    if segments.len() > 0 {
        let less = segments.drop_last();
        sorting_keeps_the_segments(less);
        placing_keeps_order(sorted_by_id(less), segments.last());
        vstd::seq_lib::to_multiset_build(less, segments.last());
        assert(less.push(segments.last()) =~= segments);
    }
}

/// The list of segments tells of the segments with the largest identifiers: as many as the limit says,
/// or all of them, in ascending order; no segment that is left out has a larger identifier than one that
/// is listed. With those that are left out they are the segments of the thread, each once.
pub proof fn the_most_recent_segments_are_listed(
    segments: Seq<thread::SegmentView>,
    limit: Option<usize>,
)
    ensures
        exists|left_out: Seq<thread::SegmentView>, kept: Seq<thread::SegmentView>|
            {
                &&& #[trigger] (left_out + kept).to_multiset() == segments.to_multiset()
                &&& (left_out + kept).len() == segments.len()
                &&& kept.len() == (if limit is Some && limit->0 < segments.len() {
                    limit->0 as nat
                } else {
                    segments.len()
                })
                &&& forall|i: int, j: int|
                    0 <= i < j < kept.len() ==> (#[trigger] kept[i]).id <= (#[trigger] kept[j]).id
                &&& forall|i: int, j: int|
                    0 <= i < left_out.len() && 0 <= j < kept.len() ==> (#[trigger] left_out[i]).id <= (
                    #[trigger] kept[j]).id
                &&& segment_list(segments, limit).len() == kept.len()
                &&& forall|i: int|
                    0 <= i < kept.len() ==> tells_of(
                        #[trigger] segment_list(segments, limit)[i],
                        kept[i],
                    )
            },
{
    sorting_keeps_the_segments(segments);
    let sorted = sorted_by_id(segments);
    let kept = most_recent(sorted, limit);
    let left_out = sorted.take(sorted.len() - kept.len());
    assert(left_out + kept =~= sorted);
    assert forall|i: int, j: int| 0 <= i < j < kept.len() implies (#[trigger] kept[i]).id <= (
    #[trigger] kept[j]).id by {
        assert(kept[i] == sorted[i + left_out.len()]);
        assert(kept[j] == sorted[j + left_out.len()]);
    }
    assert forall|i: int, j: int| 0 <= i < left_out.len() && 0 <= j < kept.len() implies (
    #[trigger] left_out[i]).id <= (#[trigger] kept[j]).id by {
        assert(left_out[i] == sorted[i]);
        assert(kept[j] == sorted[j + left_out.len()]);
    }
    assert forall|i: int| 0 <= i < kept.len() implies tells_of(
        #[trigger] segment_list(segments, limit)[i],
        kept[i],
    ) by {
        listed_tells_of(kept[i]);
    }
}

/// Whether an object has a value under a name.
pub open spec fn has_value(j: json::JsonView, name: Seq<char>, v: json::JsonView) -> bool {
    j matches json::JsonView::Object(fields) && exists|i: int|
        0 <= i < fields.len() && #[trigger] fields[i] == (name, v) && forall|k: int|
            0 <= k < fields.len() && k != i ==> (#[trigger] fields[k]).0 != name
}

/// Whether an entry tells what is known of a segment: its identifier, its range, how many messages and
/// characters it has, those of its placeholder, how many are saved, its summary and its time.
pub open spec fn tells_of(entry: json::JsonView, s: thread::SegmentView) -> bool {
    let saved = if s.message_char_count > s.placeholder_char_count {
        (s.message_char_count - s.placeholder_char_count) as u64
    } else {
        0
    };
    &&& has_value(entry, "id"@, json::JsonView::Unsigned(s.id))
    &&& has_value(entry, "start"@, json::JsonView::Unsigned(s.start as u64))
    &&& has_value(entry, "end"@, json::JsonView::Unsigned(s.end as u64))
    &&& has_value(entry, "count"@, json::JsonView::Unsigned(s.message_count as u64))
    &&& has_value(entry, "chars"@, json::JsonView::Unsigned(s.message_char_count as u64))
    &&& has_value(
        entry,
        "placeholder_chars"@,
        json::JsonView::Unsigned(s.placeholder_char_count as u64),
    )
    &&& has_value(entry, "token_savings_estimate"@, json::JsonView::Unsigned(saved))
    &&& has_value(entry, "summary"@, json::JsonView::Text(s.summary))
    &&& has_value(
        entry,
        "stored_epoch_ms"@,
        if s.stored_epoch_ms <= u64::MAX {
            json::JsonView::Unsigned(s.stored_epoch_ms as u64)
        } else {
            json::JsonView::Decimal(text::decimal(s.stored_epoch_ms as nat))
        },
    )
}

proof fn names_differ()
    ensures
        ({
            let names = seq![
                "id"@,
                "start"@,
                "end"@,
                "count"@,
                "chars"@,
                "placeholder_chars"@,
                "token_savings_estimate"@,
                "summary"@,
                "stored_epoch_ms"@,
            ];
            forall|i: int, j: int| 0 <= i < j < 9 ==> #[trigger] names[i] != #[trigger] names[j]
        }),
{
    reveal_strlit("id");
    reveal_strlit("start");
    reveal_strlit("end");
    reveal_strlit("count");
    reveal_strlit("chars");
    reveal_strlit("placeholder_chars");
    reveal_strlit("token_savings_estimate");
    reveal_strlit("summary");
    reveal_strlit("stored_epoch_ms");
    assert("start"@[0] != "count"@[0]);
    assert("start"@[0] != "chars"@[0]);
    assert("count"@[1] != "chars"@[1]);
    let names = seq![
        "id"@,
        "start"@,
        "end"@,
        "count"@,
        "chars"@,
        "placeholder_chars"@,
        "token_savings_estimate"@,
        "summary"@,
        "stored_epoch_ms"@,
    ];
    assert(names[0].len() == 2 && names[2].len() == 3 && names[5].len() == 17);
    assert(names[6].len() == 22 && names[7].len() == 7 && names[8].len() == 15);
    assert(names[1].len() == 5 && names[3].len() == 5 && names[4].len() == 5);
    assert(names[1] == "start"@ && names[3] == "count"@ && names[4] == "chars"@);
}

/// What is listed of a segment, and what is told of it when it is loaded, tells what is known of it.
pub proof fn listed_tells_of(s: thread::SegmentView)
    ensures
        tells_of(listed(s), s),
        tells_of(archive::segment_meta(s), s),
{
    names_differ();
    let fields = listed(s)->Object_0;
    let names = seq![
        "id"@,
        "start"@,
        "end"@,
        "count"@,
        "chars"@,
        "placeholder_chars"@,
        "token_savings_estimate"@,
        "summary"@,
        "stored_epoch_ms"@,
    ];
    assert forall|i: int, k: int| 0 <= i < 9 && 0 <= k < 9 && k != i implies (#[trigger] fields[k]).0
        != (#[trigger] fields[i]).0 by {
        assert(fields[i].0 == names[i]);
        assert(fields[k].0 == names[k]);
    }
    assert(fields[0] == ("id"@, json::JsonView::Unsigned(s.id)));
    assert(fields[1].0 == "start"@ && fields[2].0 == "end"@ && fields[3].0 == "count"@);
    assert(fields[4].0 == "chars"@ && fields[5].0 == "placeholder_chars"@);
    assert(fields[6].0 == "token_savings_estimate"@ && fields[7].0 == "summary"@ && fields[8].0
        == "stored_epoch_ms"@);
    let told = archive::segment_meta(s)->Object_0;
    assert forall|i: int, k: int| 0 <= i < 9 && 0 <= k < 9 && k != i implies (#[trigger] told[k]).0
        != (#[trigger] told[i]).0 by {
        let at = |n: int|
            if n < 5 {
                n
            } else if n == 5 {
                7
            } else if n == 6 {
                8
            } else if n == 7 {
                5
            } else {
                6
            };
        assert(told[i].0 == names[at(i)]);
        assert(told[k].0 == names[at(k)]);
    }
    assert(told[0] == ("id"@, json::JsonView::Unsigned(s.id)));
    assert(told[1].0 == "start"@ && told[2].0 == "end"@ && told[3].0 == "count"@);
    assert(told[4].0 == "chars"@ && told[7].0 == "placeholder_chars"@);
    assert(told[8].0 == "token_savings_estimate"@ && told[5].0 == "summary"@ && told[6].0
        == "stored_epoch_ms"@);
}

} // verus!
