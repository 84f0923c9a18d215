//! The tools that a thread offers to other programs: its history, its archive, and the call of a
//! context tool. Each answer is a text and its structured form.

use vstd::prelude::*;
use vstd::utf8::*;

use crate::archive;
use crate::json;
use crate::json::Json;
use crate::markdown;
use crate::memory;
use crate::memory::MemoryError;
use crate::message;
use crate::message::{Message, Role};
use crate::text;
use crate::thread;
use crate::thread::Thread;
use crate::tools;
use crate::tools::list_history_tool;
use crate::tools::list_history_tool::ListHistoryToolInput;
use crate::tools::memory_tool;

verus! {

// ---------------------------------------------------------------------------
// History
// ---------------------------------------------------------------------------

/// A text with its bars escaped, for a cell of a Markdown table.
pub fn escape_pipes(s: &str) -> (r: String)
    ensures
        r@ == text::substitute(s@, '|', "\\|"@),
        list_history_tool::bars_escaped(r@),
{
    proof {
        list_history_tool::escaping_leaves_no_bare_bar(s@);
    }
    text::substitute_text(s, '|', "\\|")
}

/// The name of a role.
pub open spec fn role_text(role: Role) -> Seq<char> {
    match role {
        Role::User => "user"@,
        Role::Assistant => "assistant"@,
        Role::System => "system"@,
    }
}

fn role_text_of(role: Role) -> (r: String)
    ensures
        r@ == role_text(role),
{
    match role {
        Role::User => "user".to_owned(),
        Role::Assistant => "assistant".to_owned(),
        Role::System => "system".to_owned(),
    }
}

/// What is shown of a message.
#[derive(Debug)]
pub struct ListHistoryMessagePreview {
    pub index: usize,
    pub role: String,
    pub chars: usize,
    pub truncated: bool,
    pub preview: String,
}

pub ghost struct PreviewView {
    pub index: int,
    pub role: Seq<char>,
    pub chars: int,
    pub truncated: bool,
    pub preview: Seq<char>,
}

impl View for ListHistoryMessagePreview {
    type V = PreviewView;

    open spec fn view(&self) -> PreviewView {
        PreviewView {
            index: self.index as int,
            role: self.role@,
            chars: self.chars as int,
            truncated: self.truncated,
            preview: self.preview@,
        }
    }
}

/// What previews hold.
pub open spec fn preview_views(previews: Seq<ListHistoryMessagePreview>) -> Seq<PreviewView> {
    previews.map_values(|p: ListHistoryMessagePreview| p@)
}

/// What is shown of a message: a text that is longer than `max` bytes is cut after `max` characters.
pub open spec fn preview_of(m: message::MessageView, index: int, max: int) -> PreviewView {
    let md = markdown::message_markdown(m);
    PreviewView {
        index,
        role: role_text(markdown::role_of(m)),
        chars: encode_utf8(md).len() as int,
        truncated: encode_utf8(md).len() > max,
        preview: memory::shortened(md, max),
    }
}

/// What is shown of the messages from `start` up to `end`.
pub open spec fn previews(
    messages: Seq<message::MessageView>,
    start: int,
    end: int,
    max: int,
) -> Seq<PreviewView> {
    Seq::new(
        if end > start {
            (end - start) as nat
        } else {
            0
        },
        |i: int| preview_of(messages[start + i], start + i, max),
    )
}

/// Whether something holds, as a word.
pub open spec fn bool_text(b: bool) -> Seq<char> {
    if b {
        "true"@
    } else {
        "false"@
    }
}

/// A row of the table.
pub open spec fn preview_row(p: PreviewView) -> Seq<char> {
    "| "@ + text::decimal(p.index as nat) + " | "@ + p.role + " | "@ + text::decimal(
        p.chars as nat,
    ) + " | "@ + bool_text(p.truncated) + " | "@ + text::substitute(p.preview, '|', "\\|"@)
        + " |\n"@
}

pub open spec fn preview_rows(previews: Seq<PreviewView>) -> Seq<char>
    decreases previews.len(),
{
    if previews.len() == 0 {
        Seq::empty()
    } else {
        preview_rows(previews.drop_last()) + preview_row(previews.last())
    }
}

/// The Markdown form of the messages from `start` up to `end`, each under a heading.
pub open spec fn full_sections(
    messages: Seq<message::MessageView>,
    start: int,
    end: int,
) -> Seq<char>
    decreases end - start,
{
    if end <= start {
        Seq::empty()
    } else {
        full_sections(messages, start, end - 1) + ("### Message "@ + text::decimal(
            (end - 1) as nat,
        ) + "\n\n"@ + markdown::message_markdown(messages[end - 1]) + "\n"@)
    }
}

/// The messages that are shown: they start no later than the last one.
pub open spec fn shown_start(input: ListHistoryToolInput, total: int) -> int {
    if input.start < total {
        input.start as int
    } else {
        total - 1
    }
}

pub open spec fn shown_end(input: ListHistoryToolInput, total: int) -> int {
    list_history_tool::list_end(
        shown_start(input, total),
        list_history_tool::clamped(input.limit as int, 1, 500),
        total,
    )
}

/// The first and the last message that are shown.
pub open spec fn shown_range(input: ListHistoryToolInput, total: int) -> Seq<char> {
    text::decimal(shown_start(input, total) as nat) + ".."@ + text::decimal(
        (shown_end(input, total) - 1) as nat,
    )
}

/// The history in words.
pub open spec fn history_text(
    messages: Seq<message::MessageView>,
    input: ListHistoryToolInput,
) -> Seq<char> {
    let total = messages.len() as int;
    let start = shown_start(input, total);
    let end = shown_end(input, total);
    "# Conversation History\n\n"@ + "Total messages: "@ + text::decimal(total as nat)
        + "\nShowing range: "@ + shown_range(input, total) + "\nMessages shown: "@ + text::decimal(
        (end - start) as nat,
    ) + "\n\n"@
        + "| index | role | chars | truncated | preview |\n|-------|------|-------|-----------|---------|\n"@
        + preview_rows(previews(messages, start, end, input.max_chars_per_message as int)) + (
    if input.include_full_markdown {
        "\n\n## Full Markdown\n\n"@ + full_sections(messages, start, end)
    } else {
        Seq::empty()
    })
}

/// The history in its structured form.
#[derive(Debug)]
pub struct ListHistoryOutput {
    pub total_messages: usize,
    pub showing_range: String,
    pub messages_shown: usize,
    pub messages: Vec<ListHistoryMessagePreview>,
    pub full_markdown: Option<Vec<String>>,
}

impl ListHistoryOutput {
    /// Whether nothing is shown.
    pub open spec fn shows_nothing(self) -> bool {
        &&& self.total_messages == 0
        &&& self.showing_range@ == "0..0"@
        &&& self.messages_shown == 0
        &&& self.messages@.len() == 0
        &&& self.full_markdown is None
    }

    fn nothing() -> (r: ListHistoryOutput)
        ensures
            r.shows_nothing(),
    {
        ListHistoryOutput {
            total_messages: 0,
            showing_range: "0..0".to_owned(),
            messages_shown: 0,
            messages: Vec::new(),
            full_markdown: None,
        }
    }
}

fn preview_row_text(p: &ListHistoryMessagePreview) -> (r: String)
    ensures
        r@ == preview_row(p@),
{
    let mut out = "| ".to_owned();
    out.append(text::count_text(p.index).as_str());
    out.append(" | ");
    out.append(p.role.as_str());
    out.append(" | ");
    out.append(text::count_text(p.chars).as_str());
    out.append(" | ");
    if p.truncated {
        out.append("true");
    } else {
        out.append("false");
    }
    out.append(" | ");
    out.append(escape_pipes(p.preview.as_str()).as_str());
    out.append(" |\n");
    out
}

fn preview_of_message(m: &Message, index: usize, max: usize) -> (r: ListHistoryMessagePreview)
    ensures
        r@ == preview_of(m@, index as int, max as int),
{
    let md = m.to_markdown();
    let chars = text::byte_len(md.as_str());
    ListHistoryMessagePreview {
        index,
        role: role_text_of(m.role()),
        chars,
        truncated: chars > max,
        preview: memory::shorten(md.as_str(), max),
    }
}

/// Lists the messages of the thread that is open. `None` stands for no thread.
pub fn list_history(thread: Option<&Thread>, input: &ListHistoryToolInput) -> (r: (
    ListHistoryOutput,
    String,
))
    ensures
        match thread {
            None => r.0.shows_nothing() && r.1@ == "# Conversation History\n\nNo active thread."@,
            Some(t) => if t@.messages.len() == 0 {
                r.0.shows_nothing() && r.1@ == "# Conversation History\n\nThread is empty."@
            } else {
                let total = t@.messages.len() as int;
                let start = shown_start(*input, total);
                let end = shown_end(*input, total);
                &&& r.1@ == history_text(t@.messages, *input)
                &&& r.0.total_messages == total
                &&& r.0.showing_range@ == shown_range(*input, total)
                &&& r.0.messages_shown == end - start
                &&& preview_views(r.0.messages@) == previews(
                    t@.messages,
                    start,
                    end,
                    input.max_chars_per_message as int,
                )
                &&& match r.0.full_markdown {
                    Some(all) => input.include_full_markdown && text::views(all@)
                        == t@.messages.subrange(start, end).map_values(
                        |m: message::MessageView| markdown::message_markdown(m),
                    ),
                    None => !input.include_full_markdown,
                }
            },
        },
{
    let t = match thread {
        None => {
            return (
                ListHistoryOutput::nothing(),
                "# Conversation History\n\nNo active thread.".to_owned(),
            );
        },
        Some(t) => t,
    };
    let ghost all = t@.messages;
    let total: usize = t.messages.len();
    assert(all.len() == total);
    if total == 0 {
        return (
            ListHistoryOutput::nothing(),
            "# Conversation History\n\nThread is empty.".to_owned(),
        );
    }
    let max: usize = input.max_chars_per_message;
    let start: usize = if input.start < total {
        input.start
    } else {
        total - 1
    };
    let limit = list_history_tool::clamp(input.limit, 1, 500);
    let end: usize = if limit < total - start {
        start + limit
    } else {
        total
    };
    let mut showing_range = text::count_text(start);
    showing_range.append("..");
    showing_range.append(text::count_text(end - 1).as_str());

    let ghost wanted = previews(all, start as int, end as int, max as int);
    let mut shown: Vec<ListHistoryMessagePreview> = Vec::new();
    let mut rows = String::new();
    let mut sections = String::new();
    let mut full: Vec<String> = Vec::new();
    assert(wanted.take(0) =~= Seq::<PreviewView>::empty());
    assert(preview_views(shown@) =~= wanted.take(0));
    for i in start..end
        invariant
            all == message::message_views(t.messages@),
            start <= end <= t.messages@.len(),
            wanted == previews(all, start as int, end as int, max as int),
            preview_views(shown@) == wanted.take(i - start),
            rows@ == preview_rows(wanted.take(i - start)),
            sections@ == full_sections(all, start as int, i as int),
            full@.len() == i - start,
            shown@.len() == i - start,
            forall|k: int|
                0 <= k < i - start ==> (#[trigger] full@[k])@ == markdown::message_markdown(
                    all[start + k],
                ),
    {
        assert(all[i as int] == t.messages@[i as int]@);
        let p = preview_of_message(&t.messages[i], i, max);
        assert(p@ == wanted[i - start]);
        assert(wanted.take(i - start + 1).drop_last() =~= wanted.take(i - start));
        assert(wanted.take(i - start + 1) =~= wanted.take(i - start).push(p@));
        rows.append(preview_row_text(&p).as_str());
        let ghost seen = shown@;
        shown.push(p);
        assert(preview_views(shown@) =~= preview_views(seen).push(p@));
        let md = t.messages[i].to_markdown();
        let mut section = "### Message ".to_owned();
        section.append(text::count_text(i).as_str());
        section.append("\n\n");
        section.append(md.as_str());
        section.append("\n");
        sections.append(section.as_str());
        full.push(md);
    }
    assert(wanted.take(end - start) =~= wanted);
    assert(text::views(full@) =~= all.subrange(start as int, end as int).map_values(
        |m: message::MessageView| markdown::message_markdown(m),
    ));

    let mut txt = "# Conversation History\n\n".to_owned();
    txt.append("Total messages: ");
    txt.append(text::count_text(total).as_str());
    txt.append("\nShowing range: ");
    txt.append(showing_range.as_str());
    txt.append("\nMessages shown: ");
    txt.append(text::count_text(shown.len()).as_str());
    txt.append("\n\n");
    txt.append(
        "| index | role | chars | truncated | preview |\n|-------|------|-------|-----------|---------|\n",
    );
    txt.append(rows.as_str());
    let mut tail = String::new();
    let mut full_markdown: Option<Vec<String>> = None;
    if input.include_full_markdown {
        tail = "\n\n## Full Markdown\n\n".to_owned();
        tail.append(sections.as_str());
        full_markdown = Some(full);
    }
    txt.append(tail.as_str());
    (
        ListHistoryOutput {
            total_messages: total,
            showing_range,
            messages_shown: shown.len(),
            messages: shown,
            full_markdown,
        },
        txt,
    )
}

// ---------------------------------------------------------------------------
// Archive
// ---------------------------------------------------------------------------

/// What is done with the archive. A range is half open: `end` does not belong to it. The summary of a
/// range is an automatic one.
#[derive(Debug)]
pub enum MemoryProxyOperation {
    List { limit: Option<usize> },
    Store { start: usize, end: usize, summary: Option<String> },
    Load { id: u64, include_messages: bool },
    Restore { id: u64 },
    Prune { id: u64 },
    Stats,
}

/// Why the archive could not be changed.
#[derive(Debug, Clone, Copy, PartialEq, Eq, Structural)]
pub enum MemoryProxyError {
    EmptyRange,
    Memory(MemoryError),
}

impl MemoryProxyError {
    /// The error in words.
    pub fn message(&self) -> (r: String)
        ensures
            r@ == match self {
                MemoryProxyError::EmptyRange => "start must be < end"@,
                MemoryProxyError::Memory(e) => memory::error_text(*e),
            },
    {
        match self {
            MemoryProxyError::EmptyRange => "start must be < end".to_owned(),
            MemoryProxyError::Memory(e) => e.message(),
        }
    }
}

/// The answer in its structured form.
#[derive(Debug)]
pub struct MemoryProxyOutput {
    pub operation: String,
    pub success: bool,
    pub message: String,
    pub segment: Option<Json>,
    pub segments: Option<Vec<Json>>,
    pub restored_messages: Option<Vec<String>>,
    pub stats: Option<Json>,
}

pub ghost struct ProxyView {
    pub operation: Seq<char>,
    pub success: bool,
    pub message: Seq<char>,
    pub segment: Option<json::JsonView>,
    pub segments: Option<Seq<json::JsonView>>,
    pub restored_messages: Option<Seq<Seq<char>>>,
    pub stats: Option<json::JsonView>,
}

impl View for MemoryProxyOutput {
    type V = ProxyView;

    open spec fn view(&self) -> ProxyView {
        ProxyView {
            operation: self.operation@,
            success: self.success,
            message: self.message@,
            segment: match self.segment {
                Some(j) => Some(j@),
                None => None,
            },
            segments: match self.segments {
                Some(list) => Some(json::items_view(list@)),
                None => None,
            },
            restored_messages: match self.restored_messages {
                Some(list) => Some(text::views(list@)),
                None => None,
            },
            stats: match self.stats {
                Some(j) => Some(j@),
                None => None,
            },
        }
    }
}

/// An answer that says no more than what was done.
pub open spec fn answer(operation: Seq<char>, message: Seq<char>) -> ProxyView {
    ProxyView {
        operation,
        success: true,
        message,
        segment: None,
        segments: None,
        restored_messages: None,
        stats: None,
    }
}

/// The archive summed up.
pub open spec fn proxy_stats(segments: Seq<thread::SegmentView>) -> json::JsonView {
    json::JsonView::Object(
        seq![
            ("segments"@, memory_tool::sum_view(segments.len())),
            ("messages"@, memory_tool::sum_view(memory_tool::total_messages(segments))),
            ("chars"@, memory_tool::sum_view(memory_tool::total_chars(segments))),
        ],
    )
}

/// Why an operation fails on a thread, if it does.
pub open spec fn proxy_error(t: thread::ThreadView, op: MemoryProxyOperation) -> Option<
    MemoryProxyError,
> {
    match op {
        MemoryProxyOperation::Store { start, end, summary } => if start >= end {
            Some(MemoryProxyError::EmptyRange)
        } else {
            match memory::store_error(t, start, (end - 1) as usize) {
                Some(e) => Some(MemoryProxyError::Memory(e)),
                None => None,
            }
        },
        MemoryProxyOperation::Load { id, include_messages } => missing(t, id),
        MemoryProxyOperation::Restore { id } => missing(t, id),
        MemoryProxyOperation::Prune { id } => missing(t, id),
        _ => None,
    }
}

/// The error of an identifier without a segment.
pub open spec fn missing(t: thread::ThreadView, id: u64) -> Option<MemoryProxyError> {
    if memory::segment_index(t.segments, id) is None {
        Some(MemoryProxyError::Memory(MemoryError::NoSegment { id }))
    } else {
        None
    }
}

/// The thread after an operation that does not fail.
pub open spec fn after_operation(
    t: thread::ThreadView,
    op: MemoryProxyOperation,
    now: u128,
) -> thread::ThreadView {
    match op {
        MemoryProxyOperation::Store { start, end, summary } => memory::stored(
            t,
            start,
            (end - 1) as usize,
            None,
            now,
        ),
        MemoryProxyOperation::Restore { id } => memory::restored_by_id(t, id),
        MemoryProxyOperation::Prune { id } => memory::pruned(
            t,
            memory::segment_index(t.segments, id)->0,
        ),
        _ => t,
    }
}

/// The structured answer of an operation that does not fail.
pub open spec fn proxy_output(
    t: thread::ThreadView,
    op: MemoryProxyOperation,
    now: u128,
) -> ProxyView {
    match op {
        MemoryProxyOperation::List { limit } => {
            let list = memory_tool::segment_list(t.segments, limit);
            ProxyView {
                segments: Some(list),
                ..answer("list"@, text::decimal(list.len()) + " segments"@)
            }
        },
        MemoryProxyOperation::Stats => ProxyView {
            stats: Some(proxy_stats(t.segments)),
            ..answer("stats"@, "stats retrieved"@)
        },
        MemoryProxyOperation::Store { start, end, summary } => ProxyView {
            segment: Some(
                memory_tool::listed(
                    memory::new_segment(t, start, (end - 1) as usize, None, now),
                ),
            ),
            ..answer("store"@, "segment stored"@)
        },
        MemoryProxyOperation::Load { id, include_messages } => {
            let s = memory_tool::segment_with(t.segments, id);
            ProxyView {
                segment: Some(archive::segment_meta(s)),
                restored_messages: if include_messages {
                    Some(memory_tool::segment_markdown(s))
                } else {
                    None
                },
                ..answer("load"@, "segment loaded"@)
            }
        },
        MemoryProxyOperation::Restore { id } => {
            let s = memory_tool::segment_with(t.segments, id);
            ProxyView {
                segment: Some(archive::segment_meta(s)),
                restored_messages: Some(memory_tool::segment_markdown(s)),
                ..answer("restore"@, "segment restored (messages reinserted)"@)
            }
        },
        MemoryProxyOperation::Prune { id } => answer(
            "prune"@,
            "segment "@ + text::decimal(id as nat) + " pruned"@,
        ),
    }
}

/// The answer of an operation that does not fail, in words.
pub open spec fn proxy_text(
    t: thread::ThreadView,
    op: MemoryProxyOperation,
    now: u128,
) -> Seq<char> {
    match op {
        MemoryProxyOperation::List { limit } => tools::json_section(
            "# Memory Segments"@,
            json::JsonView::Array(memory_tool::segment_list(t.segments, limit)),
        ),
        MemoryProxyOperation::Stats => tools::json_section(
            "# Memory Stats"@,
            proxy_stats(t.segments),
        ),
        MemoryProxyOperation::Store { start, end, summary } => tools::json_section(
            "# Stored Memory Segment"@,
            memory_tool::listed(memory::new_segment(t, start, (end - 1) as usize, None, now)),
        ),
        MemoryProxyOperation::Load { id, include_messages } => {
            let s = memory_tool::segment_with(t.segments, id);
            tools::json_section("# Memory Segment"@, archive::segment_meta(s)) + (
            if include_messages {
                "\n## Messages\n\n"@ + memory_tool::message_sections(
                    memory_tool::segment_markdown(s),
                )
            } else {
                Seq::empty()
            })
        },
        MemoryProxyOperation::Restore { id } => {
            let s = memory_tool::segment_with(t.segments, id);
            tools::json_section("# Restored Memory Segment"@, archive::segment_meta(s))
                + "\n## Messages\n\n"@ + memory_tool::message_sections(
                memory_tool::segment_markdown(s),
            )
        },
        MemoryProxyOperation::Prune { id } => "# Pruned Memory Segment\n\nRemoved "@
            + text::decimal(id as nat) + "\n"@,
    }
}

/// An optional number, as it is shown for debugging.
pub open spec fn debug_opt(n: Option<usize>) -> Seq<char> {
    match n {
        Some(n) => "Some("@ + text::decimal(n as nat) + ")"@,
        None => "None"@,
    }
}

/// An operation, as it is shown for debugging.
pub open spec fn debug_operation(op: MemoryProxyOperation) -> Seq<char> {
    match op {
        MemoryProxyOperation::List { limit } => "List { limit: "@ + debug_opt(limit) + " }"@,
        MemoryProxyOperation::Store { start, end, summary } => "Store { start: "@ + text::decimal(
            start as nat,
        ) + ", end: "@ + text::decimal(end as nat) + ", summary: "@ + (match summary {
            Some(s) => "Some("@ + text::debug_form(s@) + ")"@,
            None => "None"@,
        }) + " }"@,
        MemoryProxyOperation::Load { id, include_messages } => "Load { id: "@ + text::decimal(
            id as nat,
        ) + ", include_messages: "@ + bool_text(include_messages) + " }"@,
        MemoryProxyOperation::Restore { id } => "Restore { id: "@ + text::decimal(id as nat)
            + " }"@,
        MemoryProxyOperation::Prune { id } => "Prune { id: "@ + text::decimal(id as nat) + " }"@,
        MemoryProxyOperation::Stats => "Stats"@,
    }
}

fn debug_operation_text(op: &MemoryProxyOperation) -> (r: String)
    ensures
        r@ == debug_operation(*op),
{
    match op {
        MemoryProxyOperation::List { limit } => {
            let mut out = "List { limit: ".to_owned();
            let shown = match limit {
                Some(n) => {
                    let mut shown = "Some(".to_owned();
                    shown.append(text::count_text(*n).as_str());
                    shown.append(")");
                    shown
                },
                None => "None".to_owned(),
            };
            out.append(shown.as_str());
            out.append(" }");
            out
        },
        MemoryProxyOperation::Store { start, end, summary } => {
            let mut out = "Store { start: ".to_owned();
            out.append(text::count_text(*start).as_str());
            out.append(", end: ");
            out.append(text::count_text(*end).as_str());
            out.append(", summary: ");
            let shown = match summary {
                Some(s) => {
                    let mut shown = "Some(".to_owned();
                    shown.append(text::debug_text(s.as_str()).as_str());
                    shown.append(")");
                    shown
                },
                None => "None".to_owned(),
            };
            out.append(shown.as_str());
            out.append(" }");
            out
        },
        MemoryProxyOperation::Load { id, include_messages } => {
            let mut out = "Load { id: ".to_owned();
            out.append(text::decimal_text(*id as u128).as_str());
            out.append(", include_messages: ");
            if *include_messages {
                out.append("true");
            } else {
                out.append("false");
            }
            out.append(" }");
            out
        },
        MemoryProxyOperation::Restore { id } => {
            let mut out = "Restore { id: ".to_owned();
            out.append(text::decimal_text(*id as u128).as_str());
            out.append(" }");
            out
        },
        MemoryProxyOperation::Prune { id } => {
            let mut out = "Prune { id: ".to_owned();
            out.append(text::decimal_text(*id as u128).as_str());
            out.append(" }");
            out
        },
        MemoryProxyOperation::Stats => "Stats".to_owned(),
    }
}

fn plain_answer(operation: &str, message: String) -> (r: MemoryProxyOutput)
    ensures
        r@ == answer(operation@, message@),
{
    MemoryProxyOutput {
        operation: operation.to_owned(),
        success: true,
        message,
        segment: None,
        segments: None,
        restored_messages: None,
        stats: None,
    }
}

/// The answer where no thread is open.
pub fn memory_without_thread(op: &MemoryProxyOperation) -> (r: (MemoryProxyOutput, String))
    ensures
        r.0@ == (ProxyView {
            success: false,
            ..answer(text::lowercase(debug_operation(*op)), "No active thread available"@)
        }),
        r.1@ == "# Memory\n\nNo active thread available."@,
{
    let shown = text::lowercase_text(debug_operation_text(op).as_str());
    let mut output = plain_answer(shown.as_str(), "No active thread available".to_owned());
    output.success = false;
    (output, "# Memory\n\nNo active thread available.".to_owned())
}

fn proxy_stats_json(thread: &Thread) -> (r: Json)
    ensures
        r@ == proxy_stats(thread@.segments),
{
    broadcast use json::object_view;

    let (segments, messages, chars, _placeholder_chars, _savings) = memory_tool::sums(thread);
    let mut fields: Vec<(String, Json)> = Vec::new();
    fields.push(("segments".to_owned(), Json::Unsigned(segments as u64)));
    fields.push(("messages".to_owned(), Json::Unsigned(messages as u64)));
    fields.push(("chars".to_owned(), Json::Unsigned(chars as u64)));
    assert(json::fields_view(fields@) =~= proxy_stats(thread@.segments)->Object_0);
    Json::Object(fields)
}

/// Does what is asked of the archive of the thread that is open. `now` is the time, in milliseconds.
pub fn run_memory_proxy(thread: &mut Thread, op: &MemoryProxyOperation, now: u128) -> (r: Result<
    (MemoryProxyOutput, String),
    MemoryProxyError,
>)
    ensures
        match r {
            Ok((output, said)) => proxy_error(old(thread)@, *op) is None && output@ == proxy_output(
                old(thread)@,
                *op,
                now,
            ) && said@ == proxy_text(old(thread)@, *op, now) && final(thread)@
                == after_operation(old(thread)@, *op, now),
            Err(e) => proxy_error(old(thread)@, *op) == Some(e) && final(thread)@ == old(thread)@,
        },
{
    broadcast use json::array_view;

    let ghost before = thread@;
    match op {
        MemoryProxyOperation::List { limit } => {
            let list = memory_tool::segment_list_json(thread, *limit);
            let ghost listed = json::items_view(list@);
            assert(listed.len() == list@.len());
            let mut message = text::count_text(list.len());
            message.append(" segments");
            let mut output = plain_answer("list", message);
            let whole = Json::Array(list);
            let said = tools::json_section_text("# Memory Segments", &whole);
            output.segments = Some(memory_tool::segment_list_json(thread, *limit));
            Ok((output, said))
        },
        MemoryProxyOperation::Stats => {
            let stats = proxy_stats_json(thread);
            let said = tools::json_section_text("# Memory Stats", &stats);
            let mut output = plain_answer("stats", "stats retrieved".to_owned());
            output.stats = Some(stats);
            Ok((output, said))
        },
        MemoryProxyOperation::Store { start, end, summary: _ } => {
            if *start >= *end {
                return Err(MemoryProxyError::EmptyRange);
            }
            match thread.store_memory_segment(*start, *end - 1, now) {
                Ok(_) => {},
                Err(e) => return Err(MemoryProxyError::Memory(e)),
            }
            let n: usize = thread.memory_segments.len();
            assert(thread@.segments.len() == n);
            assert(thread@.segments.last() == thread.memory_segments@[n - 1]@);
            let shown = memory_tool::listed_json(&thread.memory_segments[n - 1]);
            let said = tools::json_section_text("# Stored Memory Segment", &shown);
            let mut output = plain_answer("store", "segment stored".to_owned());
            output.segment = Some(shown);
            Ok((output, said))
        },
        MemoryProxyOperation::Load { id, include_messages } => {
            let (meta, messages) = match thread.load_memory_segment(*id) {
                Ok(loaded) => loaded,
                Err(e) => return Err(MemoryProxyError::Memory(e)),
            };
            let mut said = tools::json_section_text("# Memory Segment", &meta);
            let mut output = plain_answer("load", "segment loaded".to_owned());
            output.segment = Some(meta);
            let mut shown = String::new();
            if *include_messages {
                shown = "\n## Messages\n\n".to_owned();
                shown.append(memory_tool::message_sections_text(&messages).as_str());
                output.restored_messages = Some(messages);
            }
            said.append(shown.as_str());
            Ok((output, said))
        },
        MemoryProxyOperation::Restore { id } => {
            if let Err(e) = thread.restore_memory_segment(*id) {
                return Err(MemoryProxyError::Memory(e));
            }
            assert(thread@.segments == before.segments);
            let (meta, messages) = match thread.load_memory_segment(*id) {
                Ok(loaded) => loaded,
                Err(e) => {
                    assert(false);
                    return Err(MemoryProxyError::Memory(e));
                },
            };
            let mut said = tools::json_section_text("# Restored Memory Segment", &meta);
            said.append("\n## Messages\n\n");
            said.append(memory_tool::message_sections_text(&messages).as_str());
            let mut output = plain_answer(
                "restore",
                "segment restored (messages reinserted)".to_owned(),
            );
            output.segment = Some(meta);
            output.restored_messages = Some(messages);
            Ok((output, said))
        },
        MemoryProxyOperation::Prune { id } => {
            if let Err(e) = thread.prune_memory_segment(*id) {
                return Err(MemoryProxyError::Memory(e));
            }
            let mut message = "segment ".to_owned();
            message.append(text::decimal_text(*id as u128).as_str());
            message.append(" pruned");
            let mut said = "# Pruned Memory Segment\n\nRemoved ".to_owned();
            said.append(text::decimal_text(*id as u128).as_str());
            said.append("\n");
            Ok((plain_answer("prune", message), said))
        },
    }
}

// ---------------------------------------------------------------------------
// Calls without a thread
// ---------------------------------------------------------------------------

/// The answer to the call of a context tool.
#[derive(Debug)]
pub struct CallContextOutput {
    pub tool_name: String,
    pub success: bool,
    pub message: String,
}

/// Answers the call of a context tool: no tool is reached by it.
pub fn call_context_tool(tool_name: &str, input: &Json) -> (r: (CallContextOutput, String))
    ensures
        r.0.tool_name@ == tool_name@,
        !r.0.success,
        r.0.message@ == "No context tool registry wired"@,
        r.1@ == "# Call Context Tool\n\nRequested tool: "@ + tool_name@
            + "\nNot yet wired to execution context.\nInput: "@ + json::debug_json(input@) + "\n"@,
{
    let mut said = "# Call Context Tool\n\nRequested tool: ".to_owned();
    said.append(tool_name);
    said.append("\nNot yet wired to execution context.\nInput: ");
    said.append(json::to_debug(input).as_str());
    said.append("\n");
    (
        CallContextOutput {
            tool_name: tool_name.to_owned(),
            success: false,
            message: "No context tool registry wired".to_owned(),
        },
        said,
    )
}

/// Answers the call of a context tool in a program that has no thread.
pub fn call_context_tool_unwired(tool_name: &str, input: &Json) -> (r: (CallContextOutput, String))
    ensures
        r.0.tool_name@ == tool_name@,
        !r.0.success,
        r.0.message@ == "Context tool '"@ + tool_name@
            + "' requires active thread context or registry wiring"@,
        r.1@ == "# Call Context Tool: "@ + tool_name@
            + "\n\nNote: This tool requires access to an active thread context.\nTool: "@
            + tool_name@ + "\nInput: "@ + json::debug_json(input@) + "\n"@,
{
    let mut message = "Context tool '".to_owned();
    message.append(tool_name);
    message.append("' requires active thread context or registry wiring");
    let mut said = "# Call Context Tool: ".to_owned();
    said.append(tool_name);
    said.append("\n\nNote: This tool requires access to an active thread context.\nTool: ");
    said.append(tool_name);
    said.append("\nInput: ");
    said.append(json::to_debug(input).as_str());
    said.append("\n");
    (CallContextOutput { tool_name: tool_name.to_owned(), success: false, message }, said)
}

/// Lists messages in a program that has no thread.
pub fn list_history_unwired(input: &ListHistoryToolInput) -> (r: (ListHistoryOutput, String))
    ensures
        r.0.total_messages == 0,
        r.0.messages_shown == 0,
        r.0.messages@.len() == 0,
        r.0.full_markdown is None,
        r.0.showing_range@ == text::decimal(input.start as nat) + ".."@ + text::decimal(
            input.start as nat,
        ),
        r.1@
            == "# Conversation History\n\nNote: This tool requires access to an active thread context.\nTotal messages: 0\nRequested range: start="@
            + text::decimal(input.start as nat) + ", limit="@ + text::decimal(input.limit as nat)
            + "\n"@,
{
    let mut output = ListHistoryOutput::nothing();
    let mut range = text::count_text(input.start);
    range.append("..");
    range.append(text::count_text(input.start).as_str());
    output.showing_range = range;
    let mut said =
        "# Conversation History\n\nNote: This tool requires access to an active thread context.\nTotal messages: 0\nRequested range: start=".to_owned();
    said.append(text::count_text(input.start).as_str());
    said.append(", limit=");
    said.append(text::count_text(input.limit).as_str());
    said.append("\n");
    (output, said)
}

// ---------------------------------------------------------------------------
// What clients are told of the tools
// ---------------------------------------------------------------------------

/// What a client is told of a tool.
#[derive(Debug, Clone, Copy)]
pub struct ToolAnnotations {
    pub title: &'static str,
    pub read_only_hint: Option<bool>,
    pub destructive_hint: Option<bool>,
    pub idempotent_hint: Option<bool>,
    pub open_world_hint: Option<bool>,
}

/// Lists the history of the active thread.
pub struct ListHistoryMcpTool;

impl ListHistoryMcpTool {
    /// The name of the tool.
    pub fn name() -> (r: &'static str)
        ensures
            r@ == "list_history"@,
    {
        "list_history"
    }

    /// What a client is told of the tool.
    pub fn annotations() -> (r: ToolAnnotations)
        ensures
            r.title@ == "List Conversation History"@,
            r.read_only_hint == Some(true),
            r.destructive_hint == Some(false),
            r.idempotent_hint == Some(true),
            r.open_world_hint == None::<bool>,
    {
        ToolAnnotations {
            title: "List Conversation History",
            read_only_hint: Some(true),
            destructive_hint: Some(false),
            idempotent_hint: Some(true),
            open_world_hint: None,
        }
    }
}

/// Works on the archive of the active thread.
pub struct MemoryProxyMcpTool;

impl MemoryProxyMcpTool {
    /// The name of the tool.
    pub fn name() -> (r: &'static str)
        ensures
            r@ == "memory"@,
    {
        "memory"
    }

    /// What a client is told of the tool.
    pub fn annotations() -> (r: ToolAnnotations)
        ensures
            r.title@ == "Memory Management (Thread-Backed)"@,
            r.read_only_hint == None::<bool>,
            r.destructive_hint == Some(false),
            r.idempotent_hint == None::<bool>,
            r.open_world_hint == None::<bool>,
    {
        ToolAnnotations {
            title: "Memory Management (Thread-Backed)",
            read_only_hint: None,
            destructive_hint: Some(false),
            idempotent_hint: None,
            open_world_hint: None,
        }
    }
}

/// Calls a tool on the context by its name.
pub struct CallContextMcpTool;

impl CallContextMcpTool {
    /// The name of the tool.
    pub fn name() -> (r: &'static str)
        ensures
            r@ == "call_context_tool"@,
    {
        "call_context_tool"
    }

    /// What a client is told of the tool.
    pub fn annotations() -> (r: ToolAnnotations)
        ensures
            r.title@ == "Call Context Tool"@,
            r.read_only_hint == None::<bool>,
            r.destructive_hint == None::<bool>,
            r.idempotent_hint == None::<bool>,
            r.open_world_hint == None::<bool>,
    {
        ToolAnnotations {
            title: "Call Context Tool",
            read_only_hint: None,
            destructive_hint: None,
            idempotent_hint: None,
            open_world_hint: None,
        }
    }
}

} // verus!
