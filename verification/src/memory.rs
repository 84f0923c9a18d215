//! The archive of a thread: ranges of messages that were replaced by a placeholder, and how they come
//! back.

use vstd::prelude::*;
use vstd::utf8::*;

use crate::markdown;
use crate::message;
use crate::message::{AgentMessage, AgentMessageContent, Message, RequestMessage};
use crate::request;
use crate::text;
use crate::thread;
use crate::thread::{Thread, ThreadMemorySegment};
use crate::token_usage;

verus! {

/// How many characters of a message an automatic summary shows.
pub const AUTO_SUMMARY_CHARS: usize = 48;

/// How many characters a summary from a caller may have.
pub const MAX_SUMMARY_CHARS: usize = 96;

/// Why messages could not be moved.
#[derive(Debug, Clone, Copy, PartialEq, Eq, Structural)]
pub enum MemoryError {
    StartAfterEnd,
    OutOfBounds { start: usize, end: usize, len: usize },
    Overlaps { start: usize, end: usize },
    NoSegment { id: u64 },
    PlaceholderOutOfBounds { index: usize, len: usize },
    RemoveOutOfBounds { index: usize, len: usize },
}

/// An error in words.
pub open spec fn error_text(e: MemoryError) -> Seq<char> {
    match e {
        MemoryError::StartAfterEnd => "start index greater than end index"@,
        MemoryError::OutOfBounds { start, end, len } => "range "@ + text::decimal(start as nat)
            + "..="@ + text::decimal(end as nat) + " out of bounds (len="@ + text::decimal(
            len as nat,
        ) + ")"@,
        MemoryError::Overlaps { start, end } => "range "@ + text::decimal(start as nat) + "..="@
            + text::decimal(end as nat) + " overlaps an existing archived memory segment"@,
        MemoryError::NoSegment { id } => "no memory segment with id "@ + text::decimal(id as nat),
        MemoryError::PlaceholderOutOfBounds { index, len } => "placeholder index "@
            + text::decimal(index as nat) + " out of bounds (len="@ + text::decimal(len as nat)
            + ")"@,
        MemoryError::RemoveOutOfBounds { index, len } => "remove index "@ + text::decimal(
            index as nat,
        ) + " out of bounds (len="@ + text::decimal(len as nat) + ")"@,
    }
}

impl MemoryError {
    /// The error in words.
    pub fn message(&self) -> (r: String)
        ensures
            r@ == error_text(*self),
    {
        match self {
            MemoryError::StartAfterEnd => "start index greater than end index".to_owned(),
            MemoryError::OutOfBounds { start, end, len } => {
                let mut out = "range ".to_owned();
                out.append(text::count_text(*start).as_str());
                out.append("..=");
                out.append(text::count_text(*end).as_str());
                out.append(" out of bounds (len=");
                out.append(text::count_text(*len).as_str());
                out.append(")");
                out
            },
            MemoryError::Overlaps { start, end } => {
                let mut out = "range ".to_owned();
                out.append(text::count_text(*start).as_str());
                out.append("..=");
                out.append(text::count_text(*end).as_str());
                out.append(" overlaps an existing archived memory segment");
                out
            },
            MemoryError::NoSegment { id } => {
                let mut out = "no memory segment with id ".to_owned();
                out.append(text::decimal_text(*id as u128).as_str());
                out
            },
            MemoryError::PlaceholderOutOfBounds { index, len } => {
                let mut out = "placeholder index ".to_owned();
                out.append(text::count_text(*index).as_str());
                out.append(" out of bounds (len=");
                out.append(text::count_text(*len).as_str());
                out.append(")");
                out
            },
            MemoryError::RemoveOutOfBounds { index, len } => {
                let mut out = "remove index ".to_owned();
                out.append(text::count_text(*index).as_str());
                out.append(" out of bounds (len=");
                out.append(text::count_text(*len).as_str());
                out.append(")");
                out
            },
        }
    }
}

// ---------------------------------------------------------------------------
// Summaries
// ---------------------------------------------------------------------------

/// A text that is longer than `max` bytes, cut after `max` characters and marked as cut.
pub open spec fn shortened(s: Seq<char>, max: int) -> Seq<char> {
    if encode_utf8(s).len() <= max {
        s
    } else {
        text::head(s, max).push('…')
    }
}

/// The text, shortened if it is longer than `max` bytes.
pub fn shorten(s: &str, max: usize) -> (r: String)
    ensures
        r@ == shortened(s@, max as int),
{
    if text::byte_len(s) <= max {
        s.to_owned()
    } else {
        let mut out = text::head_text(s, max);
        out.push('…');
        out
    }
}

/// The summary of messages that nobody summarised.
pub open spec fn auto_summary(messages: Seq<message::MessageView>) -> Seq<char> {
    let first = shortened(
        markdown::message_markdown(messages[0]),
        AUTO_SUMMARY_CHARS as int,
    );
    if messages.len() == 1 {
        "Single message: "@ + first
    } else {
        text::decimal(messages.len()) + " msgs | first: "@ + first + " | last: "@ + shortened(
            markdown::message_markdown(messages.last()),
            AUTO_SUMMARY_CHARS as int,
        )
    }
}

/// A text with each run of white space as one space.
pub open spec fn collapsed(s: Seq<char>) -> Seq<char>
    decreases s.len(),
{
    if s.len() == 0 {
        Seq::empty()
    } else if !text::is_space(s.last()) {
        collapsed(s.drop_last()).push(s.last())
    } else if s.len() >= 2 && text::is_space(s[s.len() - 2]) {
        collapsed(s.drop_last())
    } else {
        collapsed(s.drop_last()).push(' ')
    }
}

/// A text cut after the longest summary, and marked where it was cut.
pub open spec fn limited(s: Seq<char>) -> Seq<char> {
    if s.len() > MAX_SUMMARY_CHARS {
        s.take(MAX_SUMMARY_CHARS as int).push('…')
    } else {
        s
    }
}

/// A summary as a caller gives it, in one line and of limited length.
pub open spec fn cleaned_summary(s: Seq<char>) -> Seq<char> {
    limited(collapsed(text::trim(s)))
}

/// The summary of archived messages: that of the caller, where it says anything.
pub open spec fn summary_of(
    messages: Seq<message::MessageView>,
    custom: Option<Seq<char>>,
) -> Seq<char> {
    match custom {
        Some(s) => if text::trim(s).len() > 0 {
            cleaned_summary(s)
        } else {
            auto_summary(messages)
        },
        None => auto_summary(messages),
    }
}

fn collapse(s: &str) -> (r: String)
    ensures
        r@ == collapsed(s@),
{
    let chars = text::to_chars(s);
    let mut out = String::new();
    let mut last_space = false;
    for i in 0..chars.len()
        invariant
            chars@ == s@,
            out@ == collapsed(s@.take(i as int)),
            last_space == (i > 0 && text::is_space(s@[i - 1])),
    {
        assert(s@.take(i + 1).drop_last() =~= s@.take(i as int));
        let c = chars[i];
        if text::is_space_char(c) {
            if !last_space {
                out.push(' ');
            }
            last_space = true;
        } else {
            out.push(c);
            last_space = false;
        }
    }
    assert(s@.take(s@.len() as int) =~= s@);
    out
}

/// A summary as a caller gives it, in one line and of limited length.
pub fn clean_summary(s: &str) -> (r: String)
    ensures
        r@ == cleaned_summary(s@),
{
    let line = collapse(text::trim_text(s).as_str());
    let chars = text::to_chars(line.as_str());
    if chars.len() > MAX_SUMMARY_CHARS {
        let mut out = text::from_range(&chars, 0, MAX_SUMMARY_CHARS);
        assert(out@ =~= line@.take(MAX_SUMMARY_CHARS as int));
        out.push('…');
        out
    } else {
        line
    }
}

// ---------------------------------------------------------------------------
// Placeholders
// ---------------------------------------------------------------------------

/// What the text of a placeholder starts with.
pub open spec fn placeholder_mark(id: u64) -> Seq<char> {
    "[memory:"@ + text::decimal(id as nat) + "]"@
}

/// The text that stands for archived messages.
pub open spec fn placeholder_text(id: u64, summary: Seq<char>) -> Seq<char> {
    "[memory:"@ + text::decimal(id as nat) + "] "@ + summary
}

/// A message of the agent that says one text.
pub open spec fn said(t: Seq<char>) -> message::MessageView {
    message::MessageView::Agent {
        content: seq![message::AgentContentView::Text(t)],
        tool_results: Seq::empty(),
    }
}

/// Whether a message is the placeholder of a segment.
pub open spec fn is_placeholder(m: message::MessageView, id: u64) -> bool {
    match m {
        message::MessageView::Agent { content, tool_results } => exists|i: int|
            0 <= i < content.len() && (#[trigger] content[i] matches message::AgentContentView::Text(
                t,
            ) && text::starts_with(t, placeholder_mark(id))),
        _ => false,
    }
}

fn said_message(t: String) -> (r: Message)
    ensures
        r@ == said(t@),
{
    let mut content: Vec<AgentMessageContent> = Vec::new();
    content.push(AgentMessageContent::Text(t));
    let m = AgentMessage { content, tool_results: Vec::new() };
    assert(message::agent_views(m.content@) =~= seq![message::AgentContentView::Text(t@)]);
    assert(message::result_views(m.tool_results@) =~= Seq::<message::ToolResultView>::empty());
    Message::Agent(m)
}

/// Whether a message is one of the agent that says one text and nothing else.
fn says(m: &Message, t: &str) -> (r: bool)
    ensures
        r == (m@ == said(t@)),
{
    match m {
        Message::Agent(agent) => {
            let ghost content = message::agent_views(agent.content@);
            let ghost results = message::result_views(agent.tool_results@);
            assert(content.len() == agent.content@.len());
            assert(results.len() == agent.tool_results@.len());
            if agent.content.len() != 1 || agent.tool_results.len() != 0 {
                return false;
            }
            assert(content[0] == agent.content@[0]@);
            assert(results =~= Seq::<message::ToolResultView>::empty());
            match &agent.content[0] {
                AgentMessageContent::Text(found) => {
                    assert(content =~= seq![message::AgentContentView::Text(found@)]);
                    let same = text::same(found.as_str(), t);
                    proof {
                        if m@ == said(t@) {
                            assert(content[0] == message::AgentContentView::Text(t@));
                        }
                    }
                    same
                },
                _ => {
                    proof {
                        if m@ == said(t@) {
                            assert(content[0] == message::AgentContentView::Text(t@));
                        }
                    }
                    false
                },
            }
        },
        _ => false,
    }
}

fn mark_text(id: u64) -> (r: String)
    ensures
        r@ == placeholder_mark(id),
{
    let mut out = "[memory:".to_owned();
    out.append(text::decimal_text(id as u128).as_str());
    out.append("]");
    out
}

fn is_placeholder_of(m: &Message, id: u64) -> (r: bool)
    ensures
        r == is_placeholder(m@, id),
{
    match m {
        Message::Agent(agent) => {
            let mark = mark_text(id);
            let ghost content = message::agent_views(agent.content@);
            for i in 0..agent.content.len()
                invariant
                    mark@ == placeholder_mark(id),
                    content == message::agent_views(agent.content@),
                    m@ == agent@,
                    forall|k: int|
                        0 <= k < i ==> !(#[trigger] content[k] matches message::AgentContentView::Text(
                            t,
                        ) && text::starts_with(t, placeholder_mark(id))),
            {
                assert(content[i as int] == agent.content@[i as int]@);
                if let AgentMessageContent::Text(t) = &agent.content[i] {
                    if text::text_starts_with(t.as_str(), mark.as_str()) {
                        return true;
                    }
                }
            }
            false
        },
        _ => false,
    }
}

/// The placeholder of a segment is recognised as such.
pub proof fn placeholder_is_recognised(id: u64, summary: Seq<char>)
    ensures
        is_placeholder(said(placeholder_text(id, summary)), id),
{
    let t = placeholder_text(id, summary);
    let mark = placeholder_mark(id);
    reveal_strlit("]");
    reveal_strlit("] ");
    assert(t.subrange(0, mark.len() as int) =~= mark);
    let m = said(t);
    assert(m->Agent_content[0] == message::AgentContentView::Text(t));
}

// ---------------------------------------------------------------------------
// Moving messages
// ---------------------------------------------------------------------------

/// The messages with others put in at a position, or at the end.
pub open spec fn inserted(
    messages: Seq<message::MessageView>,
    index: int,
    put: Seq<message::MessageView>,
) -> Seq<message::MessageView> {
    let at = if index < messages.len() {
        index
    } else {
        messages.len() as int
    };
    messages.take(at) + put + messages.skip(at)
}

/// The messages without those from `start` to `end`.
pub open spec fn without(
    messages: Seq<message::MessageView>,
    start: int,
    end: int,
) -> Seq<message::MessageView> {
    messages.take(start) + messages.skip(end + 1)
}

/// Whether a range meets one that was archived.
pub open spec fn overlaps(segments: Seq<thread::SegmentView>, start: int, end: int) -> bool {
    start <= end && exists|i: int|
        0 <= i < segments.len() && !(end < (#[trigger] segments[i]).start || start
            > segments[i].end)
}

fn remove_range(messages: &mut Vec<Message>, start: usize, count: usize) -> (r: Vec<Message>)
    requires
        start + count <= old(messages)@.len(),
    ensures
        r@ == old(messages)@.subrange(start as int, start + count),
        final(messages)@ == old(messages)@.take(start as int) + old(messages)@.skip(start + count),
{
    let ghost all = messages@;
    let mut rest = messages.split_off(start);
    let tail = rest.split_off(count);
    let mut tail = tail;
    messages.append(&mut tail);
    assert(messages@ =~= all.take(start as int) + all.skip(start + count));
    assert(rest@ =~= all.subrange(start as int, start + count));
    rest
}

fn put_range(messages: &mut Vec<Message>, index: usize, put: Vec<Message>)
    ensures
        message::message_views(final(messages)@) == inserted(
            message::message_views(old(messages)@),
            index as int,
            message::message_views(put@),
        ),
{
    let ghost all = messages@;
    let at: usize = if index < messages.len() {
        index
    } else {
        messages.len()
    };
    let mut tail = messages.split_off(at);
    let mut put = put;
    let ghost given = put@;
    messages.append(&mut put);
    messages.append(&mut tail);
    assert(messages@ =~= all.take(at as int) + given + all.skip(at as int));
    assert(message::message_views(messages@) =~= inserted(
        message::message_views(all),
        index as int,
        message::message_views(given),
    ));
}

/// Why a range cannot be taken out, if it cannot.
pub open spec fn range_error(start: usize, end: usize, len: int) -> Option<MemoryError> {
    if start > end {
        Some(MemoryError::StartAfterEnd)
    } else if end >= len {
        Some(MemoryError::OutOfBounds { start, end, len: len as usize })
    } else {
        None
    }
}

/// Why a range cannot be archived, if it cannot.
pub open spec fn store_error(t: thread::ThreadView, start: usize, end: usize) -> Option<
    MemoryError,
> {
    match range_error(start, end, t.messages.len() as int) {
        Some(e) => Some(e),
        None => if overlaps(t.segments, start as int, end as int) {
            Some(MemoryError::Overlaps { start, end })
        } else {
            None
        },
    }
}

/// The requests that messages make, one after another.
pub open spec fn requests_of(messages: Seq<message::MessageView>) -> Seq<message::RequestView>
    decreases messages.len(),
{
    if messages.len() == 0 {
        Seq::empty()
    } else {
        requests_of(messages.drop_last()) + request::message_requests(messages.last())
    }
}

/// The bytes of the Markdown form of messages.
pub open spec fn markdown_bytes(messages: Seq<message::MessageView>) -> nat
    decreases messages.len(),
{
    if messages.len() == 0 {
        0
    } else {
        markdown_bytes(messages.drop_last()) + encode_utf8(
            markdown::message_markdown(messages.last()),
        ).len()
    }
}

/// The segment that archiving a range under a summary makes.
pub open spec fn segment_as(
    t: thread::ThreadView,
    start: usize,
    end: usize,
    summary: Seq<char>,
    now: u128,
) -> thread::SegmentView {
    let removed = t.messages.subrange(start as int, end + 1);
    let placeholder = placeholder_text(t.next_id, summary);
    thread::SegmentView {
        id: t.next_id,
        start,
        end,
        summary,
        message_char_count: token_usage::capped(markdown_bytes(removed)) as usize,
        message_count: removed.len() as usize,
        stored_epoch_ms: now,
        placeholder_char_count: encode_utf8(placeholder).len() as usize,
        message_token_count: token_usage::estimate(
            token_usage::total_chars(requests_of(removed)),
        ) as usize,
        placeholder_token_count: token_usage::estimate(
            token_usage::total_chars(request::message_requests(said(placeholder))),
        ) as usize,
        messages: removed,
    }
}

/// The thread with a range archived under a summary: the placeholder stands where the range started.
pub open spec fn stored_as(
    t: thread::ThreadView,
    start: usize,
    end: usize,
    summary: Seq<char>,
    now: u128,
) -> thread::ThreadView {
    thread::ThreadView {
        messages: inserted(
            without(t.messages, start as int, end as int),
            start as int,
            seq![said(placeholder_text(t.next_id, summary))],
        ),
        summary: None,
        segments: t.segments.push(segment_as(t, start, end, summary, now)),
        next_id: if t.next_id < u64::MAX {
            (t.next_id + 1) as u64
        } else {
            u64::MAX
        },
        active_tokens: None,
        per_message_tokens: None,
        ..t
    }
}

/// The segment that archiving a range makes, with a summary of the caller or an automatic one.
pub open spec fn new_segment(
    t: thread::ThreadView,
    start: usize,
    end: usize,
    custom: Option<Seq<char>>,
    now: u128,
) -> thread::SegmentView {
    segment_as(
        t,
        start,
        end,
        summary_of(t.messages.subrange(start as int, end + 1), custom),
        now,
    )
}

/// The thread with a range archived, with a summary of the caller or an automatic one.
pub open spec fn stored(
    t: thread::ThreadView,
    start: usize,
    end: usize,
    custom: Option<Seq<char>>,
    now: u128,
) -> thread::ThreadView {
    stored_as(
        t,
        start,
        end,
        summary_of(t.messages.subrange(start as int, end + 1), custom),
        now,
    )
}

/// The position of the first segment with an identifier.
pub open spec fn segment_index(segments: Seq<thread::SegmentView>, id: u64) -> Option<int>
    decreases segments.len(),
{
    if segments.len() == 0 {
        None
    } else {
        match segment_index(segments.drop_last(), id) {
            Some(i) => Some(i),
            None => if segments.last().id == id {
                Some(segments.len() - 1)
            } else {
                None
            },
        }
    }
}

/// The messages without the placeholder of a segment, where it still stands at the segment's start.
pub open spec fn without_placeholder(
    messages: Seq<message::MessageView>,
    segment: thread::SegmentView,
) -> Seq<message::MessageView> {
    if segment.start < messages.len() && is_placeholder(
        messages[segment.start as int],
        segment.id,
    ) {
        messages.remove(segment.start as int)
    } else {
        messages
    }
}

/// The placeholder that a segment leaves.
pub open spec fn placeholder_of(segment: thread::SegmentView) -> message::MessageView {
    said(placeholder_text(segment.id, segment.summary))
}

/// The position of the first message that is the placeholder of a segment.
pub open spec fn placeholder_index(
    messages: Seq<message::MessageView>,
    segment: thread::SegmentView,
) -> Option<int>
    decreases messages.len(),
{
    if messages.len() == 0 {
        None
    } else {
        match placeholder_index(messages.drop_last(), segment) {
            Some(i) => Some(i),
            None => if messages.last() == placeholder_of(segment) {
                Some(messages.len() - 1)
            } else {
                None
            },
        }
    }
}

/// Where the placeholder of a segment stands: at the start of the segment, or else where it was moved
/// to. A segment that was put back has none.
pub open spec fn place_of(
    messages: Seq<message::MessageView>,
    segment: thread::SegmentView,
) -> Option<int> {
    if segment.start < messages.len() && is_placeholder(
        messages[segment.start as int],
        segment.id,
    ) {
        Some(segment.start as int)
    } else {
        placeholder_index(messages, segment)
    }
}

/// The messages with one of them replaced by others.
pub open spec fn expanded(
    messages: Seq<message::MessageView>,
    at: int,
    put: Seq<message::MessageView>,
) -> Seq<message::MessageView> {
    messages.take(at) + put + messages.skip(at + 1)
}

/// The thread with a segment put back. The archive keeps the segment.
pub open spec fn restored(t: thread::ThreadView, segment: thread::SegmentView) -> thread::ThreadView {
    thread::ThreadView {
        messages: inserted(
            without_placeholder(t.messages, segment),
            segment.start as int,
            segment.messages,
        ),
        summary: None,
        active_tokens: None,
        per_message_tokens: None,
        ..t
    }
}

/// The thread with the segment of an identifier put back, if there is one.
pub open spec fn restored_by_id(t: thread::ThreadView, id: u64) -> thread::ThreadView {
    match segment_index(t.segments, id) {
        Some(i) => restored(t, t.segments[i]),
        None => t,
    }
}

/// The thread with a segment deleted from the archive, and its placeholder with it, wherever it stands.
pub open spec fn pruned(t: thread::ThreadView, index: int) -> thread::ThreadView {
    thread::ThreadView {
        messages: match place_of(t.messages, t.segments[index]) {
            Some(at) => t.messages.remove(at),
            None => t.messages,
        },
        summary: None,
        segments: t.segments.remove(index),
        active_tokens: None,
        per_message_tokens: None,
        ..t
    }
}

pub proof fn segment_index_is_first(segments: Seq<thread::SegmentView>, id: u64)
    ensures
        match segment_index(segments, id) {
            Some(i) => 0 <= i < segments.len() && segments[i].id == id && forall|k: int|
                0 <= k < i ==> (#[trigger] segments[k]).id != id,
            None => forall|k: int| 0 <= k < segments.len() ==> (#[trigger] segments[k]).id != id,
        },
    decreases segments.len(),
{
    if segments.len() > 0 {
        let shorter = segments.drop_last();
        segment_index_is_first(shorter, id);
        assert forall|k: int| 0 <= k < shorter.len() implies (#[trigger] segments[k])
            == shorter[k] by {}
    }
}

/// The position of the first segment with an identifier.
pub fn find_segment(segments: &Vec<ThreadMemorySegment>, id: u64) -> (r: Option<usize>)
    ensures
        match r {
            Some(i) => i < segments@.len() && segment_index(
                thread::segment_views(segments@),
                id,
            ) == Some(i as int),
            None => segment_index(thread::segment_views(segments@), id) is None,
        },
{
    let ghost all = thread::segment_views(segments@);
    let mut found: Option<usize> = None;
    for i in 0..segments.len()
        invariant
            all == thread::segment_views(segments@),
            match found {
                Some(k) => k < i && segment_index(all.take(i as int), id) == Some(k as int),
                None => segment_index(all.take(i as int), id) is None,
            },
    {
        assert(all.take(i + 1).drop_last() =~= all.take(i as int));
        assert(all.take(i + 1).last() == segments@[i as int]@);
        if found.is_none() && segments[i].id == id {
            found = Some(i);
        }
    }
    assert(all.take(all.len() as int) =~= all);
    found
}

/// The requests that messages make.
pub fn requests_of_messages(messages: &Vec<Message>) -> (r: Vec<RequestMessage>)
    ensures
        message::request_views(r@) == requests_of(message::message_views(messages@)),
{
    let ghost all = message::message_views(messages@);
    let mut out: Vec<RequestMessage> = Vec::new();
    assert(message::request_views(out@) =~= requests_of(all.take(0)));
    for i in 0..messages.len()
        invariant
            all == message::message_views(messages@),
            message::request_views(out@) == requests_of(all.take(i as int)),
    {
        assert(all.take(i + 1).drop_last() =~= all.take(i as int));
        assert(all.take(i + 1).last() == messages@[i as int]@);
        let ghost before = out@;
        let mut reqs = messages[i].to_request();
        let ghost added = reqs@;
        out.append(&mut reqs);
        assert(message::request_views(out@) =~= message::request_views(before)
            + message::request_views(added));
    }
    assert(all.take(all.len() as int) =~= all);
    out
}

fn markdown_bytes_of(messages: &Vec<Message>) -> (n: usize)
    ensures
        n == token_usage::capped(markdown_bytes(message::message_views(messages@))),
{
    let ghost all = message::message_views(messages@);
    let mut total: usize = 0;
    for i in 0..messages.len()
        invariant
            all == message::message_views(messages@),
            total == token_usage::capped(markdown_bytes(all.take(i as int))),
    {
        assert(all.take(i + 1).drop_last() =~= all.take(i as int));
        assert(all.take(i + 1).last() == messages@[i as int]@);
        total = total.saturating_add(text::byte_len(messages[i].to_markdown().as_str()));
    }
    assert(all.take(all.len() as int) =~= all);
    total
}

fn summarize(messages: &Vec<Message>, start: usize, end: usize, custom: Option<&str>) -> (r: String)
    requires
        start <= end < messages@.len(),
    ensures
        r@ == summary_of(
            message::message_views(messages@).subrange(start as int, end + 1),
            match custom {
                Some(s) => Some(s@),
                None => None,
            },
        ),
{
    if let Some(s) = custom {
        if !text::trim_text(s).as_str().is_empty() {
            return clean_summary(s);
        }
    }
    let len: usize = messages.len();
    assert(end < len);
    let n: usize = end - start + 1;
    let ghost range = message::message_views(messages@).subrange(start as int, end + 1);
    assert(range[0] == messages@[start as int]@);
    assert(range.last() == messages@[end as int]@);
    let first = shorten(messages[start].to_markdown().as_str(), AUTO_SUMMARY_CHARS);
    if n == 1 {
        let mut out = "Single message: ".to_owned();
        out.append(first.as_str());
        out
    } else {
        let last = shorten(messages[end].to_markdown().as_str(), AUTO_SUMMARY_CHARS);
        let mut out = text::count_text(n);
        out.append(" msgs | first: ");
        out.append(first.as_str());
        out.append(" | last: ");
        out.append(last.as_str());
        out
    }
}

impl Thread {
    /// Whether the inclusive range meets one that was archived.
    pub fn memory_range_overlaps(&self, start: usize, end: usize) -> (r: bool)
        ensures
            r == overlaps(self@.segments, start as int, end as int),
    {
        if start > end {
            return false;
        }
        for i in 0..self.memory_segments.len()
            invariant
                start <= end,
                forall|k: int|
                    0 <= k < i ==> end < (#[trigger] self@.segments[k]).start || start
                        > self@.segments[k].end,
        {
            assert(self@.segments[i as int] == self.memory_segments@[i as int]@);
            if !(end < self.memory_segments[i].start || start > self.memory_segments[i].end) {
                return true;
            }
        }
        false
    }

    /// Takes an inclusive range of messages out of the thread.
    pub fn extract_messages(&mut self, start: usize, end: usize) -> (r: Result<
        Vec<Message>,
        MemoryError,
    >)
        ensures
            match r {
                Ok(removed) => range_error(start, end, old(self)@.messages.len() as int) is None
                    && message::message_views(removed@) == old(self)@.messages.subrange(
                    start as int,
                    end + 1,
                ) && final(self)@ == (thread::ThreadView {
                    messages: without(old(self)@.messages, start as int, end as int),
                    summary: None,
                    ..old(self)@
                }),
                Err(e) => range_error(start, end, old(self)@.messages.len() as int) == Some(e)
                    && final(self)@ == old(self)@,
            },
    {
        let len: usize = self.messages.len();
        assert(self@.messages.len() == len);
        if start > end {
            return Err(MemoryError::StartAfterEnd);
        }
        if end >= len {
            return Err(MemoryError::OutOfBounds { start, end, len });
        }
        let ghost all = self.messages@;
        let removed = remove_range(&mut self.messages, start, end - start + 1);
        self.summary = None;
        assert(message::message_views(removed@) =~= message::message_views(all).subrange(
            start as int,
            end + 1,
        ));
        assert(message::message_views(self.messages@) =~= without(
            message::message_views(all),
            start as int,
            end as int,
        ));
        Ok(removed)
    }

    /// Puts messages in, in their order, at a position, or at the end where the thread is shorter.
    pub fn insert_messages(&mut self, index: usize, msgs: Vec<Message>)
        ensures
            final(self)@ == (thread::ThreadView {
                messages: inserted(
                    old(self)@.messages,
                    index as int,
                    message::message_views(msgs@),
                ),
                summary: None,
                ..old(self)@
            }),
    {
        put_range(&mut self.messages, index, msgs);
        self.summary = None;
    }

    /// Replaces a message by one of the agent that says a text.
    pub fn set_placeholder(&mut self, index: usize, placeholder_text: String) -> (r: Result<
        (),
        MemoryError,
    >)
        ensures
            match r {
                Ok(_) => index < old(self)@.messages.len() && final(self)@ == (thread::ThreadView {
                    messages: old(self)@.messages.update(index as int, said(placeholder_text@)),
                    summary: None,
                    ..old(self)@
                }),
                Err(e) => index >= old(self)@.messages.len() && e
                    == MemoryError::PlaceholderOutOfBounds {
                    index,
                    len: old(self)@.messages.len() as usize,
                } && final(self)@ == old(self)@,
            },
    {
        let len: usize = self.messages.len();
        assert(self@.messages.len() == len);
        if index >= len {
            return Err(MemoryError::PlaceholderOutOfBounds { index, len });
        }
        let ghost all = self.messages@;
        let m = said_message(placeholder_text);
        self.messages.set(index, m);
        self.summary = None;
        assert(message::message_views(self.messages@) =~= message::message_views(all).update(
            index as int,
            said(placeholder_text@),
        ));
        Ok(())
    }

    /// Removes a message.
    pub fn remove_message(&mut self, index: usize) -> (r: Result<(), MemoryError>)
        ensures
            match r {
                Ok(_) => index < old(self)@.messages.len() && final(self)@ == (thread::ThreadView {
                    messages: old(self)@.messages.remove(index as int),
                    summary: None,
                    ..old(self)@
                }),
                Err(e) => index >= old(self)@.messages.len() && e
                    == MemoryError::RemoveOutOfBounds {
                    index,
                    len: old(self)@.messages.len() as usize,
                } && final(self)@ == old(self)@,
            },
    {
        let len: usize = self.messages.len();
        assert(self@.messages.len() == len);
        if index >= len {
            return Err(MemoryError::RemoveOutOfBounds { index, len });
        }
        let ghost all = self.messages@;
        self.messages.remove(index);
        self.summary = None;
        assert(message::message_views(self.messages@) =~= message::message_views(all).remove(
            index as int,
        ));
        Ok(())
    }

    /// Archives an inclusive range of messages; a placeholder with an automatic summary takes their
    /// place. Gives back the identifier of the segment. `now` is the time, in milliseconds.
    pub fn store_memory_segment(&mut self, start: usize, end: usize, now: u128) -> (r: Result<
        u64,
        MemoryError,
    >)
        ensures
            match r {
                Ok(id) => store_error(old(self)@, start, end) is None && id == old(self)@.next_id
                    && final(self)@ == stored(old(self)@, start, end, None, now),
                Err(e) => store_error(old(self)@, start, end) == Some(e) && final(self)@
                    == old(self)@,
            },
    {
        self.store_memory_segment_with_summary(start, end, None, now)
    }

    /// Archives an inclusive range of messages; a placeholder takes their place. A summary of the
    /// caller that is not blank is used, in one line and of limited length.
    pub fn store_memory_segment_with_summary(
        &mut self,
        start: usize,
        end: usize,
        custom_summary: Option<&str>,
        now: u128,
    ) -> (r: Result<u64, MemoryError>)
        ensures
            match r {
                Ok(id) => store_error(old(self)@, start, end) is None && id == old(self)@.next_id
                    && final(self)@ == stored(
                    old(self)@,
                    start,
                    end,
                    match custom_summary {
                        Some(s) => Some(s@),
                        None => None,
                    },
                    now,
                ),
                Err(e) => store_error(old(self)@, start, end) == Some(e) && final(self)@
                    == old(self)@,
            },
    {
        match self.archive_error(start, end) {
            Some(e) => Err(e),
            None => {
                let summary = summarize(&self.messages, start, end, custom_summary);
                Ok(self.archive_range(start, end, summary, now))
            },
        }
    }

    /// Archives an inclusive range of messages under a summary that is kept as it is.
    pub fn store_memory_segment_as(
        &mut self,
        start: usize,
        end: usize,
        summary: &str,
        now: u128,
    ) -> (r: Result<u64, MemoryError>)
        ensures
            match r {
                Ok(id) => store_error(old(self)@, start, end) is None && id == old(self)@.next_id
                    && final(self)@ == stored_as(old(self)@, start, end, summary@, now),
                Err(e) => store_error(old(self)@, start, end) == Some(e) && final(self)@
                    == old(self)@,
            },
    {
        match self.archive_error(start, end) {
            Some(e) => Err(e),
            None => Ok(self.archive_range(start, end, summary.to_owned(), now)),
        }
    }

    fn archive_error(&self, start: usize, end: usize) -> (r: Option<MemoryError>)
        ensures
            r == store_error(self@, start, end),
            r is None ==> start <= end < self.messages@.len(),
    {
        let len: usize = self.messages.len();
        assert(self@.messages.len() == len);
        if start > end {
            return Some(MemoryError::StartAfterEnd);
        }
        if end >= len {
            return Some(MemoryError::OutOfBounds { start, end, len });
        }
        if self.memory_range_overlaps(start, end) {
            return Some(MemoryError::Overlaps { start, end });
        }
        None
    }

    fn archive_range(&mut self, start: usize, end: usize, summary: String, now: u128) -> (id: u64)
        requires
            start <= end < old(self).messages@.len(),
        ensures
            id == old(self)@.next_id,
            final(self)@ == stored_as(old(self)@, start, end, summary@, now),
    {
        let ghost before = self@;
        let len: usize = self.messages.len();
        assert(end < len);
        let removed = remove_range(&mut self.messages, start, end - start + 1);
        let ghost taken = message::message_views(removed@);
        assert(taken =~= before.messages.subrange(start as int, end + 1));
        assert(message::message_views(self.messages@) =~= without(
            before.messages,
            start as int,
            end as int,
        ));

        let id: u64 = self.memory_next_id;
        let mut placeholder = "[memory:".to_owned();
        placeholder.append(text::decimal_text(id as u128).as_str());
        placeholder.append("] ");
        placeholder.append(summary.as_str());

        let message_char_count = markdown_bytes_of(&removed);
        let removed_req = requests_of_messages(&removed);
        let message_token_count = token_usage::heuristic_token_count(&removed_req);
        let placeholder_char_count = text::byte_len(placeholder.as_str());
        let placeholder_message = said_message(placeholder);
        let placeholder_req = placeholder_message.to_request();
        let placeholder_token_count = token_usage::heuristic_token_count(&placeholder_req);

        self.memory_next_id = self.memory_next_id.saturating_add(1);
        let mut put: Vec<Message> = Vec::new();
        put.push(placeholder_message);
        assert(message::message_views(put@) =~= seq![said(placeholder_text(id, summary@))]);
        self.insert_messages(start, put);

        let segment = ThreadMemorySegment {
            id,
            start,
            end,
            summary,
            message_char_count,
            message_count: removed.len(),
            stored_epoch_ms: now,
            placeholder_char_count,
            message_token_count,
            placeholder_token_count,
            messages: removed,
        };
        assert(segment@ == segment_as(before, start, end, summary@, now));
        let ghost seen = self.memory_segments@;
        self.memory_segments.push(segment);
        assert(thread::segment_views(self.memory_segments@) =~= thread::segment_views(seen).push(
            segment@,
        ));
        self.precise_active_tokens = None;
        self.precise_per_message_tokens = None;
        id
    }

    /// Where the placeholder of an archived segment stands.
    pub(crate) fn placeholder_place(&self, index: usize) -> (r: Option<usize>)
        requires
            index < self.memory_segments@.len(),
        ensures
            match r {
                Some(at) => at < self@.messages.len() && place_of(
                    self@.messages,
                    self@.segments[index as int],
                ) == Some(at as int),
                None => place_of(self@.messages, self@.segments[index as int]) is None,
            },
    {
        let ghost all = self@.messages;
        assert(self@.segments[index as int] == self.memory_segments@[index as int]@);
        let start: usize = self.memory_segments[index].start;
        let id: u64 = self.memory_segments[index].id;
        if start < self.messages.len() {
            assert(all[start as int] == self.messages@[start as int]@);
            if is_placeholder_of(&self.messages[start], id) {
                return Some(start);
            }
        }
        let ghost segment = self@.segments[index as int];
        let mut words = mark_text(id);
        words.append(" ");
        words.append(self.memory_segments[index].summary.as_str());
        proof {
            reveal_strlit("]");
            reveal_strlit(" ");
            reveal_strlit("] ");
        }
        assert(words@ =~= placeholder_text(id, segment.summary));
        let mut found: Option<usize> = None;
        for i in 0..self.messages.len()
            invariant
                all == message::message_views(self.messages@),
                words@ == placeholder_text(segment.id, segment.summary),
                match found {
                    Some(k) => k < i && placeholder_index(all.take(i as int), segment) == Some(
                        k as int,
                    ),
                    None => placeholder_index(all.take(i as int), segment) is None,
                },
        {
            assert(all.take(i + 1).drop_last() =~= all.take(i as int));
            assert(all.take(i + 1).last() == self.messages@[i as int]@);
            if found.is_none() && says(&self.messages[i], words.as_str()) {
                found = Some(i);
            }
        }
        assert(all.take(all.len() as int) =~= all);
        found
    }

    /// Puts the messages of an archived segment in the place of a message. The archive keeps the
    /// segment.
    pub(crate) fn expand_at(&mut self, at: usize, index: usize)
        requires
            at < old(self).messages@.len(),
            index < old(self).memory_segments@.len(),
        ensures
            final(self)@ == (thread::ThreadView {
                messages: expanded(
                    old(self)@.messages,
                    at as int,
                    old(self)@.segments[index as int].messages,
                ),
                summary: None,
                active_tokens: None,
                per_message_tokens: None,
                ..old(self)@
            }),
            final(self).memory_segments == old(self).memory_segments,
    {
        let ghost before = self@;
        let ghost segment = self@.segments[index as int];
        let ghost all = self.messages@;
        assert(segment == self.memory_segments@[index as int]@);
        let count: usize = self.memory_segments[index].messages.len();
        let archived = message::copy_messages(&self.memory_segments[index].messages, 0, count);
        assert(message::message_views(archived@) =~= segment.messages);
        self.messages.remove(at);
        assert(message::message_views(self.messages@) =~= before.messages.remove(at as int));
        put_range(&mut self.messages, at, archived);
        assert(message::message_views(self.messages@) =~= expanded(
            before.messages,
            at as int,
            segment.messages,
        ));
        self.summary = None;
        self.precise_active_tokens = None;
        self.precise_per_message_tokens = None;
    }

    /// Puts an archived segment back: the placeholder goes, if it still stands at the start of the
    /// segment, and the messages come in there. The archive keeps the segment.
    pub fn restore_memory_segment(&mut self, id: u64) -> (r: Result<(), MemoryError>)
        ensures
            match r {
                Ok(_) => segment_index(old(self)@.segments, id) is Some,
                Err(e) => segment_index(old(self)@.segments, id) is None && e
                    == MemoryError::NoSegment { id },
            },
            final(self)@ == restored_by_id(old(self)@, id),
    {
        let index = match find_segment(&self.memory_segments, id) {
            Some(i) => i,
            None => return Err(MemoryError::NoSegment { id }),
        };
        proof {
            segment_index_is_first(self@.segments, id);
            assert(self@.segments[index as int] == self.memory_segments@[index as int]@);
        }
        let ghost segment = self@.segments[index as int];
        self.drop_placeholder(index);
        let count: usize = self.memory_segments[index].messages.len();
        let archived = message::copy_messages(&self.memory_segments[index].messages, 0, count);
        assert(message::message_views(archived@) =~= segment.messages);
        let start: usize = self.memory_segments[index].start;
        self.insert_messages(start, archived);
        self.precise_active_tokens = None;
        self.precise_per_message_tokens = None;
        Ok(())
    }

    fn drop_placeholder(&mut self, index: usize)
        requires
            index < old(self).memory_segments@.len(),
        ensures
            final(self)@ == (thread::ThreadView {
                messages: without_placeholder(
                    old(self)@.messages,
                    old(self)@.segments[index as int],
                ),
                ..old(self)@
            }),
            final(self).memory_segments == old(self).memory_segments,
    {
        let ghost all = self.messages@;
        assert(self@.segments[index as int] == self.memory_segments@[index as int]@);
        let start: usize = self.memory_segments[index].start;
        if start < self.messages.len() {
            assert(message::message_views(all)[start as int] == all[start as int]@);
            if is_placeholder_of(&self.messages[start], self.memory_segments[index].id) {
                self.messages.remove(start);
                assert(message::message_views(self.messages@) =~= message::message_views(all).remove(
                    start as int,
                ));
            }
        }
    }

    /// Deletes an archived segment for good, and its placeholder where there is one.
    pub fn prune_memory_segment(&mut self, id: u64) -> (r: Result<(), MemoryError>)
        ensures
            match segment_index(old(self)@.segments, id) {
                Some(i) => r is Ok && final(self)@ == pruned(old(self)@, i),
                None => r == Err::<(), MemoryError>(MemoryError::NoSegment { id }) && final(self)@
                    == old(self)@,
            },
    {
        let index = match find_segment(&self.memory_segments, id) {
            Some(i) => i,
            None => return Err(MemoryError::NoSegment { id }),
        };
        let ghost all = self.messages@;
        if let Some(at) = self.placeholder_place(index) {
            self.messages.remove(at);
            assert(message::message_views(self.messages@) =~= message::message_views(all).remove(
                at as int,
            ));
        }
        let ghost seen = self.memory_segments@;
        self.memory_segments.remove(index);
        assert(thread::segment_views(self.memory_segments@) =~= thread::segment_views(seen).remove(
            index as int,
        ));
        self.summary = None;
        self.precise_active_tokens = None;
        self.precise_per_message_tokens = None;
        Ok(())
    }

    /// Takes over segments that were kept elsewhere. The next identifier is above all of theirs.
    pub fn load_memory_segments(&mut self, segments: Vec<ThreadMemorySegment>)
        ensures
            final(self)@ == (thread::ThreadView {
                segments: thread::segment_views(segments@),
                next_id: if max_id(thread::segment_views(segments@)) < u64::MAX {
                    (max_id(thread::segment_views(segments@)) + 1) as u64
                } else {
                    u64::MAX
                },
                ..old(self)@
            }),
    {
        let ghost all = thread::segment_views(segments@);
        let mut max: u64 = 0;
        for i in 0..segments.len()
            invariant
                all == thread::segment_views(segments@),
                max == max_id(all.take(i as int)),
        {
            assert(all.take(i + 1).drop_last() =~= all.take(i as int));
            assert(all.take(i + 1).last() == segments@[i as int]@);
            if segments[i].id > max {
                max = segments[i].id;
            }
        }
        assert(all.take(all.len() as int) =~= all);
        self.memory_segments = segments;
        self.memory_next_id = max.saturating_add(1);
    }
}

/// The largest identifier of segments, or zero.
pub open spec fn max_id(segments: Seq<thread::SegmentView>) -> u64
    decreases segments.len(),
{
    if segments.len() == 0 {
        0
    } else if segments.last().id > max_id(segments.drop_last()) {
        segments.last().id
    } else {
        max_id(segments.drop_last())
    }
}

} // verus!
