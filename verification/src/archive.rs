//! Looking into the archive of a thread, putting all of it back, and archiving it again.

use vstd::prelude::*;

use crate::json;
use crate::json::Json;
use crate::markdown;
use crate::memory;
use crate::memory::MemoryError;
use crate::message;
use crate::message::{Message, MessageContent, RequestMessage};
use crate::request;
use crate::text;
use crate::thread;
use crate::thread::{Thread, ThreadMemorySegment, TokenUsage};
use crate::token_usage;

verus! {

// ---------------------------------------------------------------------------
// Looking in
// ---------------------------------------------------------------------------

/// How much shorter the thread is for a segment.
pub open spec fn saved_chars(s: thread::SegmentView) -> usize {
    if s.message_char_count > s.placeholder_char_count {
        (s.message_char_count - s.placeholder_char_count) as usize
    } else {
        0
    }
}

/// How many tokens the messages of a segment take beyond those of its placeholder.
pub open spec fn saved_tokens(s: thread::SegmentView) -> usize {
    if s.message_token_count > s.placeholder_token_count {
        (s.message_token_count - s.placeholder_token_count) as usize
    } else {
        0
    }
}

/// A time as a JSON number.
pub open spec fn time_view(ms: u128) -> json::JsonView {
    if ms <= u64::MAX {
        json::JsonView::Unsigned(ms as u64)
    } else {
        json::JsonView::Decimal(text::decimal(ms as nat))
    }
}

/// A time as a JSON number.
pub fn time_value(ms: u128) -> (r: Json)
    ensures
        r@ == time_view(ms),
{
    if ms <= u64::MAX as u128 {
        Json::Unsigned(ms as u64)
    } else {
        Json::Decimal(text::decimal_text(ms))
    }
}

/// What is told of a segment.
pub open spec fn segment_meta(s: thread::SegmentView) -> json::JsonView {
    json::JsonView::Object(
        seq![
            ("id"@, json::JsonView::Unsigned(s.id)),
            ("start"@, json::JsonView::Unsigned(s.start as u64)),
            ("end"@, json::JsonView::Unsigned(s.end as u64)),
            ("count"@, json::JsonView::Unsigned(s.message_count as u64)),
            ("chars"@, json::JsonView::Unsigned(s.message_char_count as u64)),
            ("summary"@, json::JsonView::Text(s.summary)),
            ("stored_epoch_ms"@, time_view(s.stored_epoch_ms)),
            ("placeholder_chars"@, json::JsonView::Unsigned(s.placeholder_char_count as u64)),
            ("token_savings_estimate"@, json::JsonView::Unsigned(saved_chars(s) as u64)),
        ],
    )
}

fn segment_meta_json(s: &ThreadMemorySegment) -> (r: Json)
    ensures
        r@ == segment_meta(s@),
{
    broadcast use json::object_view;

    let saved = s.message_char_count.saturating_sub(s.placeholder_char_count);
    let mut fields: Vec<(String, Json)> = Vec::new();
    fields.push(("id".to_owned(), Json::Unsigned(s.id)));
    fields.push(("start".to_owned(), Json::Unsigned(s.start as u64)));
    fields.push(("end".to_owned(), Json::Unsigned(s.end as u64)));
    fields.push(("count".to_owned(), Json::Unsigned(s.message_count as u64)));
    fields.push(("chars".to_owned(), Json::Unsigned(s.message_char_count as u64)));
    fields.push(("summary".to_owned(), Json::Text(s.summary.clone())));
    fields.push(("stored_epoch_ms".to_owned(), time_value(s.stored_epoch_ms)));
    fields.push(
        ("placeholder_chars".to_owned(), Json::Unsigned(s.placeholder_char_count as u64)),
    );
    fields.push(("token_savings_estimate".to_owned(), Json::Unsigned(saved as u64)));
    assert(json::fields_view(fields@) =~= segment_meta(s@)->Object_0);
    Json::Object(fields)
}

/// What is told of a segment, as plain values: identifier, start, end, number of messages, their
/// characters, those of the placeholder, the difference, the summary, and the time.
pub open spec fn meta_tuple(s: thread::SegmentView) -> (
    u64,
    usize,
    usize,
    usize,
    usize,
    usize,
    usize,
    Seq<char>,
    u128,
) {
    (
        s.id,
        s.start,
        s.end,
        s.message_count,
        s.message_char_count,
        s.placeholder_char_count,
        saved_chars(s),
        s.summary,
        s.stored_epoch_ms,
    )
}

/// What a tuple of plain values holds.
pub open spec fn tuple_view(m: (u64, usize, usize, usize, usize, usize, usize, String, u128)) -> (
    u64,
    usize,
    usize,
    usize,
    usize,
    usize,
    usize,
    Seq<char>,
    u128,
) {
    (m.0, m.1, m.2, m.3, m.4, m.5, m.6, m.7@, m.8)
}

// ---------------------------------------------------------------------------
// Numbered requests
// ---------------------------------------------------------------------------

/// The mark that tells a model which message of the thread it reads.
pub open spec fn position_mark(i: int) -> message::ContentView {
    message::ContentView::Text("[@"@ + text::decimal(i as nat) + "]"@)
}

/// Requests with a mark before the first piece of the first of them.
pub open spec fn marked(reqs: Seq<message::RequestView>, i: int) -> Seq<message::RequestView> {
    if reqs.len() == 0 {
        reqs
    } else {
        reqs.update(
            0,
            message::RequestView { content: seq![position_mark(i)] + reqs[0].content, ..reqs[0] },
        )
    }
}

/// The requests of messages, each message marked with its position.
pub open spec fn numbered_requests(messages: Seq<message::MessageView>) -> Seq<
    message::RequestView,
>
    decreases messages.len(),
{
    if messages.len() == 0 {
        Seq::empty()
    } else {
        numbered_requests(messages.drop_last()) + marked(
            request::message_requests(messages.last()),
            messages.len() - 1,
        )
    }
}

/// Puts a mark before the first piece of the first request.
pub fn mark_requests(reqs: Vec<RequestMessage>, i: usize) -> (r: Vec<RequestMessage>)
    ensures
        message::request_views(r@) == marked(message::request_views(reqs@), i as int),
{
    let ghost before = message::request_views(reqs@);
    let mut reqs = reqs;
    if reqs.len() > 0 {
        let mut rest = reqs.split_off(1);
        let first = match reqs.pop() {
            Some(first) => first,
            None => return rest,
        };
        assert(first@ == before[0]);
        let mut mark = "[@".to_owned();
        mark.append(text::count_text(i).as_str());
        mark.append("]");
        let mut content: Vec<MessageContent> = Vec::new();
        content.push(MessageContent::Text(mark));
        let mut pieces = first.content;
        content.append(&mut pieces);
        let changed = RequestMessage { role: first.role, content, cache: first.cache };
        assert(changed@.content =~= seq![position_mark(i as int)] + before[0].content);
        let mut out: Vec<RequestMessage> = Vec::new();
        out.push(changed);
        out.append(&mut rest);
        assert(message::request_views(out@) =~= marked(before, i as int));
        out
    } else {
        reqs
    }
}

/// The requests of messages, each message marked with its position.
pub fn numbered_requests_of(messages: &Vec<Message>) -> (r: Vec<RequestMessage>)
    ensures
        message::request_views(r@) == numbered_requests(message::message_views(messages@)),
{
    let ghost all = message::message_views(messages@);
    let mut out: Vec<RequestMessage> = Vec::new();
    assert(message::request_views(out@) =~= numbered_requests(all.take(0)));
    for i in 0..messages.len()
        invariant
            all == message::message_views(messages@),
            message::request_views(out@) == numbered_requests(all.take(i as int)),
    {
        assert(all.take(i + 1).drop_last() =~= all.take(i as int));
        assert(all.take(i + 1).last() == messages@[i as int]@);
        let ghost before = out@;
        let mut reqs = mark_requests(messages[i].to_request(), i);
        let ghost added = reqs@;
        out.append(&mut reqs);
        assert(message::request_views(out@) =~= message::request_views(before)
            + message::request_views(added));
    }
    assert(all.take(all.len() as int) =~= all);
    out
}

// ---------------------------------------------------------------------------
// Usage
// ---------------------------------------------------------------------------

/// The tokens that all segments save.
pub open spec fn all_saved_tokens(segments: Seq<thread::SegmentView>) -> nat
    decreases segments.len(),
{
    if segments.len() == 0 {
        0
    } else {
        all_saved_tokens(segments.drop_last()) + saved_tokens(segments.last()) as nat
    }
}

/// The largest number that a `u64` holds, or a smaller one as it is.
pub open spec fn capped64(n: nat) -> u64 {
    if n > u64::MAX {
        u64::MAX
    } else {
        n as u64
    }
}

/// The tokens of the thread as it is: counted, or else estimated.
pub open spec fn active_used(t: thread::ThreadView) -> u64 {
    match t.active_tokens {
        Some(n) => n,
        None => token_usage::estimate(
            token_usage::total_chars(numbered_requests(t.messages)),
        ) as u64,
    }
}

/// The tokens of the thread with its archive put back.
pub open spec fn full_used(t: thread::ThreadView) -> u64 {
    capped64(active_used(t) as nat + all_saved_tokens(t.segments))
}

// ---------------------------------------------------------------------------
// Putting all back
// ---------------------------------------------------------------------------

/// What is needed to archive a segment again.
#[derive(Debug)]
pub struct SegmentRange {
    pub id: u64,
    pub start: usize,
    pub message_count: usize,
    pub summary: String,
}

pub ghost struct RangeView {
    pub id: u64,
    pub start: usize,
    pub message_count: usize,
    pub summary: Seq<char>,
}

impl View for SegmentRange {
    type V = RangeView;

    open spec fn view(&self) -> RangeView {
        RangeView {
            id: self.id,
            start: self.start,
            message_count: self.message_count,
            summary: self.summary@,
        }
    }
}

/// What ranges hold.
pub open spec fn range_views(ranges: Seq<SegmentRange>) -> Seq<RangeView> {
    ranges.map_values(|r: SegmentRange| r@)
}

/// What is needed to archive a segment again that was put back at a place.
pub open spec fn range_at(s: thread::SegmentView, at: int) -> RangeView {
    RangeView {
        id: s.id,
        start: at as usize,
        message_count: s.messages.len() as usize,
        summary: s.summary,
    }
}

/// Where the messages of a segment are to be put back. A segment that has none, or that is already
/// back, has no such place.
pub open spec fn open_place(
    messages: Seq<message::MessageView>,
    s: thread::SegmentView,
) -> Option<int> {
    if s.messages.len() == 0 {
        None
    } else {
        memory::place_of(messages, s)
    }
}

/// Messages with those of a segment in the place of its placeholder.
pub open spec fn reopened(
    messages: Seq<message::MessageView>,
    s: thread::SegmentView,
) -> Seq<message::MessageView> {
    match open_place(messages, s) {
        Some(at) => memory::expanded(messages, at, s.messages),
        None => messages,
    }
}

/// Messages with those of all segments put back, the segment that was archived last first: each finds
/// its placeholder where archiving left it.
pub open spec fn unfolded(
    messages: Seq<message::MessageView>,
    segments: Seq<thread::SegmentView>,
) -> Seq<message::MessageView>
    decreases segments.len(),
{
    if segments.len() == 0 {
        messages
    } else {
        unfolded(reopened(messages, segments.last()), segments.drop_last())
    }
}

/// The ranges of the segments that are put back so, in the order in which they were archived.
pub open spec fn opened(
    messages: Seq<message::MessageView>,
    segments: Seq<thread::SegmentView>,
) -> Seq<RangeView>
    decreases segments.len(),
{
    if segments.len() == 0 {
        Seq::empty()
    } else {
        let before = opened(reopened(messages, segments.last()), segments.drop_last());
        match open_place(messages, segments.last()) {
            Some(at) => before.push(range_at(segments.last(), at)),
            None => before,
        }
    }
}

/// The ranges of the segments of a thread that putting its archive back opens.
pub open spec fn opened_ranges(t: thread::ThreadView) -> Seq<RangeView> {
    opened(t.messages, t.segments)
}

/// The thread with its whole archive put back.
pub open spec fn fully_restored(t: thread::ThreadView) -> thread::ThreadView {
    if opened_ranges(t).len() == 0 {
        t
    } else {
        thread::ThreadView {
            messages: unfolded(t.messages, t.segments),
            summary: None,
            active_tokens: None,
            per_message_tokens: None,
            ..t
        }
    }
}

/// Whether a range is that of an identifier.
pub open spec fn is_named(ranges: Seq<RangeView>, id: u64) -> bool {
    exists|i: int| 0 <= i < ranges.len() && (#[trigger] ranges[i]).id == id
}

/// The segments that are not those of some ranges.
pub open spec fn others(
    segments: Seq<thread::SegmentView>,
    ranges: Seq<RangeView>,
) -> Seq<thread::SegmentView>
    decreases segments.len(),
{
    if segments.len() == 0 {
        Seq::empty()
    } else {
        let before = others(segments.drop_last(), ranges);
        if is_named(ranges, segments.last().id) {
            before
        } else {
            before.push(segments.last())
        }
    }
}

/// The last message of a range.
pub open spec fn range_end(r: RangeView) -> int {
    r.start + r.message_count - 1
}

/// Whether a range can be archived again.
pub open spec fn can_rearchive(t: thread::ThreadView, r: RangeView) -> bool {
    &&& r.message_count > 0
    &&& range_end(r) <= usize::MAX
    &&& memory::store_error(t, r.start, range_end(r) as usize) is None
}

/// The thread with ranges archived again one after another, each under its summary. A range that
/// cannot be archived is passed over.
pub open spec fn refolded(
    t: thread::ThreadView,
    ranges: Seq<RangeView>,
    now: u128,
) -> thread::ThreadView
    decreases ranges.len(),
{
    if ranges.len() == 0 {
        t
    } else {
        let before = refolded(t, ranges.drop_last(), now);
        let r = ranges.last();
        if can_rearchive(before, r) {
            memory::stored_as(before, r.start, range_end(r) as usize, r.summary, now)
        } else {
            before
        }
    }
}

/// The thread with its archive rebuilt from ranges that were put back. A segment that was not put back
/// stays.
pub open spec fn rearchived(
    t: thread::ThreadView,
    ranges: Seq<RangeView>,
    now: u128,
) -> thread::ThreadView {
    refolded(
        thread::ThreadView { segments: others(t.segments, ranges), ..t },
        ranges,
        now,
    )
}

fn names(ranges: &Vec<SegmentRange>, id: u64) -> (r: bool)
    ensures
        r == is_named(range_views(ranges@), id),
{
    let ghost all = range_views(ranges@);
    for i in 0..ranges.len()
        invariant
            all == range_views(ranges@),
            forall|k: int| 0 <= k < i ==> (#[trigger] all[k]).id != id,
    {
        assert(all[i as int] == ranges@[i as int]@);
        if ranges[i].id == id {
            return true;
        }
    }
    false
}

impl Thread {
    /// What is told of an archived segment, and the Markdown form of its messages.
    pub fn load_memory_segment(&self, id: u64) -> (r: Result<(Json, Vec<String>), MemoryError>)
        ensures
            match r {
                Ok((meta, messages)) => memory::segment_index(self@.segments, id) matches Some(i)
                    && meta@ == segment_meta(self@.segments[i]) && text::views(messages@)
                    == self@.segments[i].messages.map_values(
                    |m: message::MessageView| markdown::message_markdown(m),
                ),
                Err(e) => memory::segment_index(self@.segments, id) is None && e
                    == MemoryError::NoSegment { id },
            },
    {
        let ghost segments = self@.segments;
        let mut found: Option<usize> = None;
        for i in 0..self.memory_segments.len()
            invariant
                segments == thread::segment_views(self.memory_segments@),
                match found {
                    Some(k) => k < i && memory::segment_index(segments.take(i as int), id) == Some(
                        k as int,
                    ),
                    None => memory::segment_index(segments.take(i as int), id) is None,
                },
        {
            assert(segments.take(i + 1).drop_last() =~= segments.take(i as int));
            assert(segments.take(i + 1).last() == self.memory_segments@[i as int]@);
            if found.is_none() && self.memory_segments[i].id == id {
                found = Some(i);
            }
        }
        assert(segments.take(segments.len() as int) =~= segments);
        match found {
            None => Err(MemoryError::NoSegment { id }),
            Some(k) => {
                let segment = &self.memory_segments[k];
                assert(segments[k as int] == segment@);
                let mut messages: Vec<String> = Vec::new();
                for i in 0..segment.messages.len()
                    invariant
                        messages@.len() == i,
                        forall|j: int|
                            0 <= j < i ==> (#[trigger] messages@[j])@
                                == markdown::message_markdown(segment.messages@[j]@),
                {
                    messages.push(segment.messages[i].to_markdown());
                }
                assert(text::views(messages@) =~= segment@.messages.map_values(
                    |m: message::MessageView| markdown::message_markdown(m),
                ));
                Ok((segment_meta_json(segment), messages))
            },
        }
    }

    /// What is told of each archived segment.
    pub fn memory_segment_metas(&self) -> (r: Vec<
        (u64, usize, usize, usize, usize, usize, usize, String, u128),
    >)
        ensures
            r@.len() == self@.segments.len(),
            forall|i: int|
                0 <= i < r@.len() ==> tuple_view(#[trigger] r@[i]) == meta_tuple(
                    self@.segments[i],
                ),
    {
        let mut out: Vec<(u64, usize, usize, usize, usize, usize, usize, String, u128)> =
            Vec::new();
        for i in 0..self.memory_segments.len()
            invariant
                out@.len() == i,
                forall|k: int|
                    0 <= k < i ==> tuple_view(#[trigger] out@[k]) == meta_tuple(
                        self@.segments[k],
                    ),
        {
            let s = &self.memory_segments[i];
            assert(self@.segments[i as int] == s@);
            out.push(
                (
                    s.id,
                    s.start,
                    s.end,
                    s.message_count,
                    s.message_char_count,
                    s.placeholder_char_count,
                    s.message_char_count.saturating_sub(s.placeholder_char_count),
                    s.summary.clone(),
                    s.stored_epoch_ms,
                ),
            );
        }
        out
    }

    /// The archived segments.
    pub fn list_memory_segments(&self) -> (r: &Vec<ThreadMemorySegment>)
        ensures
            thread::segment_views(r@) == self@.segments,
    {
        &self.memory_segments
    }

    /// The tokens of the thread as it is, and with its archive put back. Without a model there is no
    /// usage.
    pub fn active_and_full_token_usage(&self) -> (r: Option<(TokenUsage, TokenUsage)>)
        ensures
            r == match self@.model {
                None => None,
                Some(model) => Some(
                    (
                        TokenUsage {
                            max_tokens: thread::max_tokens_for_mode(model, self@.mode),
                            used_tokens: active_used(self@),
                        },
                        TokenUsage {
                            max_tokens: thread::max_tokens_for_mode(model, self@.mode),
                            used_tokens: full_used(self@),
                        },
                    ),
                ),
            },
    {
        let model = match self.model {
            None => return None,
            Some(model) => model,
        };
        let max_tokens = model.max_token_count_for_mode(self.completion_mode);
        let active: u64 = match self.precise_active_tokens {
            Some(n) => n,
            None => token_usage::heuristic_token_count(
                &numbered_requests_of(&self.messages),
            ) as u64,
        };
        let mut full: u64 = active;
        let ghost segments = self@.segments;
        for i in 0..self.memory_segments.len()
            invariant
                segments == thread::segment_views(self.memory_segments@),
                full == capped64(active as nat + all_saved_tokens(segments.take(i as int))),
        {
            assert(segments.take(i + 1).drop_last() =~= segments.take(i as int));
            assert(segments.take(i + 1).last() == self.memory_segments@[i as int]@);
            let s = &self.memory_segments[i];
            let extra = s.message_token_count.saturating_sub(s.placeholder_token_count);
            full = full.saturating_add(extra as u64);
        }
        assert(segments.take(segments.len() as int) =~= segments);
        Some(
            (
                TokenUsage { max_tokens, used_tokens: active },
                TokenUsage { max_tokens, used_tokens: full },
            ),
        )
    }

    /// Puts the whole archive back, the segment that was archived last first, and gives the ranges of
    /// the segments that were put back, in the order in which they were archived.
    pub fn restore_all_segments(&mut self) -> (r: Vec<SegmentRange>)
        ensures
            range_views(r@) == opened_ranges(old(self)@),
            final(self)@ == fully_restored(old(self)@),
    {
        let ghost before = self@;
        let ghost segments = self@.segments;
        let mut ranges: Vec<SegmentRange> = Vec::new();
        let mut left: usize = self.memory_segments.len();
        assert(segments.take(left as int) =~= segments);
        assert(range_views(ranges@) =~= Seq::<RangeView>::empty());
        assert(opened_ranges(before) =~= opened(before.messages, segments) + range_views(ranges@));
        while left > 0
            invariant
                before.segments == segments,
                left <= segments.len(),
                segments == thread::segment_views(self.memory_segments@),
                self@ == (if ranges@.len() == 0 {
                    before
                } else {
                    thread::ThreadView {
                        messages: self@.messages,
                        summary: None,
                        active_tokens: None,
                        per_message_tokens: None,
                        ..before
                    }
                }),
                unfolded(self@.messages, segments.take(left as int)) == unfolded(
                    before.messages,
                    segments,
                ),
                opened(self@.messages, segments.take(left as int)) + range_views(ranges@)
                    == opened_ranges(before),
            decreases left,
        {
            let ghost now_left = segments.take(left as int);
            let ghost messages = self@.messages;
            left = left - 1;
            assert(now_left.drop_last() =~= segments.take(left as int));
            assert(now_left.last() == segments[left as int]);
            assert(segments[left as int] == self.memory_segments@[left as int]@);
            let count: usize = self.memory_segments[left].messages.len();
            assert(segments[left as int].messages.len() == count);
            if count > 0 {
                if let Some(at) = self.placeholder_place(left) {
                    let ghost seen = ranges@;
                    let ghost rest = opened(
                        reopened(messages, segments[left as int]),
                        segments.take(left as int),
                    );
                    let range = SegmentRange {
                        id: self.memory_segments[left].id,
                        start: at,
                        message_count: count,
                        summary: self.memory_segments[left].summary.clone(),
                    };
                    self.expand_at(at, left);
                    ranges.insert(0, range);
                    assert(range@ == range_at(segments[left as int], at as int));
                    assert(range_views(ranges@) =~= seq![range@] + range_views(seen));
                    assert(rest.push(range@) + range_views(seen) =~= rest + range_views(ranges@));
                }
            }
        }
        assert(opened(self@.messages, segments.take(0)) =~= Seq::<RangeView>::empty());
        assert(opened_ranges(before) =~= range_views(ranges@));
        ranges
    }

    /// Archives ranges again that were put back, in the order in which they were archived, each under
    /// its summary. What could not be archived stays.
    #[verifier::spinoff_prover]
    #[verifier::rlimit(40)]
    pub fn rearchive_segments_after_full_restore(
        &mut self,
        original_segments: Vec<SegmentRange>,
        now: u128,
    )
        ensures
            final(self)@ == rearchived(old(self)@, range_views(original_segments@), now),
    {
        let ghost before = self@;
        let ghost all = range_views(original_segments@);
        self.drop_segments(&original_segments);
        let ghost start_state = self@;
        assert(start_state == (thread::ThreadView {
            segments: others(before.segments, all),
            ..before
        }));
        for i in 0..original_segments.len()
            invariant
                all == range_views(original_segments@),
                self@ == refolded(start_state, all.take(i as int), now),
        {
            assert(all.take(i + 1).drop_last() =~= all.take(i as int));
            assert(all.take(i + 1).last() == original_segments@[i as int]@);
            let start: usize = original_segments[i].start;
            let count: usize = original_segments[i].message_count;
            if count > 0 {
                if let Some(end) = start.checked_add(count - 1) {
                    let _ = self.store_memory_segment_as(
                        start,
                        end,
                        original_segments[i].summary.as_str(),
                        now,
                    );
                }
            }
        }
        assert(all.take(all.len() as int) =~= all);
    }

    fn drop_segments(&mut self, ranges: &Vec<SegmentRange>)
        ensures
            final(self)@ == (thread::ThreadView {
                segments: others(old(self)@.segments, range_views(ranges@)),
                ..old(self)@
            }),
    {
        let ghost before = self@;
        let ghost all = self@.segments;
        let ghost named = range_views(ranges@);
        let mut left: Vec<ThreadMemorySegment> = Vec::new();
        std::mem::swap(&mut left, &mut self.memory_segments);
        let mut kept: Vec<ThreadMemorySegment> = Vec::new();
        assert(all.take(0) =~= Seq::<thread::SegmentView>::empty());
        assert(thread::segment_views(kept@) =~= others(all.take(0), named));
        let count: usize = left.len();
        let ghost given = left@;
        assert(given.take(0) =~= Seq::<ThreadMemorySegment>::empty());
        for i in 0..count
            invariant
                all == thread::segment_views(given),
                given.len() == count,
                left@ == given.skip(i as int),
                named == range_views(ranges@),
                thread::segment_views(kept@) == others(all.take(i as int), named),
        {
            assert(all.take(i + 1).drop_last() =~= all.take(i as int));
            assert(all.take(i + 1).last() == given[i as int]@);
            let segment = left.remove(0);
            assert(segment == given[i as int]);
            assert(left@ =~= given.skip(i + 1));
            if !names(ranges, segment.id) {
                let ghost seen = kept@;
                kept.push(segment);
                assert(thread::segment_views(kept@) =~= thread::segment_views(seen).push(
                    segment@,
                ));
            }
        }
        assert(all.take(all.len() as int) =~= all);
        self.memory_segments = kept;
    }
}

} // verus!
