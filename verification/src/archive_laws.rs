//! What holds of what is told of the archive: its sums, its summaries and its tokens.

use vstd::prelude::*;
use vstd::utf8::*;

use crate::archive;
use crate::json;
use crate::markdown;
use crate::memory;
use crate::message;
use crate::request;
use crate::request_laws;
use crate::text;
use crate::text_laws;
use crate::thread;
use crate::token_usage;
use crate::tools::memory_tool;
use crate::tools::memory_tool::{MemoryAction, MemoryToolError};

verus! {

// ---------------------------------------------------------------------------
// Ranges
// ---------------------------------------------------------------------------

/// A range can be archived exactly where it is one, lies in the thread, and shares no position with a
/// range that was archived.
pub proof fn free_ranges_can_be_archived(t: thread::ThreadView, start: usize, end: usize)
    requires
        forall|i: int|
            0 <= i < t.segments.len() ==> (#[trigger] t.segments[i]).start <= t.segments[i].end,
    ensures
        memory::store_error(t, start, end) is None <==> start <= end < t.messages.len()
            && forall|i: int, k: int|
            0 <= i < t.segments.len() && (#[trigger] t.segments[i]).start <= k
                <= t.segments[i].end ==> !(start <= #[trigger] at(k) <= end),
        start > end ==> memory::store_error(t, start, end) == Some(
            memory::MemoryError::StartAfterEnd,
        ),
        start <= end && end >= t.messages.len() ==> memory::store_error(t, start, end) == Some(
            memory::MemoryError::OutOfBounds { start, end, len: t.messages.len() as usize },
        ),
        start <= end < t.messages.len() && memory::store_error(t, start, end) is Some
            ==> memory::store_error(t, start, end) == Some(
            memory::MemoryError::Overlaps { start, end },
        ),
{
    if memory::overlaps(t.segments, start as int, end as int) {
        let i = choose|i: int|
            0 <= i < t.segments.len() && !(end < (#[trigger] t.segments[i]).start || start
                > t.segments[i].end);
        let s = t.segments[i];
        let k = if s.start < start {
            start as int
        } else {
            s.start as int
        };
        assert(start <= at(k) <= end);
    } else {
        assert forall|i: int, k: int|
            0 <= i < t.segments.len() && (#[trigger] t.segments[i]).start <= k
                <= t.segments[i].end implies !(start <= #[trigger] at(k) <= end) || start > end by {
        }
    }
}

/// A position.
pub open spec fn at(k: int) -> int {
    k
}

// ---------------------------------------------------------------------------
// What is kept of a range
// ---------------------------------------------------------------------------

/// The bytes of the Markdown form of messages are those of each of them.
pub proof fn bytes_are_those_of_each_message(messages: Seq<message::MessageView>)
    ensures
        memory::markdown_bytes(messages) == messages.fold_left(
            0nat,
            |n: nat, m: message::MessageView|
                n + encode_utf8(markdown::message_markdown(m)).len(),
        ),
    decreases messages.len(),
{
    reveal_with_fuel(Seq::fold_left, 2);
    if messages.len() > 0 {
        bytes_are_those_of_each_message(messages.drop_last());
    }
}

/// The requests of a message behind others come behind theirs, as they are.
pub proof fn requests_come_in_order(messages: Seq<message::MessageView>, m: message::MessageView)
    ensures
        memory::requests_of(messages.push(m)) == memory::requests_of(messages)
            + request::message_requests(m),
        memory::requests_of(Seq::empty()) == Seq::<message::RequestView>::empty(),
{
    assert(messages.push(m).drop_last() =~= messages);
}

/// A segment is told its range, its time and its summary, the messages that it took, their number and
/// their bytes, the bytes of its placeholder, and the tokens of both.
pub proof fn segments_know_what_they_hold(
    t: thread::ThreadView,
    start: usize,
    end: usize,
    summary: Seq<char>,
    now: u128,
)
    requires
        start <= end < t.messages.len(),
        t.messages.len() <= usize::MAX,
    ensures
        ({
            let after = memory::stored_as(t, start, end, summary, now);
            let s = after.segments.last();
            let taken = t.messages.subrange(start as int, end + 1);
            let bytes = taken.fold_left(
                0nat,
                |n: nat, m: message::MessageView|
                    n + encode_utf8(markdown::message_markdown(m)).len(),
            );
            let left = "[memory:"@ + text::decimal(t.next_id as nat) + "] "@ + summary;
            &&& after.segments.drop_last() == t.segments
            &&& s.id == t.next_id
            &&& s.start == start
            &&& s.end == end
            &&& s.summary == summary
            &&& s.stored_epoch_ms == now
            &&& s.messages == taken
            &&& s.message_count == end - start + 1
            &&& bytes <= usize::MAX ==> s.message_char_count == bytes
            &&& encode_utf8(left).len() <= usize::MAX ==> s.placeholder_char_count == encode_utf8(
                left,
            ).len()
            &&& s.message_token_count == token_usage::estimate(
                token_usage::total_chars(memory::requests_of(taken)),
            )
            &&& s.placeholder_token_count == token_usage::estimate(encode_utf8(left).len())
            &&& after.messages[start as int] == (message::MessageView::Agent {
                content: seq![message::AgentContentView::Text(left)],
                tool_results: Seq::empty(),
            })
        }),
{
    let after = memory::stored_as(t, start, end, summary, now);
    let taken = t.messages.subrange(start as int, end + 1);
    assert(after.segments.drop_last() =~= t.segments);
    bytes_are_those_of_each_message(taken);
    let left = memory::placeholder_text(t.next_id, summary);
    let said = memory::said(left);
    let content = seq![message::AgentContentView::Text(left)];
    let reqs = request::message_requests(said);
    assert(content.drop_last() =~= Seq::<message::AgentContentView>::empty());
    assert(request::agent_chunks(content.drop_last(), Seq::empty()) =~= Seq::<
        message::ContentView,
    >::empty());
    assert(request::agent_chunks(content, Seq::empty()) =~= seq![message::ContentView::Text(left)]);
    let own = message::RequestView {
        role: message::Role::Assistant,
        content: seq![message::ContentView::Text(left)],
        cache: false,
    };
    assert(reqs =~= seq![own]);
    let bare = message::RequestView { content: Seq::empty(), ..own };
    request_laws::pieces_add_their_weight(Seq::empty(), bare, message::ContentView::Text(left));
    assert(bare.content.push(message::ContentView::Text(left)) =~= own.content);
    assert(Seq::<message::RequestView>::empty().push(own) =~= seq![own]);
}

// ---------------------------------------------------------------------------
// Summaries
// ---------------------------------------------------------------------------

/// A text that fits stays; a longer one is its start, marked as cut.
pub proof fn shortened_texts_are_starts(s: Seq<char>, max: int)
    requires
        0 <= max,
    ensures
        encode_utf8(s).len() <= max ==> memory::shortened(s, max) == s,
        encode_utf8(s).len() > max ==> {
            &&& memory::shortened(s, max).last() == '…'
            &&& memory::shortened(s, max).len() == if s.len() < max {
                s.len() + 1
            } else {
                (max + 1) as nat
            }
            &&& memory::shortened(s, max).drop_last() == s.take(
                memory::shortened(s, max).len() - 1,
            )
        },
{
    if encode_utf8(s).len() > max {
        assert(memory::shortened(s, max).drop_last() =~= s.take(
            memory::shortened(s, max).len() - 1,
        ));
    }
}

/// A summary that nobody gave says how many messages there are, and how the first and the last of them
/// begin; of one message it says how that begins.
pub proof fn automatic_summaries_show_both_ends(messages: Seq<message::MessageView>)
    requires
        messages.len() > 0,
    ensures
        ({
            let first = memory::shortened(markdown::message_markdown(messages[0]), 48);
            let last = memory::shortened(
                markdown::message_markdown(messages[messages.len() - 1]),
                48,
            );
            let made = memory::summary_of(messages, None);
            &&& messages.len() == 1 ==> made == "Single message: "@ + first
            &&& messages.len() > 1 ==> made == text::decimal(messages.len()) + " msgs | first: "@
                + first + " | last: "@ + last
        }),
{
}

/// A summary of the caller that is clean and short is kept as it is.
pub proof fn clean_summaries_are_kept(messages: Seq<message::MessageView>, s: Seq<char>)
    requires
        0 < s.len() <= 96,
        !text::is_space(s[0]),
        !text::is_space(s.last()),
        forall|i: int| 0 <= i < s.len() && text::is_space(#[trigger] s[i]) ==> s[i] == ' ',
        forall|i: int|
            0 < i < s.len() && text::is_space(#[trigger] s[i]) ==> !text::is_space(s[i - 1]),
    ensures
        memory::summary_of(messages, Some(s)) == s,
{
    assert(text::trim_start(s) == s);
    assert(text::trim_end(s) == s);
    single_spaces_stay(s);
}

proof fn single_spaces_stay(s: Seq<char>)
    requires
        forall|i: int| 0 <= i < s.len() && text::is_space(#[trigger] s[i]) ==> s[i] == ' ',
        forall|i: int|
            0 < i < s.len() && text::is_space(#[trigger] s[i]) ==> !text::is_space(s[i - 1]),
    ensures
        memory::collapsed(s) == s,
    decreases s.len(),
{
    if s.len() > 0 {
        let less = s.drop_last();
        assert forall|i: int| 0 <= i < less.len() && text::is_space(#[trigger] less[i]) implies less[i]
            == ' ' by {
            assert(less[i] == s[i]);
        }
        assert forall|i: int|
            0 < i < less.len() && text::is_space(#[trigger] less[i]) implies !text::is_space(
            less[i - 1],
        ) by {
            assert(less[i] == s[i]);
        }
        single_spaces_stay(less);
        assert(s.last() == s[s.len() - 1]);
        assert(memory::collapsed(s) =~= s);
    } else {
        assert(memory::collapsed(s) =~= s);
    }
}

/// A summary that is too long is cut after ninety-six characters and marked as cut; a blank one is none.
pub proof fn long_summaries_are_cut(messages: Seq<message::MessageView>, s: Seq<char>)
    ensures
        ({
            let line = memory::collapsed(text::trim(s));
            let made = memory::summary_of(messages, Some(s));
            &&& text::trim(s).len() == 0 ==> made == memory::summary_of(messages, None)
            &&& text::trim(s).len() > 0 && line.len() <= 96 ==> made == line
            &&& text::trim(s).len() > 0 && line.len() > 96 ==> made.len() == 97 && made.last() == '…'
                && made.drop_last() == line.take(96)
        }),
{
    let line = memory::collapsed(text::trim(s));
    if line.len() > 96 {
        assert(line.take(96).push('…').drop_last() =~= line.take(96));
    }
}

/// Putting a text on one line loses no character but white space.
pub proof fn one_line_keeps_what_is_said(s: Seq<char>)
    ensures
        memory::collapsed(s).filter(|c: char| !text::is_space(c)) == s.filter(
            |c: char| !text::is_space(c),
        ),
    decreases s.len(),
{
    let f = |c: char| !text::is_space(c);
    reveal(Seq::filter);
    if s.len() > 0 {
        one_line_keeps_what_is_said(s.drop_last());
        let before = memory::collapsed(s.drop_last());
        if !text::is_space(s.last()) {
            assert(before.push(s.last()).drop_last() =~= before);
        } else {
            assert(before.push(' ').drop_last() =~= before);
            assert(text::is_space(' '));
        }
    }
}

// ---------------------------------------------------------------------------
// Tokens
// ---------------------------------------------------------------------------

/// With its archive put back a thread takes the tokens that it takes now, and for each segment those
/// that its messages take beyond its placeholder.
pub proof fn archived_tokens_are_added(t: thread::ThreadView)
    ensures
        ({
            let saved = t.segments.fold_left(
                0nat,
                |n: nat, s: thread::SegmentView|
                    if s.message_token_count > s.placeholder_token_count {
                        n + (s.message_token_count - s.placeholder_token_count) as nat
                    } else {
                        n
                    },
            );
            if archive::active_used(t) + saved <= u64::MAX {
                archive::full_used(t) == archive::active_used(t) + saved
            } else {
                archive::full_used(t) == u64::MAX
            }
        }),
        t.active_tokens is Some ==> archive::active_used(t) == t.active_tokens->0,
{
    saved_tokens_add_up(t.segments);
}

proof fn saved_tokens_add_up(segments: Seq<thread::SegmentView>)
    ensures
        archive::all_saved_tokens(segments) == segments.fold_left(
            0nat,
            |n: nat, s: thread::SegmentView|
                if s.message_token_count > s.placeholder_token_count {
                    n + (s.message_token_count - s.placeholder_token_count) as nat
                } else {
                    n
                },
        ),
    decreases segments.len(),
{
    reveal_with_fuel(Seq::fold_left, 2);
    if segments.len() > 0 {
        saved_tokens_add_up(segments.drop_last());
    }
}

// ---------------------------------------------------------------------------
// Sums
// ---------------------------------------------------------------------------

/// The sum of a number over segments is that of each of them.
pub proof fn totals_add_up(
    segments: Seq<thread::SegmentView>,
    count: spec_fn(thread::SegmentView) -> usize,
)
    ensures
        memory_tool::total(segments, count) == segments.fold_left(
            0nat,
            |n: nat, s: thread::SegmentView| n + count(s) as nat,
        ),
    decreases segments.len(),
{
    reveal_with_fuel(Seq::fold_left, 2);
    if segments.len() > 0 {
        totals_add_up(segments.drop_last(), count);
    }
}

/// A number that fits, or else the largest.
pub open spec fn at_most(n: nat) -> json::JsonView {
    json::JsonView::Unsigned(
        if n > usize::MAX {
            usize::MAX as u64
        } else {
            n as u64
        },
    )
}

/// The sum of a number over segments.
pub open spec fn sum_of(
    segments: Seq<thread::SegmentView>,
    count: spec_fn(thread::SegmentView) -> usize,
) -> nat {
    segments.fold_left(0nat, |n: nat, s: thread::SegmentView| n + count(s) as nat)
}

/// The archive is summed up by the number of its segments, and by the sums of their messages, of their
/// characters, of the characters of their placeholders and of what they save.
pub proof fn stats_are_sums(segments: Seq<thread::SegmentView>)
    ensures
        ({
            let stats = memory_tool::stats(segments);
            &&& memory_tool::has_value(stats, "segments"@, at_most(segments.len()))
            &&& memory_tool::has_value(
                stats,
                "messages"@,
                at_most(sum_of(segments, |s: thread::SegmentView| s.message_count)),
            )
            &&& memory_tool::has_value(
                stats,
                "chars"@,
                at_most(sum_of(segments, |s: thread::SegmentView| s.message_char_count)),
            )
            &&& memory_tool::has_value(
                stats,
                "placeholder_chars"@,
                at_most(sum_of(segments, |s: thread::SegmentView| s.placeholder_char_count)),
            )
            &&& memory_tool::has_value(
                stats,
                "aggregate_token_savings_estimate"@,
                at_most(
                    sum_of(
                        segments,
                        |s: thread::SegmentView|
                            if s.message_char_count > s.placeholder_char_count {
                                (s.message_char_count - s.placeholder_char_count) as usize
                            } else {
                                0
                            },
                    ),
                ),
            )
        }),
{
    reveal_strlit("segments");
    reveal_strlit("messages");
    reveal_strlit("chars");
    reveal_strlit("placeholder_chars");
    reveal_strlit("aggregate_token_savings_estimate");
    assert("segments"@[0] != "messages"@[0]);
    totals_add_up(segments, |s: thread::SegmentView| s.message_count);
    totals_add_up(segments, |s: thread::SegmentView| s.message_char_count);
    totals_add_up(segments, |s: thread::SegmentView| s.placeholder_char_count);
    totals_add_up(segments, |s: thread::SegmentView| archive::saved_chars(s));
    saved_chars_are_differences(segments);
    let fields = memory_tool::stats(segments)->Object_0;
    assert(fields[0].0 == "segments"@ && fields[1].0 == "messages"@ && fields[2].0 == "chars"@);
    assert(fields[3].0 == "placeholder_chars"@ && fields[4].0
        == "aggregate_token_savings_estimate"@);
    assert(fields[0] == ("segments"@, at_most(segments.len())));
    assert(fields[1] == (
        "messages"@,
        at_most(sum_of(segments, |s: thread::SegmentView| s.message_count)),
    ));
    assert(fields[2] == (
        "chars"@,
        at_most(sum_of(segments, |s: thread::SegmentView| s.message_char_count)),
    ));
    assert(fields[3] == (
        "placeholder_chars"@,
        at_most(sum_of(segments, |s: thread::SegmentView| s.placeholder_char_count)),
    ));
}

proof fn saved_chars_are_differences(segments: Seq<thread::SegmentView>)
    ensures
        memory_tool::total(segments, |s: thread::SegmentView| archive::saved_chars(s)) == sum_of(
            segments,
            |s: thread::SegmentView|
                if s.message_char_count > s.placeholder_char_count {
                    (s.message_char_count - s.placeholder_char_count) as usize
                } else {
                    0
                },
        ),
    decreases segments.len(),
{
    reveal_with_fuel(Seq::fold_left, 2);
    if segments.len() > 0 {
        saved_chars_are_differences(segments.drop_last());
    }
}

// ---------------------------------------------------------------------------
// The tool
// ---------------------------------------------------------------------------

/// Looking into the archive changes nothing, and never fails but for a segment that is not there.
pub proof fn looking_changes_nothing(t: thread::ThreadView, action: MemoryAction, now: u128)
    requires
        action is List || action is Stats || action is Load,
    ensures
        memory_tool::after_action(t, action, now) == t,
        !(action is Load) ==> memory_tool::action_error(t, action) is None,
{
}

/// The tool archives the messages from a start up to an end, which does not belong to them: one
/// placeholder takes their place, and they are in the archive.
pub proof fn the_tool_archives_half_open_ranges(
    t: thread::ThreadView,
    start: usize,
    end: usize,
    now: u128,
)
    ensures
        ({
            let action = MemoryAction::Store { start, end };
            let after = memory_tool::after_action(t, action, now);
            &&& start >= end ==> memory_tool::action_error(t, action) == Some(
                MemoryToolError::InvalidRange { start, end },
            )
            &&& memory_tool::action_error(t, action) is None ==> {
                &&& start < end <= t.messages.len()
                &&& after.messages.len() == t.messages.len() - (end - start) + 1
                &&& after.messages.take(start as int) == t.messages.take(start as int)
                &&& after.messages.skip(start + 1) == t.messages.skip(end as int)
                &&& after.segments.len() == t.segments.len() + 1
                &&& after.segments.last().messages == t.messages.subrange(start as int, end as int)
                &&& after.segments.drop_last() == t.segments
            }
        }),
{
    let action = MemoryAction::Store { start, end };
    let after = memory_tool::after_action(t, action, now);
    if memory_tool::action_error(t, action) is None {
        assert(after.messages.take(start as int) =~= t.messages.take(start as int));
        assert(after.messages.skip(start + 1) =~= t.messages.skip(end as int));
        assert(after.segments.drop_last() =~= t.segments);
    }
}

/// A segment that is not there can be neither loaded nor restored nor pruned; one that is there can.
pub proof fn missing_segments_are_told(t: thread::ThreadView, id: u64)
    ensures
        ({
            let there = exists|i: int|
                0 <= i < t.segments.len() && (#[trigger] t.segments[i]).id == id;
            let missing = Some(
                MemoryToolError::Memory(memory::MemoryError::NoSegment { id }),
            );
            let load = MemoryAction::Load { id, include_messages: true };
            let look = MemoryAction::Load { id, include_messages: false };
            let restore = MemoryAction::Restore { id };
            let prune = MemoryAction::Prune { id };
            if there {
                &&& memory_tool::action_error(t, load) is None
                &&& memory_tool::action_error(t, look) is None
                &&& memory_tool::action_error(t, restore) is None
                &&& memory_tool::action_error(t, prune) is None
            } else {
                &&& memory_tool::action_error(t, load) == missing
                &&& memory_tool::action_error(t, look) == missing
                &&& memory_tool::action_error(t, restore) == missing
                &&& memory_tool::action_error(t, prune) == missing
            }
        }),
{
    memory::segment_index_is_first(t.segments, id);
}

/// Pruning takes the segment out of the archive, and no other.
pub proof fn pruning_takes_one_segment(t: thread::ThreadView, id: u64, now: u128)
    requires
        memory_tool::action_error(t, MemoryAction::Prune { id }) is None,
    ensures
        ({
            let after = memory_tool::after_action(t, MemoryAction::Prune { id }, now);
            exists|i: int|
                {
                    &&& 0 <= i < t.segments.len()
                    &&& (#[trigger] t.segments[i]).id == id
                    &&& after.segments == t.segments.take(i) + t.segments.skip(i + 1)
                    &&& after.messages == t.messages || exists|k: int|
                        {
                            &&& 0 <= k < t.messages.len()
                            &&& memory::is_placeholder(#[trigger] t.messages[k], id)
                            &&& after.messages == t.messages.take(k) + t.messages.skip(k + 1)
                        }
                }
        }),
{
    let after = memory_tool::after_action(t, MemoryAction::Prune { id }, now);
    memory::segment_index_is_first(t.segments, id);
    let i = memory::segment_index(t.segments, id)->0;
    let s = t.segments[i];
    assert(after.segments =~= t.segments.take(i) + t.segments.skip(i + 1));
    placeholders_are_found(t.messages, s);
    if let Some(k) = memory::place_of(t.messages, s) {
        assert(after.messages =~= t.messages.take(k) + t.messages.skip(k + 1));
        assert(memory::is_placeholder(t.messages[k], id));
    }
}

/// Where the placeholder of a segment is found, there is a message, and it is a placeholder of the
/// segment.
pub proof fn placeholders_are_found(messages: Seq<message::MessageView>, s: thread::SegmentView)
    ensures
        memory::place_of(messages, s) matches Some(k) ==> 0 <= k < messages.len()
            && memory::is_placeholder(messages[k], s.id),
{
    found_by_text(messages, s);
    memory::placeholder_is_recognised(s.id, s.summary);
}

proof fn found_by_text(messages: Seq<message::MessageView>, s: thread::SegmentView)
    ensures
        memory::placeholder_index(messages, s) matches Some(k) ==> 0 <= k < messages.len()
            && messages[k] == memory::placeholder_of(s),
    decreases messages.len(),
{
    if messages.len() > 0 {
        found_by_text(messages.drop_last(), s);
    }
}

/// The messages of a segment stand in Markdown under their numbers, in order, each as it is.
pub proof fn loaded_messages_are_shown(messages: Seq<Seq<char>>)
    ensures
        memory_tool::message_sections(messages) == Seq::new(
            messages.len(),
            |i: int| "### Message "@ + text::decimal(i as nat) + "\n\n"@ + messages[i] + "\n\n"@,
        ).flatten(),
    decreases messages.len(),
{
    let parts = Seq::new(
        messages.len(),
        |i: int| "### Message "@ + text::decimal(i as nat) + "\n\n"@ + messages[i] + "\n\n"@,
    );
    if messages.len() == 0 {
        assert(parts.flatten() =~= Seq::empty());
    } else {
        let less = messages.drop_last();
        loaded_messages_are_shown(less);
        assert(parts.drop_last() =~= Seq::new(
            less.len(),
            |i: int| "### Message "@ + text::decimal(i as nat) + "\n\n"@ + less[i] + "\n\n"@,
        ));
        text_laws::flattened_one_by_one(parts);
    }
}

/// What the tool says of an action holds what was asked for: the list, the sums, what is told of the
/// segment, and its messages, where they are asked for or were put back.
pub proof fn the_tool_says_what_was_asked_for(t: thread::ThreadView, action: MemoryAction, now: u128)
    requires
        memory_tool::action_error(t, action) is None,
    ensures
        ({
            let said = memory_tool::action_text(t, action, now);
            match action {
                MemoryAction::List { limit } => request_laws::has_part(
                    said,
                    json::pretty_json(
                        json::JsonView::Array(memory_tool::segment_list(t.segments, limit)),
                    ),
                ),
                MemoryAction::Stats => request_laws::has_part(
                    said,
                    json::pretty_json(memory_tool::stats(t.segments)),
                ),
                MemoryAction::Store { start, end } => request_laws::has_part(
                    said,
                    json::pretty_json(
                        memory_tool::listed(
                            memory_tool::segment_with(
                                memory_tool::after_action(t, action, now).segments,
                                t.next_id,
                            ),
                        ),
                    ),
                ),
                MemoryAction::Load { id, include_messages } => {
                    let s = memory_tool::segment_with(t.segments, id);
                    &&& s.id == id
                    &&& request_laws::has_part(said, json::pretty_json(archive::segment_meta(s)))
                    &&& include_messages ==> request_laws::has_part(
                        said,
                        memory_tool::message_sections(
                            s.messages.map_values(
                                |m: message::MessageView| markdown::message_markdown(m),
                            ),
                        ),
                    )
                },
                MemoryAction::Restore { id } => {
                    let s = memory_tool::segment_with(t.segments, id);
                    &&& s.id == id
                    &&& request_laws::has_part(said, json::pretty_json(archive::segment_meta(s)))
                    &&& request_laws::has_part(
                        said,
                        memory_tool::message_sections(
                            s.messages.map_values(
                                |m: message::MessageView| markdown::message_markdown(m),
                            ),
                        ),
                    )
                },
                MemoryAction::Prune { id } => request_laws::has_part(
                    said,
                    "Removed segment "@ + text::decimal(id as nat),
                ),
            }
        }),
{
    let said = memory_tool::action_text(t, action, now);
    let none = Seq::<char>::empty();
    let end = "\n```\n"@;
    match action {
        MemoryAction::List { limit } => {
            let j = json::JsonView::Array(memory_tool::segment_list(t.segments, limit));
            let start = "# Stored Memory Segments"@ + "\n\n```json\n"@;
            assert(said =~= start + json::pretty_json(j) + end);
        },
        MemoryAction::Stats => {
            let start = "# Memory Stats"@ + "\n\n```json\n"@;
            assert(said =~= start + json::pretty_json(memory_tool::stats(t.segments)) + end);
        },
        MemoryAction::Store { start: _, end: _ } => {
            let j = memory_tool::listed(
                memory_tool::segment_with(
                    memory_tool::after_action(t, action, now).segments,
                    t.next_id,
                ),
            );
            let start = "# Stored Memory Segment"@ + "\n\n```json\n"@;
            assert(said =~= start + json::pretty_json(j) + end);
        },
        MemoryAction::Load { id, include_messages } => {
            memory::segment_index_is_first(t.segments, id);
            let s = memory_tool::segment_with(t.segments, id);
            let start = "# Memory Segment"@ + "\n\n```json\n"@;
            let meta = json::pretty_json(archive::segment_meta(s));
            let shown = memory_tool::message_sections(memory_tool::segment_markdown(s));
            if include_messages {
                assert(said =~= start + meta + (end + "\n## Messages\n\n"@ + shown));
                assert(said =~= (start + meta + end + "\n## Messages\n\n"@) + shown + none);
            } else {
                assert(said =~= start + meta + end);
            }
        },
        MemoryAction::Restore { id } => {
            memory::segment_index_is_first(t.segments, id);
            let s = memory_tool::segment_with(t.segments, id);
            let start = "# Restored Memory Segment"@ + "\n\n```json\n"@;
            let meta = json::pretty_json(archive::segment_meta(s));
            let shown = memory_tool::message_sections(memory_tool::segment_markdown(s));
            assert(said =~= start + meta + (end + "\n## Messages\n\n"@ + shown));
            assert(said =~= (start + meta + end + "\n## Messages\n\n"@) + shown + none);
        },
        MemoryAction::Prune { id } => {
            reveal_strlit("# Pruned Memory Segment\n\nRemoved segment ");
            reveal_strlit("# Pruned Memory Segment\n\n");
            reveal_strlit("Removed segment ");
            assert("# Pruned Memory Segment\n\nRemoved segment "@ =~= "# Pruned Memory Segment\n\n"@
                + "Removed segment "@);
            assert(said =~= "# Pruned Memory Segment\n\n"@ + ("Removed segment "@ + text::decimal(
                id as nat,
            )) + "\n"@);
        },
    }
}

/// A list with a limit keeps its last segments, as many as the limit says; without one, or with a larger
/// one, it keeps all of them.
pub proof fn limits_keep_the_last(segments: Seq<thread::SegmentView>, limit: Option<usize>)
    ensures
        ({
            let kept = memory_tool::most_recent(segments, limit);
            &&& limit is None ==> kept == segments
            &&& limit is Some && limit->0 >= segments.len() ==> kept == segments
            &&& limit is Some && limit->0 < segments.len() ==> kept.len() == limit->0 && forall|
                i: int,
            |
                0 <= i < kept.len() ==> #[trigger] kept[i] == segments[segments.len() - limit->0 + i]
        }),
{
}

/// What is told of a segment as plain values is what is known of it.
pub proof fn plain_values_tell_of_a_segment(s: thread::SegmentView)
    ensures
        ({
            let m = archive::meta_tuple(s);
            &&& m.0 == s.id && m.1 == s.start && m.2 == s.end && m.3 == s.message_count
            &&& m.4 == s.message_char_count && m.5 == s.placeholder_char_count
            &&& m.7 == s.summary && m.8 == s.stored_epoch_ms
            &&& s.message_char_count >= s.placeholder_char_count ==> m.6 == s.message_char_count
                - s.placeholder_char_count
            &&& s.message_char_count < s.placeholder_char_count ==> m.6 == 0
        }),
{
}

/// An error in words names the range, the identifier or the position that it is about, and how many
/// messages there are.
pub proof fn errors_name_what_is_wrong(start: usize, end: usize, len: usize, id: u64)
    ensures
        memory::error_text(memory::MemoryError::OutOfBounds { start, end, len }) == "range "@
            + text::decimal(start as nat) + "..="@ + text::decimal(end as nat)
            + " out of bounds (len="@ + text::decimal(len as nat) + ")"@,
        memory::error_text(memory::MemoryError::Overlaps { start, end }) == "range "@
            + text::decimal(start as nat) + "..="@ + text::decimal(end as nat)
            + " overlaps an existing archived memory segment"@,
        memory::error_text(memory::MemoryError::NoSegment { id }) == "no memory segment with id "@
            + text::decimal(id as nat),
        memory::error_text(memory::MemoryError::PlaceholderOutOfBounds { index: start, len })
            == "placeholder index "@ + text::decimal(start as nat) + " out of bounds (len="@
            + text::decimal(len as nat) + ")"@,
        memory::error_text(memory::MemoryError::RemoveOutOfBounds { index: start, len })
            == "remove index "@ + text::decimal(start as nat) + " out of bounds (len="@
            + text::decimal(len as nat) + ")"@,
        memory::error_text(memory::MemoryError::StartAfterEnd)
            == "start index greater than end index"@,
{
}

/// A thread whose title is asked for has all of its messages, unless it has a summary: then it stays as
/// it is, but for the title that is on its way.
pub proof fn titles_are_made_of_all_messages(t: thread::ThreadView)
    ensures
        crate::title::titled(t).pending_title_generation,
        t.summary is Some ==> crate::title::titled(t).messages == t.messages,
        t.summary is None ==> crate::title::titled(t).messages == archive::unfolded(
            t.messages,
            t.segments,
        ),
        crate::title::titled(t).segments == t.segments,
        crate::title::titled(t).title == t.title,
{
    crate::memory_laws::full_restore_unfolds(t);
}

/// The largest identifier is that of a segment; without segments it is zero.
pub proof fn the_largest_identifier_is_one_of_a_segment(segments: Seq<thread::SegmentView>)
    ensures
        segments.len() == 0 ==> memory::max_id(segments) == 0,
        segments.len() > 0 ==> exists|i: int|
            0 <= i < segments.len() && (#[trigger] segments[i]).id == memory::max_id(segments),
    decreases segments.len(),
{
    if segments.len() > 0 {
        let less = segments.drop_last();
        the_largest_identifier_is_one_of_a_segment(less);
        let last = segments.len() - 1;
        assert(segments[last] == segments.last());
        if segments.last().id > memory::max_id(less) {
            assert(segments[last].id == memory::max_id(segments));
        } else if less.len() > 0 {
            let i = choose|i: int|
                0 <= i < less.len() && (#[trigger] less[i]).id == memory::max_id(less);
            assert(segments[i].id == memory::max_id(segments));
        } else {
            assert(segments[last].id == memory::max_id(segments));
        }
    }
}

/// Putting a segment back puts its messages in, in a row and in order. All other messages stay, in order;
/// only a placeholder of the segment may go, where it stands at the start of the segment.
pub proof fn restoring_puts_all_messages_back(t: thread::ThreadView, s: thread::SegmentView)
    ensures
        exists|a: Seq<message::MessageView>, b: Seq<message::MessageView>|
            {
                &&& memory::restored(t, s).messages == #[trigger] (a + s.messages + b)
                &&& a + b == t.messages || (s.start < t.messages.len() && memory::is_placeholder(
                    t.messages[s.start as int],
                    s.id,
                ) && a == t.messages.take(s.start as int) && b == t.messages.skip(s.start + 1))
                &&& a.len() == s.start || b.len() == 0
            },
{
    let rest = memory::without_placeholder(t.messages, s);
    let at = if s.start < rest.len() {
        s.start as int
    } else {
        rest.len() as int
    };
    let a = rest.take(at);
    let b = rest.skip(at);
    assert(memory::restored(t, s).messages == a + s.messages + b);
    assert(a + b =~= rest);
    if s.start < t.messages.len() && memory::is_placeholder(t.messages[s.start as int], s.id) {
        assert(a =~= t.messages.take(s.start as int));
        assert(b =~= t.messages.skip(s.start + 1));
    }
}

/// Where the tokens of a thread were not counted, they are estimated from what a model is sent of it.
pub proof fn tokens_are_estimated_where_not_counted(t: thread::ThreadView)
    requires
        t.active_tokens is None,
    ensures
        archive::active_used(t) == token_usage::estimate(
            token_usage::total_chars(archive::numbered_requests(t.messages)),
        ),
{
}

} // verus!
