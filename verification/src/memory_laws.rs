//! What holds of the archive of a thread as a whole.

use vstd::prelude::*;

use crate::archive;
use crate::memory;
use crate::message;
use crate::text;
use crate::thread;

verus! {

/// Whether every segment has an identifier below the next one.
pub open spec fn ids_below_next(t: thread::ThreadView) -> bool {
    forall|i: int| 0 <= i < t.segments.len() ==> (#[trigger] t.segments[i]).id < t.next_id
}

/// Whether no segment has the next identifier. That is so as long as identifiers last.
pub open spec fn next_is_free(t: thread::ThreadView) -> bool {
    memory::segment_index(t.segments, t.next_id) is None
}

/// Where every segment has an identifier below the next one, none has the next one.
pub proof fn below_next_is_free(t: thread::ThreadView)
    requires
        ids_below_next(t),
    ensures
        next_is_free(t),
{
    memory::segment_index_is_first(t.segments, t.next_id);
}

/// Whether no two segments have one identifier.
pub open spec fn ids_differ(t: thread::ThreadView) -> bool {
    forall|i: int, j: int|
        0 <= i < j < t.segments.len() ==> (#[trigger] t.segments[i]).id != (
        #[trigger] t.segments[j]).id
}

/// Whether the ranges of no two segments meet.
pub open spec fn ranges_apart(segments: Seq<thread::SegmentView>) -> bool {
    forall|i: int, j: int|
        0 <= i < j < segments.len() ==> (#[trigger] segments[i]).end < (
        #[trigger] segments[j]).start || segments[j].end < segments[i].start
}

/// Taking messages out and putting them in at the same place changes nothing.
pub proof fn extract_then_insert(messages: Seq<message::MessageView>, start: int, end: int)
    requires
        0 <= start <= end < messages.len(),
    ensures
        memory::inserted(
            memory::without(messages, start, end),
            start,
            messages.subrange(start, end + 1),
        ) == messages,
{
    assert(memory::inserted(
        memory::without(messages, start, end),
        start,
        messages.subrange(start, end + 1),
    ) =~= messages);
}

/// Archiving a range puts one placeholder in its place: the messages before it stay, those behind it
/// follow the placeholder, and the placeholder is recognised by the identifier.
pub proof fn store_replaces_the_range(
    t: thread::ThreadView,
    start: usize,
    end: usize,
    custom: Option<Seq<char>>,
    now: u128,
)
    requires
        memory::store_error(t, start, end) is None,
    ensures
        ({
            let after = memory::stored(t, start, end, custom, now).messages;
            &&& after.len() == t.messages.len() - (end - start)
            &&& after.take(start as int) == t.messages.take(start as int)
            &&& memory::is_placeholder(after[start as int], t.next_id)
            &&& after.skip(start + 1) == t.messages.skip(end + 1)
        }),
{
    let summary = memory::new_segment(t, start, end, custom, now).summary;
    memory::placeholder_is_recognised(t.next_id, summary);
    let after = memory::stored(t, start, end, custom, now).messages;
    assert(after.take(start as int) =~= t.messages.take(start as int));
    assert(after.skip(start + 1) =~= t.messages.skip(end + 1));
}

/// The identifier of the segment that was just archived leads to it.
pub proof fn store_then_find(
    t: thread::ThreadView,
    start: usize,
    end: usize,
    custom: Option<Seq<char>>,
    now: u128,
)
    requires
        memory::store_error(t, start, end) is None,
        next_is_free(t),
    ensures
        memory::segment_index(
            memory::stored(t, start, end, custom, now).segments,
            t.next_id,
        ) == Some(t.segments.len() as int),
{
    let after = memory::stored(t, start, end, custom, now).segments;
    assert(after.drop_last() =~= t.segments);
}

/// Restoring a segment right after it was archived gives back every message of the thread, in order:
/// the placeholder is gone. The archive, and with it what is told of its segments, stays as archiving
/// left it.
pub proof fn store_then_restore(
    t: thread::ThreadView,
    start: usize,
    end: usize,
    custom: Option<Seq<char>>,
    now: u128,
)
    requires
        memory::store_error(t, start, end) is None,
        next_is_free(t),
    ensures
        memory::restored_by_id(
            memory::stored(t, start, end, custom, now),
            t.next_id,
        ).messages == t.messages,
        memory::restored_by_id(
            memory::stored(t, start, end, custom, now),
            t.next_id,
        ).segments == memory::stored(t, start, end, custom, now).segments,
{
    store_then_find(t, start, end, custom, now);
    store_replaces_the_range(t, start, end, custom, now);
    let after = memory::stored(t, start, end, custom, now);
    let segment = after.segments[t.segments.len() as int];
    assert(memory::without_placeholder(after.messages, segment) =~= memory::without(
        t.messages,
        start as int,
        end as int,
    ));
    extract_then_insert(t.messages, start as int, end as int);
}

/// Restoring keeps the archive: the same segments can be restored and looked into again.
pub proof fn restore_keeps_the_archive(t: thread::ThreadView, id: u64)
    ensures
        memory::restored_by_id(t, id).segments == t.segments,
        memory::restored_by_id(t, id).next_id == t.next_id,
{
}

/// Restoring under an identifier that no segment has changes nothing.
pub proof fn unknown_segment_is_not_restored(t: thread::ThreadView, id: u64)
    requires
        forall|i: int| 0 <= i < t.segments.len() ==> (#[trigger] t.segments[i]).id != id,
    ensures
        memory::segment_index(t.segments, id) is None,
        memory::restored_by_id(t, id) == t,
{
    memory::segment_index_is_first(t.segments, id);
}

/// What is loaded of a segment right after it was archived are the messages that were archived.
pub proof fn store_then_load(
    t: thread::ThreadView,
    start: usize,
    end: usize,
    custom: Option<Seq<char>>,
    now: u128,
)
    requires
        memory::store_error(t, start, end) is None,
        next_is_free(t),
        t.messages.len() <= usize::MAX,
    ensures
        ({
            let after = memory::stored(t, start, end, custom, now).segments;
            let i = memory::segment_index(after, t.next_id)->0;
            &&& after[i].messages == t.messages.subrange(start as int, end + 1)
            &&& after[i].message_count == end - start + 1
            &&& after[i].start == start
            &&& after[i].end == end
        }),
{
    store_then_find(t, start, end, custom, now);
}

/// Pruning a segment right after it was archived leaves the thread without the range and the archive
/// as it was.
pub proof fn store_then_prune(
    t: thread::ThreadView,
    start: usize,
    end: usize,
    custom: Option<Seq<char>>,
    now: u128,
)
    requires
        memory::store_error(t, start, end) is None,
        next_is_free(t),
    ensures
        ({
            let after = memory::stored(t, start, end, custom, now);
            let i = memory::segment_index(after.segments, t.next_id)->0;
            &&& memory::pruned(after, i).messages == memory::without(
                t.messages,
                start as int,
                end as int,
            )
            &&& memory::pruned(after, i).segments == t.segments
        }),
{
    store_then_find(t, start, end, custom, now);
    store_replaces_the_range(t, start, end, custom, now);
    let after = memory::stored(t, start, end, custom, now);
    let i = t.segments.len() as int;
    assert(memory::pruned(after, i).messages =~= memory::without(
        t.messages,
        start as int,
        end as int,
    ));
    assert(memory::pruned(after, i).segments =~= t.segments);
}

/// Pruning a segment deletes its placeholder, wherever it was moved to: where there is one, none is left.
pub proof fn prune_leaves_no_placeholder(t: thread::ThreadView, index: int)
    requires
        0 <= index < t.segments.len(),
        forall|i: int, j: int|
            0 <= i < j < t.messages.len() ==> !(memory::is_placeholder(
                #[trigger] t.messages[i],
                t.segments[index].id,
            ) && memory::is_placeholder(#[trigger] t.messages[j], t.segments[index].id)),
    ensures
        ({
            let after = memory::pruned(t, index);
            let left = memory::placeholder_of(t.segments[index]);
            &&& after.segments == t.segments.remove(index)
            &&& !after.messages.contains(left)
            &&& t.messages.contains(left) ==> after.messages.len() == t.messages.len() - 1
        }),
{
    let s = t.segments[index];
    let left = memory::placeholder_of(s);
    let after = memory::pruned(t, index).messages;
    memory::placeholder_is_recognised(s.id, s.summary);
    placeholder_index_is_first(t.messages, s);
    if t.messages.contains(left) {
        let i = choose|i: int| 0 <= i < t.messages.len() && t.messages[i] == left;
        assert(memory::is_placeholder(t.messages[i], s.id));
        let at = memory::place_of(t.messages, s)->0;
        assert(memory::is_placeholder(t.messages[at], s.id));
    }
    if after.contains(left) {
        let k = choose|k: int| 0 <= k < after.len() && after[k] == left;
        match memory::place_of(t.messages, s) {
            Some(at) => {
                let i = if k < at {
                    k
                } else {
                    k + 1
                };
                assert(after[k] == t.messages[i]);
                assert(memory::is_placeholder(t.messages[i], s.id));
                assert(memory::is_placeholder(t.messages[at], s.id));
            },
            None => {
                assert(t.messages.contains(left));
            },
        }
    }
}

proof fn placeholder_index_is_first(
    messages: Seq<message::MessageView>,
    s: thread::SegmentView,
)
    ensures
        match memory::placeholder_index(messages, s) {
            Some(i) => 0 <= i < messages.len() && messages[i] == memory::placeholder_of(s),
            None => !messages.contains(memory::placeholder_of(s)),
        },
    decreases messages.len(),
{
    if messages.len() > 0 {
        let shorter = messages.drop_last();
        placeholder_index_is_first(shorter, s);
        if memory::placeholder_index(messages, s) is None && messages.contains(
            memory::placeholder_of(s),
        ) {
            let i = choose|i: int|
                0 <= i < messages.len() && messages[i] == memory::placeholder_of(s);
            if i < shorter.len() {
                assert(shorter[i] == messages[i]);
            }
        }
    }
}

/// Archiving keeps identifiers below the next one and apart, as long as identifiers last.
pub proof fn store_keeps_ids_apart(
    t: thread::ThreadView,
    start: usize,
    end: usize,
    custom: Option<Seq<char>>,
    now: u128,
)
    requires
        memory::store_error(t, start, end) is None,
        ids_below_next(t),
        ids_differ(t),
        t.next_id < u64::MAX,
    ensures
        ids_below_next(memory::stored(t, start, end, custom, now)),
        ids_differ(memory::stored(t, start, end, custom, now)),
        memory::stored(t, start, end, custom, now).next_id == t.next_id + 1,
{
    let after = memory::stored(t, start, end, custom, now);
    assert forall|i: int| 0 <= i < after.segments.len() implies (#[trigger] after.segments[i]).id
        < after.next_id by {
        if i < t.segments.len() {
            assert(after.segments[i] == t.segments[i]);
        }
    }
    assert forall|i: int, j: int| 0 <= i < j < after.segments.len() implies (
    #[trigger] after.segments[i]).id != (#[trigger] after.segments[j]).id by {
        assert(after.segments[i] == t.segments[i]);
        if j < t.segments.len() {
            assert(after.segments[j] == t.segments[j]);
        }
    }
}

/// Segments that come from elsewhere have identifiers below the next one, as long as identifiers last.
pub proof fn loaded_ids_are_below_next(segments: Seq<thread::SegmentView>)
    ensures
        forall|i: int|
            0 <= i < segments.len() ==> (#[trigger] segments[i]).id <= memory::max_id(segments),
    decreases segments.len(),
{
    if segments.len() > 0 {
        loaded_ids_are_below_next(segments.drop_last());
        assert forall|i: int| 0 <= i < segments.len() implies (#[trigger] segments[i]).id
            <= memory::max_id(segments) by {
            if i < segments.len() - 1 {
                assert(segments.drop_last()[i] == segments[i]);
            }
        }
    }
}

/// Archiving never lets two archived ranges meet.
pub proof fn store_keeps_ranges_apart(
    t: thread::ThreadView,
    start: usize,
    end: usize,
    custom: Option<Seq<char>>,
    now: u128,
)
    requires
        memory::store_error(t, start, end) is None,
        ranges_apart(t.segments),
    ensures
        ranges_apart(memory::stored(t, start, end, custom, now).segments),
{
    let after = memory::stored(t, start, end, custom, now).segments;
    assert forall|i: int, j: int| 0 <= i < j < after.len() implies (#[trigger] after[i]).end < (
    #[trigger] after[j]).start || after[j].end < after[i].start by {
        assert(after[i] == t.segments[i]);
        if j < t.segments.len() {
            assert(after[j] == t.segments[j]);
        } else {
            assert(!memory::overlaps(t.segments, start as int, end as int));
        }
    }
}

/// Archiving a range makes its range overlap the archive: it is refused a second time.
pub proof fn stored_range_is_refused(
    t: thread::ThreadView,
    start: usize,
    end: usize,
    custom: Option<Seq<char>>,
    now: u128,
)
    requires
        memory::store_error(t, start, end) is None,
    ensures
        memory::store_error(memory::stored(t, start, end, custom, now), start, end) is Some,
{
    let after = memory::stored(t, start, end, custom, now);
    let i = t.segments.len() as int;
    assert(after.segments[i].start == start);
    assert(memory::overlaps(after.segments, start as int, end as int));
}

/// The thread with its archive put back never has fewer tokens than the thread as it is.
pub proof fn full_usage_is_no_less(t: thread::ThreadView)
    ensures
        archive::active_used(t) <= archive::full_used(t),
        t.segments.len() == 0 ==> archive::active_used(t) == archive::full_used(t),
{
}

// ---------------------------------------------------------------------------
// Summaries
// ---------------------------------------------------------------------------

/// Whether white space in a text is single spaces between other characters.
pub open spec fn is_one_line(s: Seq<char>) -> bool {
    &&& forall|i: int| 0 <= i < s.len() && text::is_space(#[trigger] s[i]) ==> s[i] == ' '
    &&& forall|i: int|
        0 < i < s.len() && text::is_space(#[trigger] s[i]) ==> !text::is_space(s[i - 1])
}

proof fn collapsed_is_one_line(s: Seq<char>)
    ensures
        is_one_line(memory::collapsed(s)),
        s.len() > 0 ==> memory::collapsed(s).len() > 0,
        s.len() > 0 ==> (text::is_space(memory::collapsed(s).last()) <==> text::is_space(s.last())),
        s.len() > 0 && !text::is_space(s.last()) ==> memory::collapsed(s).last() == s.last(),
        s.len() > 0 && !text::is_space(s[0]) ==> memory::collapsed(s)[0] == s[0],
    decreases s.len(),
{
    if s.len() > 0 {
        let shorter = s.drop_last();
        collapsed_is_one_line(shorter);
        let c = memory::collapsed(shorter);
        if s.len() >= 2 {
            assert(shorter.last() == s[s.len() - 2]);
            assert(shorter[0] == s[0]);
        } else {
            assert(c.len() == 0);
        }
    }
}

proof fn collapsing_one_line_changes_nothing(s: Seq<char>)
    requires
        is_one_line(s),
    ensures
        memory::collapsed(s) == s,
    decreases s.len(),
{
    if s.len() > 0 {
        let shorter = s.drop_last();
        assert forall|i: int| 0 <= i < shorter.len() && text::is_space(
            #[trigger] shorter[i],
        ) implies shorter[i] == ' ' by {
            assert(shorter[i] == s[i]);
        }
        assert forall|i: int| 0 < i < shorter.len() && text::is_space(
            #[trigger] shorter[i],
        ) implies !text::is_space(shorter[i - 1]) by {
            assert(shorter[i] == s[i]);
        }
        collapsing_one_line_changes_nothing(shorter);
        assert(shorter.push(s.last()) =~= s);
        if text::is_space(s.last()) {
            assert(text::is_space(s[s.len() - 1]));
        }
    } else {
        assert(memory::collapsed(s) =~= s);
    }
}

proof fn trimmed_ends(s: Seq<char>)
    ensures
        text::trim(s).len() > 0 ==> !text::is_space(text::trim(s)[0]) && !text::is_space(
            text::trim(s).last(),
        ),
{
    trim_start_ends(s);
    trim_end_ends(text::trim_start(s));
}

proof fn trim_start_ends(s: Seq<char>)
    ensures
        text::trim_start(s).len() > 0 ==> !text::is_space(text::trim_start(s)[0]),
    decreases s.len(),
{
    if s.len() > 0 && text::is_space(s[0]) {
        trim_start_ends(s.drop_first());
    }
}

proof fn trim_end_ends(s: Seq<char>)
    ensures
        text::trim_end(s).len() > 0 ==> !text::is_space(text::trim_end(s).last())
            && text::trim_end(s)[0] == s[0],
    decreases s.len(),
{
    if s.len() > 0 && text::is_space(s.last()) {
        trim_end_ends(s.drop_last());
    }
}

/// A cleaned summary has one line, and at most one character beyond the limit.
pub proof fn cleaned_summary_is_short(s: Seq<char>)
    ensures
        is_one_line(memory::cleaned_summary(s)),
        memory::cleaned_summary(s).len() <= memory::MAX_SUMMARY_CHARS + 1,
{
    let line = memory::collapsed(text::trim(s));
    collapsed_is_one_line(text::trim(s));
    let cut = memory::limited(line);
    assert forall|i: int| 0 <= i < cut.len() && text::is_space(#[trigger] cut[i]) implies cut[i]
        == ' ' by {
        if i < line.len() && i < memory::MAX_SUMMARY_CHARS {
            assert(cut[i] == line[i]);
        }
    }
    assert forall|i: int| 0 < i < cut.len() && text::is_space(
        #[trigger] cut[i],
    ) implies !text::is_space(cut[i - 1]) by {
        if i < line.len() && i < memory::MAX_SUMMARY_CHARS {
            assert(cut[i] == line[i]);
        }
    }
}

/// Cleaning a cleaned summary changes nothing.
pub proof fn cleaning_twice_is_cleaning_once(s: Seq<char>)
    ensures
        memory::cleaned_summary(memory::cleaned_summary(s)) == memory::cleaned_summary(s),
{
    let trimmed = text::trim(s);
    let once = memory::cleaned_summary(s);
    cleaned_summary_is_short(s);
    collapsed_is_one_line(trimmed);
    trimmed_ends(s);
    let line = memory::collapsed(trimmed);
    if trimmed.len() > 0 {
        assert(!text::is_space(once[0])) by {
            assert(once[0] == line[0]);
        }
        assert(!text::is_space(once.last())) by {
            if line.len() > memory::MAX_SUMMARY_CHARS {
                assert(once.last() == '…');
            } else {
                assert(once.last() == line.last());
            }
        }
        assert(text::trim_start(once) == once);
        assert(text::trim_end(once) == once);
    } else {
        assert(line.len() == 0);
        assert(once.len() == 0);
    }
    assert(text::trim(once) == once);
    collapsing_one_line_changes_nothing(once);
    if once.len() > memory::MAX_SUMMARY_CHARS {
        assert(memory::limited(once) =~= once);
    }
}

// ---------------------------------------------------------------------------
// The whole archive
// ---------------------------------------------------------------------------

/// A range to be archived, with its summary and the time.
pub ghost struct StoreRequest {
    pub start: usize,
    pub end: usize,
    pub custom: Option<Seq<char>>,
    pub now: u128,
}

/// The thread with ranges archived one after another.
pub open spec fn stored_in_order(
    t: thread::ThreadView,
    requests: Seq<StoreRequest>,
) -> thread::ThreadView
    decreases requests.len(),
{
    if requests.len() == 0 {
        t
    } else {
        let before = stored_in_order(t, requests.drop_last());
        let r = requests.last();
        memory::stored(before, r.start, r.end, r.custom, r.now)
    }
}

/// Whether ranges can be archived one after another, in whatever order they come.
pub open spec fn can_store(t: thread::ThreadView, requests: Seq<StoreRequest>) -> bool
    decreases requests.len(),
{
    requests.len() == 0 || {
        let before = stored_in_order(t, requests.drop_last());
        let r = requests.last();
        &&& can_store(t, requests.drop_last())
        &&& memory::store_error(before, r.start, r.end) is None
    }
}

/// A segment that was just archived is put back where it was.
proof fn stored_segment_is_reopened(t: thread::ThreadView, r: StoreRequest)
    requires
        memory::store_error(t, r.start, r.end) is None,
    ensures
        ({
            let after = memory::stored(t, r.start, r.end, r.custom, r.now);
            &&& after.segments.drop_last() == t.segments
            &&& archive::open_place(after.messages, after.segments.last()) == Some(r.start as int)
            &&& archive::reopened(after.messages, after.segments.last()) == t.messages
        }),
{
    let after = memory::stored(t, r.start, r.end, r.custom, r.now);
    store_replaces_the_range(t, r.start, r.end, r.custom, r.now);
    assert(after.segments.drop_last() =~= t.segments);
    assert(archive::reopened(after.messages, after.segments.last()) =~= t.messages);
}

/// Where nothing is put back, the messages stay.
proof fn nothing_opened_changes_nothing(
    messages: Seq<message::MessageView>,
    segments: Seq<thread::SegmentView>,
)
    requires
        archive::opened(messages, segments).len() == 0,
    ensures
        archive::unfolded(messages, segments) == messages,
    decreases segments.len(),
{
    if segments.len() > 0 {
        nothing_opened_changes_nothing(
            archive::reopened(messages, segments.last()),
            segments.drop_last(),
        );
    }
}

/// Putting the whole archive back gives the messages with all segments put back.
pub proof fn full_restore_unfolds(t: thread::ThreadView)
    ensures
        archive::fully_restored(t).messages == archive::unfolded(t.messages, t.segments),
        archive::fully_restored(t).segments == t.segments,
        archive::fully_restored(t).next_id == t.next_id,
{
    if archive::opened_ranges(t).len() == 0 {
        nothing_opened_changes_nothing(t.messages, t.segments);
    }
}

/// In whatever order ranges are archived, putting the whole archive back gives what it gave before they
/// were archived.
pub proof fn archiving_is_undone_by_full_restore(
    t: thread::ThreadView,
    requests: Seq<StoreRequest>,
)
    requires
        can_store(t, requests),
    ensures
        archive::fully_restored(stored_in_order(t, requests)).messages == archive::fully_restored(
            t,
        ).messages,
    decreases requests.len(),
{
    if requests.len() > 0 {
        let before = stored_in_order(t, requests.drop_last());
        let after = stored_in_order(t, requests);
        archiving_is_undone_by_full_restore(t, requests.drop_last());
        stored_segment_is_reopened(before, requests.last());
        full_restore_unfolds(before);
        full_restore_unfolds(after);
    }
}

/// In whatever order ranges of a conversation are archived, putting the whole archive back gives the
/// conversation as it was.
pub proof fn full_restore_gives_the_conversation(
    t: thread::ThreadView,
    requests: Seq<StoreRequest>,
)
    requires
        t.segments.len() == 0,
        can_store(t, requests),
    ensures
        archive::fully_restored(stored_in_order(t, requests)).messages == t.messages,
{
    archiving_is_undone_by_full_restore(t, requests);
    full_restore_unfolds(t);
}

/// Whether two messages are one message, or the placeholders of segments that stand at one place in two
/// archives.
pub open spec fn alike(
    p: Seq<thread::SegmentView>,
    q: Seq<thread::SegmentView>,
    a: message::MessageView,
    b: message::MessageView,
) -> bool {
    a == b || exists|k: int| #[trigger] placeholders_of(p, q, k, a, b)
}

/// Whether two messages are the placeholders of the segments at a place in two archives.
pub open spec fn placeholders_of(
    p: Seq<thread::SegmentView>,
    q: Seq<thread::SegmentView>,
    k: int,
    a: message::MessageView,
    b: message::MessageView,
) -> bool {
    &&& 0 <= k < p.len()
    &&& k < q.len()
    &&& a == memory::said(memory::placeholder_text(p[k].id, p[k].summary))
    &&& b == memory::said(memory::placeholder_text(q[k].id, q[k].summary))
}

/// Whether messages are alike one by one.
pub open spec fn all_alike(
    p: Seq<thread::SegmentView>,
    q: Seq<thread::SegmentView>,
    a: Seq<message::MessageView>,
    b: Seq<message::MessageView>,
) -> bool {
    a.len() == b.len() && forall|i: int| 0 <= i < a.len() ==> alike(p, q, #[trigger] a[i], b[i])
}

/// Whether two segments stand for one range and one summary, and hold messages that are alike.
pub open spec fn segments_alike(
    p: Seq<thread::SegmentView>,
    q: Seq<thread::SegmentView>,
    a: thread::SegmentView,
    b: thread::SegmentView,
) -> bool {
    &&& a.start == b.start
    &&& a.end == b.end
    &&& a.summary == b.summary
    &&& a.message_count == b.message_count
    &&& all_alike(p, q, a.messages, b.messages)
}

/// Whether two threads hold messages that are alike, and archives that are.
pub open spec fn threads_alike(a: thread::ThreadView, b: thread::ThreadView) -> bool {
    &&& all_alike(a.segments, b.segments, a.messages, b.messages)
    &&& a.segments.len() == b.segments.len()
    &&& forall|i: int|
        0 <= i < a.segments.len() ==> segments_alike(
            a.segments,
            b.segments,
            #[trigger] a.segments[i],
            b.segments[i],
        )
}

/// Messages that are alike stay so when the archives grow.
proof fn alike_in_longer_archives(
    p: Seq<thread::SegmentView>,
    q: Seq<thread::SegmentView>,
    x: thread::SegmentView,
    y: thread::SegmentView,
    a: message::MessageView,
    b: message::MessageView,
)
    requires
        p.len() == q.len(),
        alike(p, q, a, b),
    ensures
        alike(p.push(x), q.push(y), a, b),
{
    if a != b {
        let k = choose|k: int| #[trigger] placeholders_of(p, q, k, a, b);
        assert(placeholders_of(p.push(x), q.push(y), k, a, b));
    }
}

/// A range can be archived in one of two threads that are alike where it can be in the other.
proof fn alike_threads_store_alike(
    a: thread::ThreadView,
    b: thread::ThreadView,
    start: usize,
    end: usize,
)
    requires
        threads_alike(a, b),
        memory::store_error(a, start, end) is None,
    ensures
        memory::store_error(b, start, end) is None,
{
    if memory::overlaps(b.segments, start as int, end as int) {
        let i = choose|i: int|
            0 <= i < b.segments.len() && !(end < (#[trigger] b.segments[i]).start || start
                > b.segments[i].end);
        assert(segments_alike(a.segments, b.segments, a.segments[i], b.segments[i]));
        assert(memory::overlaps(a.segments, start as int, end as int));
    }
}

/// Archiving one range under one summary keeps threads alike.
proof fn storing_keeps_alike(
    a: thread::ThreadView,
    b: thread::ThreadView,
    start: usize,
    end: usize,
    summary: Seq<char>,
    first: u128,
    later: u128,
)
    requires
        threads_alike(a, b),
        memory::store_error(a, start, end) is None,
        a.messages.len() <= usize::MAX,
    ensures
        threads_alike(
            memory::stored_as(a, start, end, summary, first),
            memory::stored_as(b, start, end, summary, later),
        ),
{
    let x = memory::stored_as(a, start, end, summary, first);
    let y = memory::stored_as(b, start, end, summary, later);
    let n = a.segments.len() as int;
    let s = x.segments[n];
    let t = y.segments[n];
    assert forall|i: int| 0 <= i < x.messages.len() implies alike(
        x.segments,
        y.segments,
        #[trigger] x.messages[i],
        y.messages[i],
    ) by {
        if i < start {
            assert(x.messages[i] == a.messages[i] && y.messages[i] == b.messages[i]);
            alike_in_longer_archives(a.segments, b.segments, s, t, a.messages[i], b.messages[i]);
        } else if i == start {
            assert(x.messages[i] == memory::said(memory::placeholder_text(a.next_id, summary)));
            assert(y.messages[i] == memory::said(memory::placeholder_text(b.next_id, summary)));
            assert(placeholders_of(x.segments, y.segments, n, x.messages[i], y.messages[i]));
        } else {
            let k = i + (end - start);
            assert(x.messages[i] == a.messages[k] && y.messages[i] == b.messages[k]);
            alike_in_longer_archives(a.segments, b.segments, s, t, a.messages[k], b.messages[k]);
        }
    }
    assert forall|i: int| 0 <= i < x.segments.len() implies segments_alike(
        x.segments,
        y.segments,
        #[trigger] x.segments[i],
        y.segments[i],
    ) by {
        let p = x.segments[i].messages;
        let q = y.segments[i].messages;
        if i < n {
            assert(x.segments[i] == a.segments[i] && y.segments[i] == b.segments[i]);
            assert(segments_alike(a.segments, b.segments, a.segments[i], b.segments[i]));
            assert forall|k: int| 0 <= k < p.len() implies alike(
                x.segments,
                y.segments,
                #[trigger] p[k],
                q[k],
            ) by {
                alike_in_longer_archives(a.segments, b.segments, s, t, p[k], q[k]);
            }
        } else {
            assert forall|k: int| 0 <= k < p.len() implies alike(
                x.segments,
                y.segments,
                #[trigger] p[k],
                q[k],
            ) by {
                assert(p[k] == a.messages[start + k] && q[k] == b.messages[start + k]);
                alike_in_longer_archives(
                    a.segments,
                    b.segments,
                    s,
                    t,
                    a.messages[start + k],
                    b.messages[start + k],
                );
            }
        }
    }
}

// ---------------------------------------------------------------------------
// A conversation that goes on
// ---------------------------------------------------------------------------

/// What happens to a thread: a range is archived, or messages are added.
pub ghost enum Step {
    Store(StoreRequest),
    Say(Seq<message::MessageView>),
}

/// The thread after some steps.
pub open spec fn happened(t: thread::ThreadView, steps: Seq<Step>) -> thread::ThreadView
    decreases steps.len(),
{
    if steps.len() == 0 {
        t
    } else {
        let before = happened(t, steps.drop_last());
        match steps.last() {
            Step::Store(r) => memory::stored(before, r.start, r.end, r.custom, r.now),
            Step::Say(more) => with_more(before, more),
        }
    }
}

/// The thread with messages added.
pub open spec fn with_more(
    t: thread::ThreadView,
    more: Seq<message::MessageView>,
) -> thread::ThreadView {
    thread::ThreadView { messages: t.messages + more, ..t }
}

/// Whether every range can be archived when its turn comes.
pub open spec fn can_happen(t: thread::ThreadView, steps: Seq<Step>) -> bool
    decreases steps.len(),
{
    steps.len() == 0 || {
        &&& can_happen(t, steps.drop_last())
        &&& match steps.last() {
            Step::Store(r) => memory::store_error(
                happened(t, steps.drop_last()),
                r.start,
                r.end,
            ) is None,
            Step::Say(_) => true,
        }
    }
}

/// The messages that are added in some steps.
pub open spec fn said_in(steps: Seq<Step>) -> Seq<message::MessageView>
    decreases steps.len(),
{
    if steps.len() == 0 {
        Seq::empty()
    } else {
        match steps.last() {
            Step::Store(_) => said_in(steps.drop_last()),
            Step::Say(more) => said_in(steps.drop_last()) + more,
        }
    }
}

/// Whether each segment, the last first, finds its placeholder at its start.
pub open spec fn is_folded(
    messages: Seq<message::MessageView>,
    segments: Seq<thread::SegmentView>,
) -> bool
    decreases segments.len(),
{
    segments.len() == 0 || {
        let s = segments.last();
        &&& s.messages.len() > 0
        &&& s.start < messages.len()
        &&& memory::is_placeholder(messages[s.start as int], s.id)
        &&& is_folded(
            memory::expanded(messages, s.start as int, s.messages),
            segments.drop_last(),
        )
    }
}

/// What comes behind a folded conversation stays behind it when it is unfolded.
proof fn folded_with_more(
    messages: Seq<message::MessageView>,
    segments: Seq<thread::SegmentView>,
    more: Seq<message::MessageView>,
)
    requires
        is_folded(messages, segments),
    ensures
        is_folded(messages + more, segments),
        archive::unfolded(messages + more, segments) == archive::unfolded(messages, segments)
            + more,
        archive::opened(messages + more, segments) == archive::opened(messages, segments),
    decreases segments.len(),
{
    if segments.len() > 0 {
        let s = segments.last();
        let start = s.start as int;
        assert((messages + more)[start] == messages[start]);
        assert(memory::expanded(messages + more, start, s.messages) =~= memory::expanded(
            messages,
            start,
            s.messages,
        ) + more);
        folded_with_more(
            memory::expanded(messages, start, s.messages),
            segments.drop_last(),
            more,
        );
    }
}

/// What a conversation with an archive unfolds to.
proof fn happened_is_folded(t: thread::ThreadView, steps: Seq<Step>)
    requires
        t.segments.len() == 0,
        can_happen(t, steps),
    ensures
        ({
            let u = happened(t, steps);
            &&& is_folded(u.messages, u.segments)
            &&& archive::unfolded(u.messages, u.segments) == t.messages + said_in(steps)
            &&& u.messages.len() <= t.messages.len() + said_in(steps).len()
        }),
    decreases steps.len(),
{
    if steps.len() == 0 {
        assert(t.messages + said_in(steps) =~= t.messages);
    } else {
        let before = happened(t, steps.drop_last());
        happened_is_folded(t, steps.drop_last());
        match steps.last() {
            Step::Store(r) => {
                stored_segment_is_reopened(before, r);
                store_replaces_the_range(before, r.start, r.end, r.custom, r.now);
            },
            Step::Say(more) => {
                folded_with_more(before.messages, before.segments, more);
                assert(t.messages + said_in(steps) =~= t.messages + said_in(steps.drop_last())
                    + more);
            },
        }
    }
}

/// Of a folded conversation every segment is opened, under its identifier.
proof fn folded_is_opened(
    messages: Seq<message::MessageView>,
    segments: Seq<thread::SegmentView>,
)
    requires
        is_folded(messages, segments),
    ensures
        archive::opened(messages, segments).len() == segments.len(),
        forall|i: int|
            0 <= i < segments.len() ==> (#[trigger] archive::opened(messages, segments)[i]).id
                == segments[i].id,
    decreases segments.len(),
{
    if segments.len() > 0 {
        let s = segments.last();
        let open = memory::expanded(messages, s.start as int, s.messages);
        folded_is_opened(open, segments.drop_last());
        let before = archive::opened(open, segments.drop_last());
        let ranges = archive::opened(messages, segments);
        assert forall|i: int| 0 <= i < segments.len() implies (#[trigger] ranges[i]).id
            == segments[i].id by {
            if i < before.len() {
                assert(ranges[i] == before[i]);
                assert(segments.drop_last()[i] == segments[i]);
            }
        }
    }
}

/// Whatever is archived and whatever is said, in whatever order, putting the whole archive back gives
/// all that was ever said, in order.
pub proof fn full_restore_gives_all_that_was_said(t: thread::ThreadView, steps: Seq<Step>)
    requires
        t.segments.len() == 0,
        can_happen(t, steps),
    ensures
        archive::fully_restored(happened(t, steps)).messages == t.messages + said_in(steps),
{
    happened_is_folded(t, steps);
    full_restore_unfolds(happened(t, steps));
}

proof fn no_others(segments: Seq<thread::SegmentView>, ranges: Seq<archive::RangeView>)
    requires
        forall|i: int|
            0 <= i < segments.len() ==> archive::is_named(ranges, (#[trigger] segments[i]).id),
    ensures
        archive::others(segments, ranges).len() == 0,
    decreases segments.len(),
{
    if segments.len() > 0 {
        let shorter = segments.drop_last();
        assert forall|i: int| 0 <= i < shorter.len() implies archive::is_named(
            ranges,
            (#[trigger] shorter[i]).id,
        ) by {
            assert(shorter[i] == segments[i]);
        }
        no_others(shorter, ranges);
        assert(archive::is_named(ranges, segments[segments.len() - 1].id));
    }
}

/// Archiving a range does not depend on what comes behind it.
proof fn storing_before_more(
    t: thread::ThreadView,
    more: Seq<message::MessageView>,
    start: usize,
    end: usize,
    summary: Seq<char>,
    now: u128,
)
    requires
        memory::store_error(t, start, end) is None,
    ensures
        memory::store_error(with_more(t, more), start, end) is None,
        memory::stored_as(with_more(t, more), start, end, summary, now).messages
            == memory::stored_as(t, start, end, summary, now).messages + more,
        memory::stored_as(with_more(t, more), start, end, summary, now).segments
            == memory::stored_as(t, start, end, summary, now).segments,
{
    let longer = with_more(t, more);
    assert(longer.messages.subrange(start as int, end + 1) =~= t.messages.subrange(
        start as int,
        end + 1,
    ));
    assert(memory::stored_as(longer, start, end, summary, now).messages =~= memory::stored_as(
        t,
        start,
        end,
        summary,
        now,
    ).messages + more);
}

/// A range that was archived can be archived again in a thread that is like the one it was archived in.
proof fn one_more_is_alike(
    before: thread::ThreadView,
    again: thread::ThreadView,
    r: StoreRequest,
    more: Seq<message::MessageView>,
    now: u128,
)
    requires
        threads_alike(with_more(before, more), again),
        memory::store_error(before, r.start, r.end) is None,
        before.messages.len() + more.len() <= usize::MAX,
    ensures
        ({
            let u = memory::stored(before, r.start, r.end, r.custom, r.now);
            let range = archive::range_at(u.segments.last(), r.start as int);
            &&& archive::can_rearchive(again, range)
            &&& threads_alike(
                with_more(u, more),
                memory::stored_as(
                    again,
                    range.start,
                    archive::range_end(range) as usize,
                    range.summary,
                    now,
                ),
            )
        }),
{
    let u = memory::stored(before, r.start, r.end, r.custom, r.now);
    let summary = u.segments.last().summary;
    let range = archive::range_at(u.segments.last(), r.start as int);
    assert(u.segments.last().messages.len() == r.end - r.start + 1);
    assert(archive::range_end(range) == r.end);
    let longer = with_more(before, more);
    storing_before_more(before, more, r.start, r.end, summary, r.now);
    alike_threads_store_alike(longer, again, r.start, r.end);
    storing_keeps_alike(longer, again, r.start, r.end, summary, r.now, now);
    let x = memory::stored_as(longer, r.start, r.end, summary, r.now);
    let v = with_more(u, more);
    assert(x.messages == v.messages);
    assert(x.segments == v.segments);
}

/// Archiving the opened ranges of a thread again gives a thread that is like it, whatever comes behind
/// its messages.
proof fn refolding_is_alike(
    t: thread::ThreadView,
    steps: Seq<Step>,
    open: thread::ThreadView,
    more: Seq<message::MessageView>,
    now: u128,
)
    requires
        t.segments.len() == 0,
        can_happen(t, steps),
        open.messages == t.messages + said_in(steps) + more,
        open.messages.len() <= usize::MAX,
        open.segments.len() == 0,
    ensures
        threads_alike(
            with_more(happened(t, steps), more),
            archive::refolded(open, archive::opened_ranges(happened(t, steps)), now),
        ),
    decreases steps.len(),
{
    if steps.len() == 0 {
        assert(open.messages =~= t.messages + more);
        same_is_alike(with_more(t, more), open);
    } else {
        happened_is_folded(t, steps.drop_last());
        match steps.last() {
            Step::Store(r) => {
                refolding_is_alike(t, steps.drop_last(), open, more, now);
                refolding_after_store(happened(t, steps.drop_last()), open, r, more, now);
            },
            Step::Say(said) => {
                all_in_a_row(t.messages, said_in(steps.drop_last()), said, more);
                refolding_is_alike(t, steps.drop_last(), open, said + more, now);
                refolding_after_saying(happened(t, steps.drop_last()), open, said, more, now);
            },
        }
    }
}

proof fn same_is_alike(a: thread::ThreadView, b: thread::ThreadView)
    requires
        a.messages == b.messages,
        a.segments.len() == 0,
        b.segments.len() == 0,
    ensures
        threads_alike(a, b),
{
}

proof fn all_in_a_row(
    a: Seq<message::MessageView>,
    b: Seq<message::MessageView>,
    c: Seq<message::MessageView>,
    d: Seq<message::MessageView>,
)
    ensures
        a + (b + c) + d == a + b + (c + d),
        a + c + d == a + (c + d),
{
    assert(a + (b + c) + d =~= a + b + (c + d));
    assert(a + c + d =~= a + (c + d));
}

proof fn refolding_after_saying(
    before: thread::ThreadView,
    open: thread::ThreadView,
    said: Seq<message::MessageView>,
    more: Seq<message::MessageView>,
    now: u128,
)
    requires
        is_folded(before.messages, before.segments),
        threads_alike(
            with_more(before, said + more),
            archive::refolded(open, archive::opened_ranges(before), now),
        ),
    ensures
        threads_alike(
            with_more(with_more(before, said), more),
            archive::refolded(open, archive::opened_ranges(with_more(before, said)), now),
        ),
{
    folded_with_more(before.messages, before.segments, said);
    all_in_a_row(before.messages, more, said, more);
    assert(with_more(with_more(before, said), more) == with_more(before, said + more));
}

proof fn refolding_after_store(
    before: thread::ThreadView,
    open: thread::ThreadView,
    r: StoreRequest,
    more: Seq<message::MessageView>,
    now: u128,
)
    requires
        memory::store_error(before, r.start, r.end) is None,
        before.messages.len() + more.len() <= usize::MAX,
        threads_alike(
            with_more(before, more),
            archive::refolded(open, archive::opened_ranges(before), now),
        ),
    ensures
        ({
            let u = memory::stored(before, r.start, r.end, r.custom, r.now);
            threads_alike(
                with_more(u, more),
                archive::refolded(open, archive::opened_ranges(u), now),
            )
        }),
{
    let u = memory::stored(before, r.start, r.end, r.custom, r.now);
    let ranges = archive::opened_ranges(u);
    stored_segment_is_reopened(before, r);
    assert(ranges.drop_last() =~= archive::opened_ranges(before));
    let again = archive::refolded(open, ranges.drop_last(), now);
    assert(ranges.last() == archive::range_at(u.segments.last(), r.start as int));
    one_more_is_alike(before, again, r, more, now);
}

/// Whatever is archived and whatever is said, in whatever order, putting the whole archive back and
/// archiving the segments again gives the same archive and the same conversation: each segment has its
/// range, its summary and its messages, and its placeholder, under a new identifier, stands where the
/// old one stood.
pub proof fn full_restore_then_rearchive(t: thread::ThreadView, steps: Seq<Step>, now: u128)
    requires
        t.segments.len() == 0,
        t.messages.len() + said_in(steps).len() <= usize::MAX,
        can_happen(t, steps),
    ensures
        ({
            let compact = happened(t, steps);
            threads_alike(
                compact,
                archive::rearchived(
                    archive::fully_restored(compact),
                    archive::opened_ranges(compact),
                    now,
                ),
            )
        }),
{
    let compact = happened(t, steps);
    let ranges = archive::opened_ranges(compact);
    let full = archive::fully_restored(compact);
    happened_is_folded(t, steps);
    folded_is_opened(compact.messages, compact.segments);
    full_restore_unfolds(compact);
    assert forall|i: int| 0 <= i < compact.segments.len() implies archive::is_named(
        ranges,
        (#[trigger] compact.segments[i]).id,
    ) by {
        assert(ranges[i].id == compact.segments[i].id);
    }
    no_others(compact.segments, ranges);
    let open = thread::ThreadView {
        segments: archive::others(compact.segments, ranges),
        ..full
    };
    let nothing = Seq::<message::MessageView>::empty();
    assert(open.messages =~= t.messages + said_in(steps) + nothing);
    refolding_is_alike(t, steps, open, nothing, now);
    assert(with_more(compact, nothing).messages =~= compact.messages);
}

/// Ranges that are archived one after another, as steps.
pub open spec fn as_steps(requests: Seq<StoreRequest>) -> Seq<Step> {
    Seq::new(requests.len(), |i: int| Step::Store(requests[i]))
}

proof fn storing_is_stepping(t: thread::ThreadView, requests: Seq<StoreRequest>)
    requires
        can_store(t, requests),
    ensures
        happened(t, as_steps(requests)) == stored_in_order(t, requests),
        can_happen(t, as_steps(requests)),
        said_in(as_steps(requests)).len() == 0,
    decreases requests.len(),
{
    if requests.len() > 0 {
        storing_is_stepping(t, requests.drop_last());
        assert(as_steps(requests).drop_last() =~= as_steps(requests.drop_last()));
        assert(as_steps(requests).last() == Step::Store(requests.last()));
    }
}

/// In whatever order ranges of a conversation are archived, putting the whole archive back and archiving
/// the segments again gives the same archived messages and summaries, and the same conversation.
pub proof fn archived_ranges_are_archived_again(
    t: thread::ThreadView,
    requests: Seq<StoreRequest>,
    now: u128,
)
    requires
        t.segments.len() == 0,
        t.messages.len() <= usize::MAX,
        can_store(t, requests),
    ensures
        ({
            let compact = stored_in_order(t, requests);
            threads_alike(
                compact,
                archive::rearchived(
                    archive::fully_restored(compact),
                    archive::opened_ranges(compact),
                    now,
                ),
            )
        }),
{
    storing_is_stepping(t, requests);
    full_restore_then_rearchive(t, as_steps(requests), now);
}

/// A message that is no placeholder of an archive is like itself alone: what is archived again that held
/// none is what was archived.
pub proof fn alike_without_placeholders(
    p: Seq<thread::SegmentView>,
    q: Seq<thread::SegmentView>,
    a: Seq<message::MessageView>,
    b: Seq<message::MessageView>,
)
    requires
        all_alike(p, q, a, b),
        forall|i: int, k: int|
            0 <= i < a.len() && 0 <= k < p.len() ==> !(#[trigger] memory::is_placeholder(
                a[i],
                p[k].id,
            )),
    ensures
        a == b,
{
    assert forall|i: int| 0 <= i < a.len() implies a[i] == b[i] by {
        assert(alike(p, q, a[i], b[i]));
        if a[i] != b[i] {
            let k = choose|k: int| #[trigger] placeholders_of(p, q, k, a[i], b[i]);
            memory::placeholder_is_recognised(p[k].id, p[k].summary);
            assert(memory::is_placeholder(a[i], p[k].id));
        }
    }
    assert(a =~= b);
}

} // verus!
