//! What holds of turns as a whole.

use vstd::prelude::*;

use crate::message;
use crate::request;
use crate::thread;
use crate::turn;

verus! {

/// Whether every call among the pieces has a result.
pub open spec fn all_answered(
    content: Seq<message::AgentContentView>,
    results: Seq<message::ToolResultView>,
) -> bool {
    forall|i: int|
        0 <= i < content.len() && (#[trigger] content[i]) is ToolUse ==> request::has_result(
            results,
            content[i]->ToolUse_0.id,
        )
}

/// A message that is done has a result for every call in it, and keeps the results that it had.
pub proof fn done_messages_are_answered(
    content: Seq<message::AgentContentView>,
    results: Seq<message::ToolResultView>,
)
    ensures
        all_answered(content, turn::completed_results(content, results)),
        results.is_prefix_of(turn::completed_results(content, results)),
    decreases content.len(),
{
    if content.len() > 0 {
        let less = content.drop_last();
        let before = turn::completed_results(less, results);
        let now = turn::completed_results(content, results);
        done_messages_are_answered(less, results);
        assert(before.is_prefix_of(now));
        assert forall|i: int|
            0 <= i < content.len() && (#[trigger] content[i]) is ToolUse implies request::has_result(
            now,
            content[i]->ToolUse_0.id,
        ) by {
            let id = content[i]->ToolUse_0.id;
            if i < less.len() {
                assert(less[i] == content[i]);
                assert(request::has_result(before, id));
            }
            if request::has_result(before, id) {
                let k = choose|k: int|
                    0 <= k < before.len() && (#[trigger] before[k]).tool_use_id == id;
                assert(now[k] == before[k]);
            } else {
                assert(now.last() == turn::cancelled_result(content[i]->ToolUse_0));
                assert(now[now.len() - 1].tool_use_id == id);
            }
        }
    }
}

/// When a turn is cancelled, no call is left without a result: the message that was being written
/// is kept, with every call in it answered.
pub proof fn cancelling_answers_every_call(t: thread::ThreadView, now: i64)
    ensures
        turn::cancelled(t, now).pending is None,
        !turn::cancelled(t, now).running_turn,
        turn::pending_content(t).len() > 0 ==> {
            let m = turn::cancelled(t, now).messages.last();
            &&& m is Agent
            &&& m->Agent_content == turn::pending_content(t)
            &&& all_answered(m->Agent_content, m->tool_results)
        },
{
    done_messages_are_answered(turn::pending_content(t), turn::pending_results(t));
}

/// To end the message that is being written twice is to end it once: the first time stays.
pub proof fn flushing_twice_is_flushing_once(t: thread::ThreadView, now: i64, later: i64)
    ensures
        turn::flushed(turn::flushed(t, now), later) == turn::flushed(t, now),
{
}

/// The time of a thread changes only when a message is added.
pub proof fn time_changes_with_the_messages(
    t: thread::ThreadView,
    event: turn::EventView,
    now: i64,
)
    ensures
        turn::flushed(t, now).messages == t.messages ==> turn::flushed(t, now).updated_at_ms
            == t.updated_at_ms,
        turn::after_event(t, event, now).messages == t.messages ==> turn::after_event(
            t,
            event,
            now,
        ).updated_at_ms == t.updated_at_ms,
{
    if turn::pending_content(t).len() > 0 {
        assert(turn::flushed(t, now).messages.len() == t.messages.len() + 1);
    }
}

/// No event changes a message that is done: they stay, in their places.
pub proof fn done_messages_stay(t: thread::ThreadView, event: turn::EventView, now: i64)
    ensures
        t.messages.is_prefix_of(turn::after_event(t, event, now).messages),
        t.messages.is_prefix_of(turn::cancelled(t, now).messages),
{
}

/// No event touches the memory of the thread.
pub proof fn events_leave_the_memory(t: thread::ThreadView, event: turn::EventView, now: i64)
    ensures
        turn::after_event(t, event, now).segments == t.segments,
        turn::after_event(t, event, now).next_id == t.next_id,
{
}

/// A text that comes in two parts is the text that comes at once.
pub proof fn texts_run_together(t: thread::ThreadView, a: Seq<char>, b: Seq<char>, now: i64)
    ensures
        turn::after_event(
            turn::after_event(t, turn::EventView::Text(a), now),
            turn::EventView::Text(b),
            now,
        ) == turn::after_event(t, turn::EventView::Text(a + b), now),
{
    let content = turn::pending_content(t);
    let one = turn::with_text(content, a);
    let two = turn::with_text(one, b);
    let whole = turn::with_text(content, a + b);
    if content.len() > 0 && content.last() is Text {
        let had = content.last()->Text_0;
        assert(one.last() == message::AgentContentView::Text(had + a));
        assert((had + a) + b =~= had + (a + b));
        assert(two =~= whole);
    } else {
        assert(one.last() == message::AgentContentView::Text(a));
        assert(two =~= whole);
    }
}

/// A thought that comes in two parts is the thought that comes at once, with the last signature.
pub proof fn thoughts_run_together(
    t: thread::ThreadView,
    a: Seq<char>,
    b: Seq<char>,
    first: Option<Seq<char>>,
    second: Option<Seq<char>>,
    now: i64,
)
    ensures
        turn::after_event(
            turn::after_event(t, turn::EventView::Thinking { text: a, signature: first }, now),
            turn::EventView::Thinking { text: b, signature: second },
            now,
        ) == turn::after_event(
            t,
            turn::EventView::Thinking {
                text: a + b,
                signature: if second is Some {
                    second
                } else {
                    first
                },
            },
            now,
        ),
{
    let content = turn::pending_content(t);
    let last = if second is Some {
        second
    } else {
        first
    };
    let one = turn::with_thinking(content, a, first);
    let two = turn::with_thinking(one, b, second);
    let whole = turn::with_thinking(content, a + b, last);
    if content.len() > 0 && content.last() is Thinking {
        let had = content.last()->Thinking_text;
        assert((had + a) + b =~= had + (a + b));
        assert(two =~= whole);
    } else {
        assert(two =~= whole);
    }
}

/// A call whose input comes in parts is one call: the last part is what counts.
pub proof fn calls_are_filled_in(
    t: thread::ThreadView,
    part: message::ToolUseView,
    whole: message::ToolUseView,
    now: i64,
)
    requires
        part.id == whole.id,
    ensures
        turn::after_event(
            turn::after_event(t, turn::EventView::ToolUse(part), now),
            turn::EventView::ToolUse(whole),
            now,
        ) == turn::after_event(t, turn::EventView::ToolUse(whole), now),
{
    let content = turn::pending_content(t);
    let one = turn::with_call(content, part);
    let two = turn::with_call(one, whole);
    assert(two =~= turn::with_call(content, whole));
}

/// A result that was put in is found under its call, and those of other calls stay as they are.
pub proof fn results_are_found(
    results: Seq<message::ToolResultView>,
    result: message::ToolResultView,
    other: Seq<char>,
)
    ensures
        turn::result_index(turn::with_result(results, result), result.tool_use_id) matches Some(i)
            && turn::with_result(results, result)[i] == result,
        other != result.tool_use_id ==> match turn::result_index(results, other) {
            Some(i) => turn::result_index(turn::with_result(results, result), other) == Some(i)
                && turn::with_result(results, result)[i] == results[i],
            None => turn::result_index(turn::with_result(results, result), other) is None,
        },
{
    let now = turn::with_result(results, result);
    index_is_first(results, result.tool_use_id);
    index_is_first(results, other);
    index_is_first(now, result.tool_use_id);
    index_is_first(now, other);
    let at = match turn::result_index(results, result.tool_use_id) {
        Some(i) => i,
        None => results.len() as int,
    };
    assert(now[at] == result);
    assert forall|j: int| 0 <= j < results.len() && j != at implies (#[trigger] now[j])
        == results[j] by {}
    let found = turn::result_index(now, result.tool_use_id)->0;
    if found < at {
        assert(now[found] == results[found]);
    }
    if other != result.tool_use_id {
        match (turn::result_index(results, other), turn::result_index(now, other)) {
            (Some(i), Some(k)) => {
                assert(now[i] == results[i]);
                assert(now[k] == results[k]);
            },
            (Some(i), None) => {
                assert(now[i] == results[i]);
            },
            (None, Some(k)) => {
                assert(now[k] == results[k]);
            },
            (None, None) => {},
        }
    }
}

/// The position of a result is that of the first result of its call.
proof fn index_is_first(results: Seq<message::ToolResultView>, id: Seq<char>)
    ensures
        match turn::result_index(results, id) {
            Some(i) => 0 <= i < results.len() && results[i].tool_use_id == id && forall|j: int|
                0 <= j < i ==> (#[trigger] results[j]).tool_use_id != id,
            None => forall|j: int|
                0 <= j < results.len() ==> (#[trigger] results[j]).tool_use_id != id,
        },
    decreases results.len(),
{
    if results.len() > 0 {
        let less = results.drop_last();
        index_is_first(less, id);
        assert forall|j: int| 0 <= j < less.len() implies (#[trigger] results[j]) == less[j] by {}
    }
}

/// What is left when a thread is cut off at a user message is what came before the message, and the
/// message is not in it.
pub proof fn cutting_off_leaves_the_start(messages: Seq<message::MessageView>, id: Seq<char>)
    ensures
        thread::user_position(messages, id) matches Some(position) ==> {
            &&& 0 <= position < messages.len()
            &&& messages[position] matches message::MessageView::User { id: found, .. } && found
                == id
            &&& thread::user_position(messages.take(position), id) is None
        },
    decreases messages.len(),
{
    if messages.len() > 0 {
        let less = messages.drop_last();
        cutting_off_leaves_the_start(less, id);
        if let Some(position) = thread::user_position(less, id) {
            assert(less.take(position) =~= messages.take(position));
        } else if thread::user_position(messages, id) is Some {
            assert(messages.take(messages.len() - 1) =~= less);
        }
    }
}

} // verus!
