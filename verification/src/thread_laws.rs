//! What holds of a thread while a model answers, and of what is kept of its tokens.

use vstd::prelude::*;

use crate::completion;
use crate::json;
use crate::markdown;
use crate::message;
use crate::request_laws;
use crate::thread;
use crate::thread::{CompletionMode, ModelUsage, TokenUsage};
use crate::tools::ToolKind;
use crate::turn;

verus! {

// ---------------------------------------------------------------------------
// Events
// ---------------------------------------------------------------------------

/// Whether the message that is being written became one with other pieces, and nothing else of the
/// thread changed.
pub open spec fn wrote(
    t: thread::ThreadView,
    after: thread::ThreadView,
    content: Seq<message::AgentContentView>,
) -> bool {
    after == thread::ThreadView {
        pending: Some(
            message::MessageView::Agent {
                content,
                tool_results: match t.pending {
                    Some(message::MessageView::Agent { content: _, tool_results }) => tool_results,
                    _ => Seq::empty(),
                },
            },
        ),
        ..t
    }
}

/// What the agent has written of the message that is being written.
pub open spec fn written(t: thread::ThreadView) -> Seq<message::AgentContentView> {
    match t.pending {
        Some(message::MessageView::Agent { content, tool_results }) => content,
        _ => Seq::empty(),
    }
}

/// A text that a model writes is kept behind what it wrote before: it goes on with the last piece, where
/// that is a text, and else is a new piece. All else stays.
pub proof fn texts_are_kept(t: thread::ThreadView, new_text: Seq<char>, now: i64)
    ensures
        ({
            let after = turn::after_event(t, turn::EventView::Text(new_text), now);
            let before = written(t);
            if before.len() > 0 && before.last() is Text {
                wrote(
                    t,
                    after,
                    before.drop_last().push(
                        message::AgentContentView::Text(before.last()->Text_0 + new_text),
                    ),
                )
            } else {
                wrote(t, after, before.push(message::AgentContentView::Text(new_text)))
            }
        }),
{
    let before = written(t);
    if before.len() > 0 && before.last() is Text {
        let last = message::AgentContentView::Text(before.last()->Text_0 + new_text);
        assert(before.update(before.len() - 1, last) =~= before.drop_last().push(last));
    }
}

/// A thought that a model writes is kept behind what it wrote before: it goes on with the last piece,
/// where that is a thought, with the last signature that came, and else is a new piece.
pub proof fn thoughts_are_kept(
    t: thread::ThreadView,
    text: Seq<char>,
    signature: Option<Seq<char>>,
    now: i64,
)
    ensures
        ({
            let after = turn::after_event(t, turn::EventView::Thinking { text, signature }, now);
            let before = written(t);
            if before.len() > 0 && before.last() is Thinking {
                wrote(
                    t,
                    after,
                    before.drop_last().push(
                        message::AgentContentView::Thinking {
                            text: before.last()->Thinking_text + text,
                            signature: if signature is Some {
                                signature
                            } else {
                                before.last()->Thinking_signature
                            },
                        },
                    ),
                )
            } else {
                wrote(
                    t,
                    after,
                    before.push(message::AgentContentView::Thinking { text, signature }),
                )
            }
        }),
{
    let before = written(t);
    if before.len() > 0 && before.last() is Thinking {
        let last = message::AgentContentView::Thinking {
            text: before.last()->Thinking_text + text,
            signature: if signature is Some {
                signature
            } else {
                before.last()->Thinking_signature
            },
        };
        assert(before.update(before.len() - 1, last) =~= before.drop_last().push(last));
    }
}

/// A redacted thought is a piece of its own.
pub proof fn redacted_thoughts_are_kept(t: thread::ThreadView, data: Seq<char>, now: i64)
    ensures
        wrote(
            t,
            turn::after_event(t, turn::EventView::RedactedThinking { data }, now),
            written(t).push(message::AgentContentView::RedactedThinking(data)),
        ),
{
}

/// A call is kept as it came: in the place of the last piece, where that is the same call, and else
/// behind it.
pub proof fn calls_are_kept(t: thread::ThreadView, call: message::ToolUseView, now: i64)
    ensures
        ({
            let after = turn::after_event(t, turn::EventView::ToolUse(call), now);
            let before = written(t);
            if before.len() > 0 && before.last() is ToolUse && before.last()->ToolUse_0.id
                == call.id {
                wrote(
                    t,
                    after,
                    before.drop_last().push(message::AgentContentView::ToolUse(call)),
                )
            } else {
                wrote(t, after, before.push(message::AgentContentView::ToolUse(call)))
            }
        }),
{
    let before = written(t);
    if before.len() > 0 {
        let last = message::AgentContentView::ToolUse(call);
        assert(before.update(before.len() - 1, last) =~= before.drop_last().push(last));
    }
}

/// A new message begins empty. What was written before it is among the messages, with its pieces as they
/// were and with its results; where nothing was written, no message is added.
pub proof fn a_new_message_begins_empty(t: thread::ThreadView, now: i64)
    ensures
        ({
            let after = turn::after_event(t, turn::EventView::StartMessage, now);
            &&& after.pending == Some(
                message::MessageView::Agent { content: Seq::empty(), tool_results: Seq::empty() },
            )
            &&& written(t).len() == 0 ==> after.messages == t.messages
            &&& written(t).len() > 0 ==> after.messages.len() == t.messages.len() + 1
                && after.messages.drop_last() == t.messages && (after.messages.last() matches
                message::MessageView::Agent { content, tool_results } && content == written(t)
                && tool_results.len() >= turn::pending_results(t).len() && tool_results.take(
                turn::pending_results(t).len() as int,
            ) == turn::pending_results(t))
        }),
{
    let after = turn::after_event(t, turn::EventView::StartMessage, now);
    if written(t).len() > 0 {
        assert(after.messages.drop_last() =~= t.messages);
        cancelled_calls_are_told(written(t), turn::pending_results(t));
        let done = turn::completed_results(written(t), turn::pending_results(t));
        assert(done.take(turn::pending_results(t).len() as int) =~= turn::pending_results(t));
    }
}

/// Whether a result says that its call was cancelled.
pub open spec fn says_cancelled(
    r: message::ToolResultView,
    content: Seq<message::AgentContentView>,
    results: Seq<message::ToolResultView>,
) -> bool {
    &&& r.is_error
    &&& r.content == message::ResultContentView::Text("Tool canceled by user"@)
    &&& r.output is None
    &&& exists|i: int|
        0 <= i < content.len() && (#[trigger] content[i] matches message::AgentContentView::ToolUse(
            call,
        ) && call.id == r.tool_use_id && call.name == r.tool_name)
    &&& forall|k: int| 0 <= k < results.len() ==> (#[trigger] results[k]).tool_use_id != r.tool_use_id
}

/// When a message is done, the results that came for it stay first, as they are. Behind them stands,
/// for a call without a result, and for no other, one that says that it was cancelled.
pub proof fn cancelled_calls_are_told(
    content: Seq<message::AgentContentView>,
    results: Seq<message::ToolResultView>,
)
    ensures
        ({
            let done = turn::completed_results(content, results);
            &&& done.len() >= results.len()
            &&& forall|i: int| 0 <= i < results.len() ==> #[trigger] done[i] == results[i]
            &&& forall|i: int|
                results.len() <= i < done.len() ==> says_cancelled(
                    #[trigger] done[i],
                    content,
                    results,
                )
            &&& forall|i: int, j: int|
                results.len() <= i < j < done.len() ==> (#[trigger] done[i]).tool_use_id != (
                #[trigger] done[j]).tool_use_id
        }),
    decreases content.len(),
{
    if content.len() > 0 {
        let less = content.drop_last();
        cancelled_calls_are_told(less, results);
        let before = turn::completed_results(less, results);
        let done = turn::completed_results(content, results);
        assert forall|i: int| results.len() <= i < before.len() implies says_cancelled(
            #[trigger] before[i],
            content,
            results,
        ) by {
            let r = before[i];
            let k = choose|k: int|
                0 <= k < less.len() && (#[trigger] less[k] matches message::AgentContentView::ToolUse(
                    call,
                ) && call.id == r.tool_use_id && call.name == r.tool_name);
            assert(content[k] == less[k]);
        }
        if let message::AgentContentView::ToolUse(call) = content.last() {
            if done.len() > before.len() {
                let r = done.last();
                assert(content[content.len() - 1] == message::AgentContentView::ToolUse(call));
                assert forall|k: int| 0 <= k < before.len() implies (#[trigger] before[k]).tool_use_id
                    != call.id by {
                }
                assert forall|k: int| 0 <= k < results.len() implies (
                #[trigger] results[k]).tool_use_id != r.tool_use_id by {
                    assert(before[k] == results[k]);
                }
                assert(says_cancelled(r, content, results));
            }
        }
    }
}

/// What is to be shown or done for an event: a text and a thought are shown as they came; a call waits
/// until its input is there, is answered with an error where there is no such tool, and is run else; an
/// input that could not be read is answered with an error.
pub proof fn events_are_followed(t: thread::ThreadView, event: turn::EventView)
    ensures
        ({
            let outcome = turn::outcome_of(t, event);
            match event {
                turn::EventView::Text(new_text) => outcome == turn::OutcomeView::ShowText(new_text),
                turn::EventView::Thinking { text, signature } => outcome
                    == turn::OutcomeView::ShowThinking(text),
                turn::EventView::ToolUse(call) => outcome matches turn::OutcomeView::ToolCall {
                    is_new,
                    step,
                } && (is_new == !(written(t).len() > 0 && written(t).last() is ToolUse && written(
                    t,
                ).last()->ToolUse_0.id == call.id)) && (step is Wait <==> !call.is_input_complete)
                    && (step is Run <==> call.is_input_complete && t.tools.contains(call.name)) && (
                step matches turn::StepView::Answer(r) ==> r.tool_use_id == call.id && r.tool_name
                    == call.name && r.is_error && r.output is None && r.content
                    == message::ResultContentView::Text(
                    "No tool named "@ + call.name + " exists"@,
                )),
                turn::EventView::ToolUseJsonParseError {
                    id,
                    tool_name,
                    raw_input,
                    json_parse_error,
                } => outcome matches turn::OutcomeView::ToolResult(r) && r.tool_use_id == id
                    && r.tool_name == tool_name && r.is_error && r.content
                    == message::ResultContentView::Text(
                    "Error parsing input JSON: "@ + json_parse_error,
                ) && r.output == Some(json::JsonView::Text(raw_input)),
                turn::EventView::RequestUsageUpdated { amount } => outcome
                    == turn::OutcomeView::RequestUsage { amount },
                turn::EventView::UsageUpdate { tokens } => outcome is TokenUsage,
                _ => outcome is Nothing,
            }
        }),
{
}

/// A turn ends with an error exactly where the model refused to answer or ran out of tokens.
pub proof fn only_two_stops_are_errors(event: turn::EventView)
    ensures
        turn::event_error(event) == Some(turn::CompletionError::Refusal) <==> event
            == turn::EventView::Stop(turn::StopReason::Refusal),
        turn::event_error(event) == Some(turn::CompletionError::MaxTokens) <==> event
            == turn::EventView::Stop(turn::StopReason::MaxTokens),
{
}

/// An event that says nothing of the message or of tokens changes nothing.
pub proof fn other_events_change_nothing(t: thread::ThreadView, event: turn::EventView, now: i64)
    requires
        event is ToolUseJsonParseError || event is RequestUsageUpdated || event is StatusUpdate
            || event is Stop,
    ensures
        turn::after_event(t, event, now) == t,
{
}

/// When no more tools may be used, that is kept, and nothing else changes.
pub proof fn the_limit_is_kept(t: thread::ThreadView, now: i64)
    ensures
        turn::after_event(t, turn::EventView::ToolUseLimitReached, now) == (thread::ThreadView {
            tool_use_limit_reached: true,
            ..t
        }),
{
}

/// A call is shown as its tool presents it; one of a tool that is not there has its name for a title,
/// and no special kind. Its identifier and its input are shown as they are.
pub proof fn calls_are_shown_as_they_are(
    tools: Seq<Seq<char>>,
    call: message::ToolUseView,
    look: Option<turn::ToolLook>,
)
    ensures
        ({
            let shown = turn::call_shown(tools, call, look);
            &&& shown.id == call.id
            &&& shown.input == call.input
            &&& tools.contains(call.name) && look is Some ==> shown.title == look->0.title@
                && shown.kind == look->0.kind
            &&& !tools.contains(call.name) || look is None ==> shown.title == call.name && shown.kind
                == ToolKind::Other
        }),
{
}

/// A turn begins with nothing being written, without a summary, and with tools to use; nothing that was
/// said is lost.
pub proof fn a_turn_begins_afresh(t: thread::ThreadView, now: i64)
    ensures
        ({
            let begun = turn::begun(t, now);
            &&& begun.running_turn
            &&& !begun.tool_use_limit_reached
            &&& begun.summary is None
            &&& begun.pending is None
            &&& begun.segments == t.segments
            &&& begun.title == t.title
            &&& begun.messages.take(t.messages.len() as int) == t.messages
            &&& written(t).len() == 0 ==> begun.messages == t.messages
            &&& written(t).len() > 0 ==> begun.messages.len() == t.messages.len() + 1 && (
            begun.messages.last() matches message::MessageView::Agent { content, tool_results }
                && content == written(t))
        }),
{
    assert(turn::begun(t, now).messages.take(t.messages.len() as int) =~= t.messages);
}

/// Where a model refuses to answer, the last message is taken back, which is what it was asked.
pub proof fn a_refused_question_is_taken_back(t: thread::ThreadView, now: i64)
    ensures
        ({
            let messages = turn::begun(t, now).messages;
            let at = turn::refusal_position(t) as int;
            &&& messages.len() > 0 ==> messages.take(at) == messages.drop_last()
            &&& messages.len() == 0 ==> at == 0
        }),
{
    let messages = turn::begun(t, now).messages;
    assert(messages.len() == turn::cancelled(t, t.updated_at_ms).messages.len());
    if messages.len() > 0 {
        assert(messages.take(turn::refusal_position(t) as int) =~= messages.drop_last());
    }
}

// ---------------------------------------------------------------------------
// Tokens
// ---------------------------------------------------------------------------

/// The last user message is the one behind which no user message comes.
pub proof fn the_last_user_message_is_found(messages: Seq<message::MessageView>)
    ensures
        match thread::last_user_id(messages) {
            Some(id) => exists|i: int|
                {
                    &&& 0 <= i < messages.len()
                    &&& (#[trigger] messages[i]) matches message::MessageView::User {
                        id: found,
                        content,
                    } && found == id
                    &&& forall|k: int| i < k < messages.len() ==> !((#[trigger] messages[k]) is User)
                },
            None => forall|k: int| 0 <= k < messages.len() ==> !((#[trigger] messages[k]) is User),
        },
    decreases messages.len(),
{
    if messages.len() > 0 {
        let less = messages.drop_last();
        if messages.last() is User {
            assert(messages[messages.len() - 1] is User);
        } else {
            the_last_user_message_is_found(less);
            assert forall|k: int| 0 <= k < less.len() implies less[k] == #[trigger] messages[k] by {
            }
            if let Some(id) = thread::last_user_id(less) {
                let i = choose|i: int|
                    {
                        &&& 0 <= i < less.len()
                        &&& (#[trigger] less[i]) matches message::MessageView::User {
                            id: found,
                            content,
                        } && found == id
                        &&& forall|k: int| i < k < less.len() ==> !((#[trigger] less[k]) is User)
                    };
                assert(messages[i] == less[i]);
                assert forall|k: int| i < k < messages.len() implies !((
                #[trigger] messages[k]) is User) by {
                    if k < less.len() {
                        assert(!(less[k] is User));
                    }
                }
            }
        }
    }
}

/// The entry for a user message is the first one under its identifier.
pub proof fn usage_is_found_first(usage: Seq<(Seq<char>, ModelUsage)>, id: Seq<char>)
    ensures
        match thread::usage_index(usage, id) {
            Some(i) => 0 <= i < usage.len() && usage[i].0 == id && forall|k: int|
                0 <= k < i ==> (#[trigger] usage[k]).0 != id,
            None => forall|k: int| 0 <= k < usage.len() ==> (#[trigger] usage[k]).0 != id,
        },
    decreases usage.len(),
{
    if usage.len() > 0 {
        let less = usage.drop_last();
        usage_is_found_first(less, id);
        assert forall|k: int| 0 <= k < less.len() implies less[k] == #[trigger] usage[k] by {
        }
    }
}

/// Tokens that are kept for a user message are what is known of it from then on, and what is known of
/// the others stays.
pub proof fn kept_tokens_are_found(
    usage: Seq<(Seq<char>, ModelUsage)>,
    id: Seq<char>,
    tokens: ModelUsage,
    other: Seq<char>,
)
    ensures
        thread::usage_of(thread::usage_with(usage, id, tokens), id) == Some(tokens),
        other != id ==> thread::usage_of(thread::usage_with(usage, id, tokens), other)
            == thread::usage_of(usage, other),
{
    let now = thread::usage_with(usage, id, tokens);
    usage_is_found_first(usage, id);
    usage_is_found_first(now, id);
    usage_is_found_first(usage, other);
    usage_is_found_first(now, other);
    match thread::usage_index(usage, id) {
        Some(i) => {
            assert(now[i] == (id, tokens));
            assert forall|k: int| 0 <= k < usage.len() && k != i implies #[trigger] now[k]
                == usage[k] by {
            }
            let found = thread::usage_index(now, id);
            assert(found is Some) by {
                if found is None {
                    assert(now[i].0 != id);
                }
            }
            let f = found->0;
            assert(f == i) by {
                if f < i {
                    assert(usage[f].0 != id);
                }
                if i < f {
                    assert(now[i].0 != id);
                }
            }
        },
        None => {
            assert(now[usage.len() as int] == (id, tokens));
            assert forall|k: int| 0 <= k < usage.len() implies #[trigger] now[k] == usage[k] by {
            }
            let found = thread::usage_index(now, id);
            assert(found is Some) by {
                if found is None {
                    assert(now[usage.len() as int].0 != id);
                }
            }
            let f = found->0;
            assert(f == usage.len()) by {
                if f < usage.len() {
                    assert(usage[f].0 != id);
                }
            }
        },
    }
    if other != id {
        let a = thread::usage_index(usage, other);
        let b = thread::usage_index(now, other);
        match a {
            Some(i) => {
                assert(now[i] == usage[i]);
                assert(b is Some) by {
                    if b is None {
                        assert(now[i].0 != other);
                    }
                }
                let j = b->0;
                assert(i == j) by {
                    if j < i {
                        assert(now[j].0 == other);
                        assert(usage[j].0 != other);
                    }
                    if i < j {
                        assert(now[i].0 != other);
                    }
                }
            },
            None => {
                if b is Some {
                    let j = b->0;
                    assert(now[j].0 == other);
                    assert(j < usage.len());
                    assert(usage[j].0 != other);
                }
            },
        }
    }
}

/// What a model reports of tokens is kept for the last user message, and the usage that is told is then
/// the sum of these tokens, out of as many as the model takes in the mode of the thread.
pub proof fn reported_tokens_are_told(
    t: thread::ThreadView,
    id: Seq<char>,
    tokens: ModelUsage,
    now: i64,
)
    requires
        thread::last_user_id(t.messages) == Some(id),
        t.model is Some,
        tokens.input_tokens + tokens.output_tokens + tokens.cache_creation_input_tokens
            + tokens.cache_read_input_tokens <= u64::MAX,
    ensures
        ({
            let after = turn::after_event(t, turn::EventView::UsageUpdate { tokens }, now);
            &&& after.messages == t.messages
            &&& thread::latest_usage(after) == Some(
                TokenUsage {
                    max_tokens: if t.mode == CompletionMode::Burn {
                        t.model->0.max_tokens_in_burn_mode
                    } else {
                        t.model->0.max_tokens
                    },
                    used_tokens: (tokens.input_tokens + tokens.output_tokens
                        + tokens.cache_creation_input_tokens + tokens.cache_read_input_tokens) as u64,
                },
            )
        }),
{
    kept_tokens_are_found(t.usage, id, tokens, id);
}

/// What is left of the usage when messages are dropped: the entries of the other user messages, in
/// order.
pub proof fn usage_of_dropped_messages_goes(
    usage: Seq<(Seq<char>, ModelUsage)>,
    dropped: Seq<message::MessageView>,
)
    ensures
        thread::usage_without(usage, dropped) == usage.filter(
            |u: (Seq<char>, ModelUsage)|
                !(exists|i: int|
                    0 <= i < dropped.len() && (#[trigger] dropped[i] matches
                        message::MessageView::User { id: other, content } && other == u.0)),
        ),
    decreases usage.len(),
{
    reveal(Seq::filter);
    if usage.len() > 0 {
        usage_of_dropped_messages_goes(usage.drop_last(), dropped);
    }
    assert(thread::usage_without(usage, dropped) =~= usage.filter(
        |u: (Seq<char>, ModelUsage)|
            !(exists|i: int|
                0 <= i < dropped.len() && (#[trigger] dropped[i] matches message::MessageView::User {
                    id: other,
                    content,
                } && other == u.0)),
    ));
}

// ---------------------------------------------------------------------------
// What a thread is made of
// ---------------------------------------------------------------------------

/// A prompt may hold images unless there is a model that takes none; it may hold no sound, and what is
/// mentioned.
pub proof fn images_are_for_models_that_take_them(model: Option<thread::ModelInfo>)
    ensures
        thread::capabilities(model).image <==> (model is None || model->0.supports_images),
        !thread::capabilities(model).audio,
        thread::capabilities(model).embedded_context,
{
}

/// A thread that is loaded has the model that it names, where that was found, and else the default one.
pub proof fn loaded_threads_have_a_model(
    id: Seq<char>,
    prompt_id: Seq<char>,
    db: thread::DbView,
    found: Option<thread::Model>,
    default_model: Option<thread::Model>,
    default_profile: Seq<char>,
)
    ensures
        ({
            let t = thread::loaded(
                id,
                prompt_id,
                db,
                thread::chosen_model(db.model, found, default_model),
                default_profile,
            );
            &&& db.model is Some && found is Some ==> t.model == Some(found->0.info)
            &&& (db.model is None || found is None) && default_model is Some ==> t.model == Some(
                default_model->0.info,
            )
            &&& (db.model is None || found is None) && default_model is None ==> t.model is None
            &&& t.id == id
            &&& t.messages == db.messages
            &&& t.summary == db.summary
            &&& t.usage == db.usage
            &&& t.cumulative_usage == db.cumulative_usage
            &&& t.snapshot == db.snapshot
            &&& t.updated_at_ms == db.updated_at_ms
            &&& db.title.len() > 0 ==> t.title == Some(db.title)
            &&& db.title.len() == 0 ==> t.title is None
            &&& db.profile is Some ==> t.profile == db.profile->0
            &&& db.profile is None ==> t.profile == default_profile
            &&& db.mode is Some ==> t.mode == db.mode->0
            &&& db.mode is None ==> t.mode == CompletionMode::Normal
            &&& t.pending is None && !t.running_turn && t.segments.len() == 0
        }),
{
}

/// What a client sends is what the user said: a text and what a resource holds are kept as they are, a
/// link that is no mention keeps its name and its address, and an image keeps its bytes.
pub proof fn what_a_client_sends_is_kept(block: completion::ContentBlock)
    ensures
        ({
            let c = completion::block_content(block);
            match block {
                completion::ContentBlock::Text(t) => c == message::UserContentView::Text(t@),
                completion::ContentBlock::Image { data } => c matches
                    message::UserContentView::Image(image) && image.source == data@,
                completion::ContentBlock::Audio => c == message::UserContentView::Text("[audio]"@),
                completion::ContentBlock::BlobResource => c == message::UserContentView::Text(
                    "[blob]"@,
                ),
                completion::ContentBlock::ResourceLink { name, uri, mention } => match mention {
                    Some(m) => c matches message::UserContentView::Mention { uri: u, link, content }
                        && u == m.uri@ && link == m.link@ && content.len() == 0,
                    None => c == message::UserContentView::Text(
                        "["@ + name@ + "]("@ + uri@ + ")"@,
                    ),
                },
                completion::ContentBlock::TextResource { uri, text, mention } => match mention {
                    Some(m) => c matches message::UserContentView::Mention { uri: u, link, content }
                        && u == m.uri@ && link == m.link@ && content == text@,
                    None => c matches message::UserContentView::Text(t) && request_laws::has_part(
                        t,
                        text@,
                    ) && request_laws::has_part(t, uri@),
                },
            }
        }),
{
    if let completion::ContentBlock::TextResource { uri, text, mention } = block {
        let fence = markdown::fence(text@);
        let whole = markdown::code_block(uri@, text@);
        assert(whole =~= (fence + uri@ + "\n"@) + text@ + ("\n"@ + fence + "\n"@));
        assert(whole =~= fence + uri@ + ("\n"@ + text@ + "\n"@ + fence + "\n"@));
    }
}

/// What a client is sent of a message is what it sent: all but the size of an image.
pub proof fn what_is_sent_comes_back(c: message::UserContentView)
    ensures
        !(c is Image) ==> completion::sent_content(c) == c,
        c matches message::UserContentView::Image(i) ==> (completion::sent_content(c) matches
            message::UserContentView::Image(sent) && sent.source == i.source),
{
}

/// More tokens than a number can hold are the most that it can.
pub proof fn tokens_are_summed_up(usage: ModelUsage)
    ensures
        ({
            let sum = usage.input_tokens + usage.output_tokens + usage.cache_creation_input_tokens
                + usage.cache_read_input_tokens;
            &&& sum <= u64::MAX ==> thread::total_of(usage) == sum
            &&& sum > u64::MAX ==> thread::total_of(usage) == u64::MAX
        }),
        thread::total_of(thread::no_usage()) == 0,
{
}

/// A request that is made again goes on where the agent had begun to answer without calling tools, and
/// only there.
pub proof fn begun_answers_are_gone_on_with(t: thread::ThreadView)
    ensures
        turn::ends_without_results(t) <==> t.messages.len() > 0 && (t.messages.last() matches
            message::MessageView::Agent { content, tool_results } && tool_results.len() == 0),
{
}

/// The result of a call that failed names the call and the tool, says that it failed, and why.
pub proof fn failures_are_told(id: Seq<char>, name: Seq<char>, error: Seq<char>)
    ensures
        ({
            let r = turn::failed_result(id, name, error);
            &&& r.tool_use_id == id
            &&& r.tool_name == name
            &&& r.is_error
            &&& r.content == message::ResultContentView::Text(error)
            &&& r.output == Some(json::JsonView::Text(error))
        }),
{
}

/// Of a repository on this machine all is kept that was found; of another only the branch.
pub proof fn local_repositories_are_kept(repository: crate::project_snapshot::Repository)
    ensures
        ({
            let kept = crate::project_snapshot::git_view(repository);
            let r = repository;
            &&& r.current_branch is Some ==> kept.current_branch == Some(r.current_branch->0@)
            &&& r.current_branch is None ==> kept.current_branch is None
            &&& r.local && r.remote_url is Some ==> kept.remote_url == Some(r.remote_url->0@)
            &&& r.local && r.head_sha is Some ==> kept.head_sha == Some(r.head_sha->0@)
            &&& r.local && r.diff is Some ==> kept.diff == Some(r.diff->0@)
            &&& !r.local || r.remote_url is None ==> kept.remote_url is None
            &&& !r.local || r.head_sha is None ==> kept.head_sha is None
            &&& !r.local || r.diff is None ==> kept.diff is None
        }),
{
}

/// The result of a call of a tool that ran is what the tool gave back, under the call and the name of
/// the tool; an image is an error for a model that takes none, and what went wrong is told.
pub proof fn results_are_what_the_tool_gave(
    id: String,
    name: String,
    ran: Result<turn::ToolOutput, String>,
    supports_images: bool,
    r: message::ToolResult,
)
    requires
        call_ensures(turn::tool_result_of, (id, name, ran, supports_images), r),
    ensures
        r@.tool_use_id == id@,
        r@.tool_name == name@,
        ran matches Err(e) ==> r@.is_error && r@.content == message::ResultContentView::Text(e@),
        ran matches Ok(given) ==> {
            &&& r@.is_error <==> given.llm_output@ is Image && !supports_images
            &&& !r@.is_error ==> r@.content == given.llm_output@ && r@.output == Some(
                given.raw_output@,
            )
        },
{
}

/// When a turn ends, nothing that was said is lost, unless the model refused to answer: then all from
/// where the messages are to be cut is taken back. No turn runs from then on.
pub proof fn a_turn_ends_with_all_that_was_said(
    t: thread::ThreadView,
    message_ix: usize,
    error: Option<turn::CompletionError>,
    failed: bool,
    now: i64,
)
    requires
        t.pending is None,
    ensures
        ({
            let after = turn::finished(t, message_ix, turn::end_of(error, failed), now);
            &&& !after.running_turn
            &&& after.segments == t.segments
            &&& error != Some(turn::CompletionError::Refusal) ==> after.messages == t.messages
            &&& error == Some(turn::CompletionError::Refusal) && message_ix <= t.messages.len()
                ==> after.messages == t.messages.subrange(0, message_ix as int)
        }),
{
    if message_ix <= t.messages.len() {
        assert(t.messages.subrange(0, message_ix as int) =~= t.messages.take(message_ix as int));
        if message_ix == t.messages.len() {
            assert(t.messages.take(message_ix as int) =~= t.messages);
        }
    }
}

/// What was being written when a turn ends is kept behind the messages, unless the model refused to
/// answer.
pub proof fn a_turn_ends_with_what_was_being_written(
    t: thread::ThreadView,
    message_ix: usize,
    failed: bool,
    now: i64,
)
    requires
        written(t).len() > 0,
    ensures
        ({
            let after = turn::finished(t, message_ix, turn::end_of(None, failed), now);
            &&& after.pending is None
            &&& after.messages.len() == t.messages.len() + 1
            &&& after.messages.drop_last() == t.messages
            &&& after.messages.last() matches message::MessageView::Agent { content, tool_results }
                && content == written(t)
        }),
{
    let after = turn::finished(t, message_ix, turn::end_of(None, failed), now);
    assert(after.messages.drop_last() =~= t.messages);
}

/// A turn is reported as refused or out of tokens where the model said so, as failed where something
/// else failed, and else as done.
pub proof fn turns_are_reported(error: Option<turn::CompletionError>, failed: bool)
    ensures
        turn::end_of(error, failed) == turn::TurnEnd::Refused <==> error == Some(
            turn::CompletionError::Refusal,
        ),
        turn::end_of(error, failed) == turn::TurnEnd::OutOfTokens <==> error == Some(
            turn::CompletionError::MaxTokens,
        ),
        turn::end_of(error, failed) == turn::TurnEnd::Done <==> error is None && !failed,
{
}

/// A thread that is cut before a message has the messages before it, and no others; the tokens of the
/// user messages that stay are kept, and those of the others are not. Where there is no such message, all
/// messages stay.
pub proof fn cutting_takes_all_from_a_message_on(
    t: thread::ThreadView,
    before: Seq<message::MessageView>,
    id: Seq<char>,
    content: Seq<message::UserContentView>,
    behind: Seq<message::MessageView>,
    now: i64,
)
    requires
        t.pending is None,
        t.messages == before.push(message::MessageView::User { id, content }) + behind,
        forall|i: int|
            0 <= i < before.len() ==> !((#[trigger] before[i]) matches message::MessageView::User {
                id: other,
                content: _,
            } && other == id),
    ensures
        turn::cut_before(t, id, now).messages == before,
        turn::cut_before(t, id, now).summary is None,
        !turn::cut_before(t, id, now).running_turn,
        forall|k: int|
            0 <= k < turn::cut_before(t, id, now).usage.len() ==> (
            #[trigger] turn::cut_before(t, id, now).usage[k]).0 != id,
{
    let m = message::MessageView::User { id, content };
    let ended = turn::cancelled(t, now);
    assert(ended.messages == t.messages);
    assert(t.messages[before.len() as int] == m);
    first_user_message(t.messages, id, before.len() as int);
    assert(t.messages.take(before.len() as int) =~= before);
    let dropped = t.messages.skip(before.len() as int);
    assert(dropped[0] == m);
    usage_of_dropped_messages_goes(t.usage, dropped);
    let keeps = |u: (Seq<char>, ModelUsage)|
        !(exists|i: int|
            0 <= i < dropped.len() && (#[trigger] dropped[i] matches message::MessageView::User {
                id: other,
                content,
            } && other == u.0));
    let left = turn::cut_before(t, id, now).usage;
    assert forall|k: int| 0 <= k < left.len() implies (#[trigger] left[k]).0 != id by {
        assert(left == t.usage.filter(keeps));
        t.usage.lemma_filter_pred(keeps, k);
    }
}

proof fn first_user_message(messages: Seq<message::MessageView>, id: Seq<char>, at: int)
    requires
        0 <= at < messages.len(),
        messages[at] matches message::MessageView::User { id: other, content: _ } && other == id,
        forall|i: int|
            0 <= i < at ==> !((#[trigger] messages[i]) matches message::MessageView::User {
                id: other,
                content: _,
            } && other == id),
    ensures
        thread::user_position(messages, id) == Some(at),
    decreases messages.len(),
{
    let less = messages.drop_last();
    if at < less.len() {
        assert forall|i: int| 0 <= i < at implies !((
        #[trigger] less[i]) matches message::MessageView::User { id: other, content: _ } && other
            == id) by {
            assert(less[i] == messages[i]);
        }
        first_user_message(less, id, at);
    } else {
        thread::user_position_is_first(less, id);
        if let Some(i) = thread::user_position(less, id) {
            assert(less[i] == messages[i]);
        }
    }
}

/// A request that went well is followed by the next one where tools ran, and else by the end of the turn;
/// by that too, where no more tools may be used. The next one answers for the results of the tools, and
/// counts its failures anew.
pub proof fn turns_go_on_while_tools_run(
    t: thread::ThreadView,
    progress: turn::TurnProgress,
    ran_tools: bool,
)
    ensures
        ({
            let (step, after) = turn::step_after(t, progress, None, ran_tools);
            &&& step == turn::TurnStep::Continue <==> ran_tools && !t.tool_use_limit_reached
            &&& step == turn::TurnStep::EndTurn <==> !ran_tools && !t.tool_use_limit_reached
            &&& step == turn::TurnStep::ToolUseLimitReached <==> t.tool_use_limit_reached
            &&& step == turn::TurnStep::Continue ==> after.attempt == 0 && after.intent
                == turn::CompletionIntent::ToolResults
            &&& step != turn::TurnStep::Continue ==> after == progress
        }),
{
}

/// A request that failed is made again exactly where a retry is due, and that attempt counts; else the
/// turn fails.
pub proof fn failed_requests_are_retried(
    t: thread::ThreadView,
    progress: turn::TurnProgress,
    failure: crate::retry::CompletionFailure,
    ran_tools: bool,
)
    requires
        progress.attempt < u8::MAX,
    ensures
        ({
            let (step, after) = turn::step_after(t, progress, Some(failure), ran_tools);
            let due = crate::retry::retry_after(t.mode, failure, (progress.attempt + 1) as u8);
            &&& due is Some ==> step == turn::TurnStep::Retry(due->0) && after.attempt
                == progress.attempt + 1 && after.intent == progress.intent
            &&& due is None ==> step == turn::TurnStep::Fail && after == progress
            &&& t.mode == CompletionMode::Normal ==> step == turn::TurnStep::Fail
        }),
{
}

/// Before a request is made again, the agent is told to go on where it had begun to answer without
/// calling tools; all that was said stays.
pub proof fn begun_answers_are_resumed(t: thread::ThreadView)
    ensures
        ({
            let after = turn::told_to_go_on(t);
            let begun = t.messages.len() > 0 && (t.messages.last() matches
                message::MessageView::Agent { content, tool_results } && tool_results.len() == 0);
            &&& begun ==> after.len() == t.messages.len() + 1 && after.drop_last() == t.messages
                && after.last() == message::MessageView::Resume
            &&& !begun ==> after == t.messages
        }),
{
    assert(turn::told_to_go_on(t).take(t.messages.len() as int) =~= t.messages);
    if turn::ends_without_results(t) {
        assert(turn::told_to_go_on(t).drop_last() =~= t.messages);
    }
}

/// What a user asks is the last message when the turn begins, where nothing was being written.
pub proof fn what_is_asked_comes_last(
    t: thread::ThreadView,
    m: message::MessageView,
    now: i64,
)
    requires
        written(t).len() == 0,
    ensures
        ({
            let begun = turn::begun(turn::asked(t, m), now).messages;
            &&& begun.len() == t.messages.len() + 1
            &&& begun.last() == m
            &&& begun.drop_last() == t.messages
        }),
{
    assert(turn::begun(turn::asked(t, m), now).messages.drop_last() =~= t.messages);
}

/// Nothing is told of tokens where no user message was written, nothing was reported for the last one, or
/// there is no model.
pub proof fn unknown_tokens_are_not_told(t: thread::ThreadView)
    ensures
        (forall|i: int| 0 <= i < t.messages.len() ==> !((#[trigger] t.messages[i]) is User))
            ==> thread::latest_usage(t) is None,
        t.model is None ==> thread::latest_usage(t) is None,
        t.usage.len() == 0 ==> thread::latest_usage(t) is None,
{
    the_last_user_message_is_found(t.messages);
}

} // verus!
