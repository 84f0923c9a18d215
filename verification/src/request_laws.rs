//! What holds of requests: a model is sent all that was said, as it was said, and in order.

use vstd::prelude::*;
use vstd::utf8::*;

use crate::archive;
use crate::completion;
use crate::message;
use crate::message::Role;
use crate::request;
use crate::text;
use crate::thread;
use crate::token_usage;

verus! {

// ---------------------------------------------------------------------------
// Agent messages
// ---------------------------------------------------------------------------

/// Every tool result is sent, in order, in one message of the user that comes last. A result whose
/// content is not the empty text is sent unchanged; an empty one says that it is empty, and is
/// unchanged but for that.
pub proof fn tool_results_are_sent_unchanged(
    content: Seq<message::AgentContentView>,
    tool_results: Seq<message::ToolResultView>,
)
    requires
        tool_results.len() > 0,
    ensures
        ({
            let sent = request::message_requests(
                message::MessageView::Agent { content, tool_results },
            );
            &&& sent.len() >= 1
            &&& sent.last().role == Role::User
            &&& sent.last().content.len() == tool_results.len()
            &&& forall|i: int|
                0 <= i < tool_results.len() && tool_results[i].content
                    != message::ResultContentView::Text(Seq::empty()) ==> #[trigger] sent.last().content[i]
                    == message::ContentView::ToolResult(tool_results[i])
            &&& forall|i: int|
                0 <= i < tool_results.len() && tool_results[i].content
                    == message::ResultContentView::Text(Seq::empty()) ==> #[trigger] sent.last().content[i]
                    == message::ContentView::ToolResult(
                    message::ToolResultView {
                        content: message::ResultContentView::Text("<Tool returned an empty string>"@),
                        ..tool_results[i]
                    },
                )
        }),
{
    let sent = request::agent_requests(content, tool_results);
    assert forall|i: int|
        0 <= i < tool_results.len() && tool_results[i].content != message::ResultContentView::Text(
            Seq::empty(),
        ) implies #[trigger] sent.last().content[i] == message::ContentView::ToolResult(
        tool_results[i],
    ) by {
        if let message::ResultContentView::Text(t) = tool_results[i].content {
            if t.len() == 0 {
                assert(t =~= Seq::empty());
            }
        }
    }
}

/// Whether a piece of an agent message is sent: all are, but a call without a result.
pub open spec fn is_sent(
    c: message::AgentContentView,
    results: Seq<message::ToolResultView>,
) -> bool {
    c matches message::AgentContentView::ToolUse(call) ==> exists|k: int|
        0 <= k < results.len() && (#[trigger] results[k]).tool_use_id == call.id
}

/// Whether a piece of a request is a piece of an agent message, unchanged.
pub open spec fn is_unchanged(
    sent: message::ContentView,
    c: message::AgentContentView,
) -> bool {
    match c {
        message::AgentContentView::Text(t) => sent == message::ContentView::Text(t),
        message::AgentContentView::Thinking { text, signature } => sent
            == message::ContentView::Thinking { text, signature },
        message::AgentContentView::RedactedThinking(t) => sent
            == message::ContentView::RedactedThinking(t),
        message::AgentContentView::ToolUse(call) => sent == message::ContentView::ToolUse(call),
    }
}

/// What an agent wrote is sent unchanged, in order, in one message of the assistant that comes first:
/// of all its pieces, those and only those that are no call without a result.
pub proof fn what_the_agent_wrote_is_sent_unchanged(
    content: Seq<message::AgentContentView>,
    tool_results: Seq<message::ToolResultView>,
)
    ensures
        ({
            let kept = content.filter(|c: message::AgentContentView| is_sent(c, tool_results));
            let sent = request::message_requests(
                message::MessageView::Agent { content, tool_results },
            );
            &&& sent.len() == (if kept.len() > 0 {
                1int
            } else {
                0
            }) + (if tool_results.len() > 0 {
                1int
            } else {
                0
            })
            &&& kept.len() > 0 ==> {
                &&& sent[0].role == Role::Assistant
                &&& sent[0].content.len() == kept.len()
                &&& forall|i: int|
                    0 <= i < kept.len() ==> is_unchanged(#[trigger] sent[0].content[i], kept[i])
            }
        }),
{
    chunks_are_unchanged(content, tool_results);
}

proof fn chunks_are_unchanged(
    content: Seq<message::AgentContentView>,
    results: Seq<message::ToolResultView>,
)
    ensures
        ({
            let kept = content.filter(|c: message::AgentContentView| is_sent(c, results));
            let sent = request::agent_chunks(content, results);
            &&& sent.len() == kept.len()
            &&& forall|i: int| 0 <= i < kept.len() ==> is_unchanged(#[trigger] sent[i], kept[i])
        }),
    decreases content.len(),
{
    reveal(Seq::filter);
    if content.len() > 0 {
        chunks_are_unchanged(content.drop_last(), results);
    }
}

/// A turn that is resumed is asked for as one message of the user.
pub proof fn a_resumed_turn_is_asked_for()
    ensures
        request::message_requests(message::MessageView::Resume) == seq![
            message::RequestView {
                role: Role::User,
                content: seq![message::ContentView::Text("Continue where you left off"@)],
                cache: false,
            },
        ],
{
}

// ---------------------------------------------------------------------------
// User messages
// ---------------------------------------------------------------------------

/// A user message is one message of the user. Its pieces are sent first, in order: a text and an image
/// as they are, a mention as its link.
pub proof fn what_the_user_wrote_is_sent_unchanged(
    id: Seq<char>,
    content: Seq<message::UserContentView>,
    i: int,
)
    requires
        0 <= i < content.len(),
    ensures
        ({
            let sent = request::message_requests(message::MessageView::User { id, content });
            &&& sent.len() == 1
            &&& sent[0].role == Role::User
            &&& sent[0].content.len() >= content.len()
            &&& match content[i] {
                message::UserContentView::Text(t) => sent[0].content[i]
                    == message::ContentView::Text(t),
                message::UserContentView::Image(image) => sent[0].content[i]
                    == message::ContentView::Image(image),
                message::UserContentView::Mention { uri, link, content: _ } => sent[0].content[i]
                    == message::ContentView::Text(link),
            }
        }),
{
}

/// The texts around the section for a kind of mention.
pub open spec fn tags_around(uri: message::MentionView) -> (Seq<char>, Seq<char>) {
    match uri {
        message::MentionView::File { abs_path } => ("<files>"@, "</files>\n"@),
        message::MentionView::PastedImage => (Seq::empty(), Seq::empty()),
        message::MentionView::Directory => ("<directories>"@, "</directories>\n"@),
        message::MentionView::Symbol { abs_path, line_range } => ("<symbols>"@, "</symbols>\n"@),
        message::MentionView::Selection { abs_path, line_range } => (
            "<selections>"@,
            "</selections>\n"@,
        ),
        message::MentionView::Thread => ("<threads>"@, "</threads>\n"@),
        message::MentionView::TextThread => ("<threads>"@, "</threads>\n"@),
        message::MentionView::Rule => (
            "<rules>\nThe user has specified the following rules that should be applied:\n"@,
            "</user_rules>\n"@,
        ),
        message::MentionView::Fetch { url } => ("<fetched_urls>"@, "</fetched_urls>\n"@),
    }
}

/// Whether a text is the section for a kind of mention.
pub open spec fn is_section_for(section: Seq<char>, uri: message::MentionView) -> bool {
    exists|body: Seq<char>|
        section == tags_around(uri).0 + #[trigger] (body + tags_around(uri).1)
}

/// Whether a text holds another.
pub open spec fn has_part(whole: Seq<char>, part: Seq<char>) -> bool {
    exists|a: Seq<char>, b: Seq<char>| whole == #[trigger] (a + part + b)
}

/// What is part of a part is part of the whole.
pub proof fn part_of_part(whole: Seq<char>, a: Seq<char>, part: Seq<char>, b: Seq<char>, inner: Seq<char>)
    requires
        whole == a + part + b,
        has_part(part, inner),
    ensures
        has_part(whole, inner),
{
    let (c, d) = choose|c: Seq<char>, d: Seq<char>| part == #[trigger] (c + inner + d);
    assert(whole =~= (a + c) + inner + (d + b));
}

/// What is mentioned is sent behind the pieces of the message, in the section for its kind, between
/// the texts that open and close the context.
pub proof fn what_is_mentioned_is_attached(
    id: Seq<char>,
    content: Seq<message::UserContentView>,
    i: int,
    uri: message::MentionView,
    link: Seq<char>,
    mentioned: Seq<char>,
)
    requires
        0 <= i < content.len(),
        content[i] == (message::UserContentView::Mention { uri, link, content: mentioned }),
        uri != message::MentionView::PastedImage,
    ensures
        ({
            let sent = request::message_requests(
                message::MessageView::User { id, content },
            )[0].content;
            &&& sent.len() > content.len() + 2
            &&& sent[content.len() as int] == message::ContentView::Text(
                "<context>\nThe following items were attached by the user. They are up-to-date and don't need to be re-read.\n\n"@,
            )
            &&& sent.last() == message::ContentView::Text("</context>"@)
            &&& exists|k: int|
                content.len() < k < sent.len() - 1 && (#[trigger] sent[k] matches
                    message::ContentView::Text(section) && is_section_for(section, uri)
                    && has_part(section, mentioned))
        }),
{
    let order = request::section_order();
    let section = request::section_of(uri)->0;
    let filled = request::filled_sections(content, order);
    let sent = request::user_request(content).content;
    bodies_hold_what_is_mentioned(content, i, uri, link, mentioned);
    let s = match section {
        request::Section::Files => 0int,
        request::Section::Directories => 1,
        request::Section::Symbols => 2,
        request::Section::Selections => 3,
        request::Section::Threads => 4,
        request::Section::FetchedUrls => 5,
        request::Section::Rules => 6,
    };
    assert(order[s] == section);
    let body = request::section_body(content, section);
    filled_sections_are_there(content, order, s);
    let t = request::section_open(section) + body + request::section_close(section);
    let k = choose|k: int|
        0 <= k < filled.len() && #[trigger] filled[k] == message::ContentView::Text(t);
    assert(sent[content.len() + 1 + k] == filled[k]);
    part_of_part(t, request::section_open(section), body, request::section_close(section), mentioned);
    assert(t =~= request::section_open(section) + (body + request::section_close(section)));
    assert(tags_around(uri) == (request::section_open(section), request::section_close(section)));
    assert(t == tags_around(uri).0 + (body + tags_around(uri).1));
    assert(is_section_for(t, uri));
}

proof fn filled_sections_are_there(
    content: Seq<message::UserContentView>,
    sections: Seq<request::Section>,
    s: int,
)
    requires
        0 <= s < sections.len(),
        request::section_body(content, sections[s]).len() > 0,
    ensures
        exists|k: int|
            0 <= k < request::filled_sections(content, sections).len()
                && #[trigger] request::filled_sections(content, sections)[k]
                == message::ContentView::Text(
                request::section_open(sections[s]) + request::section_body(content, sections[s])
                    + request::section_close(sections[s]),
            ),
    decreases sections.len(),
{
    let less = sections.drop_last();
    let filled = request::filled_sections(content, sections);
    let text = message::ContentView::Text(
        request::section_open(sections[s]) + request::section_body(content, sections[s])
            + request::section_close(sections[s]),
    );
    if s == sections.len() - 1 {
        assert(filled[filled.len() - 1] == text);
    } else {
        filled_sections_are_there(content, less, s);
        let before = request::filled_sections(content, less);
        let k = choose|k: int| 0 <= k < before.len() && #[trigger] before[k] == text;
        assert(filled[k] == text);
    }
}

proof fn entry_holds_content(uri: message::MentionView, mentioned: Seq<char>)
    requires
        uri != message::MentionView::PastedImage,
    ensures
        has_part(request::section_entry(uri, mentioned), mentioned),
        request::section_entry(uri, mentioned).len() > 0,
{
    reveal_strlit("\n");
    reveal_strlit("\nFetch: ");
    let entry = request::section_entry(uri, mentioned);
    match uri {
        message::MentionView::Directory => {
            assert(entry == "\n"@ + mentioned + "\n"@);
        },
        message::MentionView::Thread => {
            assert(entry == "\n"@ + mentioned + "\n"@);
        },
        message::MentionView::TextThread => {
            assert(entry == "\n"@ + mentioned + "\n"@);
        },
        message::MentionView::Fetch { url } => {
            assert(entry =~= ("\nFetch: "@ + url + "\n\n"@) + mentioned + Seq::<char>::empty());
        },
        message::MentionView::File { abs_path } => {
            block_holds_content(crate::markdown::tag_of(abs_path, None), mentioned);
        },
        message::MentionView::Symbol { abs_path, line_range } => {
            block_holds_content(crate::markdown::tag_of(abs_path, Some(line_range)), mentioned);
        },
        message::MentionView::Selection { abs_path, line_range } => {
            let path = match abs_path {
                Some(path) => path,
                None => "Untitled"@,
            };
            block_holds_content(crate::markdown::tag_of(path, Some(line_range)), mentioned);
        },
        message::MentionView::Rule => {
            block_holds_content(""@, mentioned);
        },
        message::MentionView::PastedImage => {},
    }
}

proof fn block_holds_content(tag: Seq<char>, mentioned: Seq<char>)
    ensures
        has_part("\n"@ + crate::markdown::code_block(tag, mentioned), mentioned),
{
    let fence = crate::markdown::fence(mentioned);
    assert("\n"@ + crate::markdown::code_block(tag, mentioned) =~= ("\n"@ + fence + tag + "\n"@)
        + mentioned + ("\n"@ + fence + "\n"@));
}

proof fn bodies_hold_what_is_mentioned(
    content: Seq<message::UserContentView>,
    i: int,
    uri: message::MentionView,
    link: Seq<char>,
    mentioned: Seq<char>,
)
    requires
        0 <= i < content.len(),
        content[i] == (message::UserContentView::Mention { uri, link, content: mentioned }),
        uri != message::MentionView::PastedImage,
    ensures
        has_part(request::section_body(content, request::section_of(uri)->0), mentioned),
        request::section_body(content, request::section_of(uri)->0).len() > 0,
    decreases content.len(),
{
    let section = request::section_of(uri)->0;
    let less = content.drop_last();
    let before = request::section_body(less, section);
    let last = request::section_part(content.last(), section);
    let body = request::section_body(content, section);
    let none = Seq::<char>::empty();
    if i == less.len() {
        entry_holds_content(uri, mentioned);
        assert(body =~= before + last + none);
        part_of_part(body, before, last, none, mentioned);
    } else {
        bodies_hold_what_is_mentioned(less, i, uri, link, mentioned);
        assert(body =~= none + before + last);
        part_of_part(body, none, before, last, mentioned);
    }
}

/// A user message without mentions is sent with nothing attached.
pub proof fn nothing_else_is_attached(id: Seq<char>, content: Seq<message::UserContentView>)
    requires
        forall|i: int|
            0 <= i < content.len() ==> ((#[trigger] content[i]) matches
                message::UserContentView::Mention { uri, link, content: _ } ==> uri
                == message::MentionView::PastedImage),
    ensures
        request::message_requests(message::MessageView::User { id, content })[0].content.len()
            == content.len(),
{
    assert forall|section: request::Section| request::section_body(content, section).len() == 0 by {
        empty_bodies(content, section);
    }
    empty_sections(content, request::section_order());
}

proof fn empty_bodies(content: Seq<message::UserContentView>, section: request::Section)
    requires
        forall|i: int|
            0 <= i < content.len() ==> ((#[trigger] content[i]) matches
                message::UserContentView::Mention { uri, link, content: _ } ==> uri
                == message::MentionView::PastedImage),
    ensures
        request::section_body(content, section).len() == 0,
    decreases content.len(),
{
    if content.len() > 0 {
        let less = content.drop_last();
        assert forall|i: int| 0 <= i < less.len() implies ((#[trigger] less[i]) matches
            message::UserContentView::Mention { uri, link, content: _ } ==> uri
            == message::MentionView::PastedImage) by {
            assert(less[i] == content[i]);
        }
        empty_bodies(less, section);
        assert(content.last() == content[content.len() - 1]);
    }
}

proof fn empty_sections(
    content: Seq<message::UserContentView>,
    sections: Seq<request::Section>,
)
    requires
        forall|section: request::Section| (#[trigger] request::section_body(content, section)).len() == 0,
    ensures
        request::filled_sections(content, sections).len() == 0,
    decreases sections.len(),
{
    if sections.len() > 0 {
        empty_sections(content, sections.drop_last());
    }
}

// ---------------------------------------------------------------------------
// Conversations
// ---------------------------------------------------------------------------

/// The requests of a message behind others are those of the others, and behind them those of the
/// message, the first of them with the position of the message before its pieces, and all of them as
/// they are but for that.
pub proof fn messages_are_sent_in_order(messages: Seq<message::MessageView>, m: message::MessageView)
    ensures
        ({
            let before = archive::numbered_requests(messages);
            let now = archive::numbered_requests(messages.push(m));
            let own = request::message_requests(m);
            &&& now.len() == before.len() + own.len()
            &&& now.take(before.len() as int) == before
            &&& forall|i: int|
                0 <= i < own.len() ==> {
                    let r = #[trigger] now[before.len() + i];
                    &&& r.role == own[i].role
                    &&& r.cache == own[i].cache
                    &&& i == 0 ==> r.content == seq![
                        message::ContentView::Text("[@"@ + text::decimal(messages.len()) + "]"@),
                    ] + own[i].content
                    &&& i > 0 ==> r.content == own[i].content
                }
        }),
{
    assert(messages.push(m).drop_last() =~= messages);
    let before = archive::numbered_requests(messages);
    let now = archive::numbered_requests(messages.push(m));
    assert(now.take(before.len() as int) =~= before);
    assert(archive::numbered_requests(Seq::empty()).len() == 0);
}

/// A conversation without messages has no requests.
pub proof fn nothing_said_is_nothing_sent()
    ensures
        archive::numbered_requests(Seq::empty()) == Seq::<message::RequestView>::empty(),
{
}

/// The requests of the message that is being written.
pub open spec fn written_requests(t: thread::ThreadView) -> Seq<message::RequestView> {
    match t.pending {
        Some(m) => request::message_requests(m),
        None => Seq::empty(),
    }
}

/// A request to a model starts with the system prompt. The messages follow, and of these and the prompt
/// the last, and no other, is marked to be kept; behind them comes the message that is being written.
pub proof fn a_request_holds_the_whole_conversation(t: thread::ThreadView, system_prompt: Seq<char>)
    ensures
        ({
            let sent = completion::request_messages(t, system_prompt);
            let said = archive::numbered_requests(t.messages);
            let own = written_requests(t);
            &&& sent.len() == 1 + said.len() + own.len()
            &&& sent[0].role == Role::System
            &&& sent[0].content == seq![message::ContentView::Text(system_prompt)]
            &&& forall|i: int|
                0 <= i < said.len() ==> (#[trigger] said[i]).role == sent[i + 1].role
                    && said[i].content == sent[i + 1].content
            &&& forall|i: int|
                0 <= i < said.len() && !(#[trigger] said[i]).cache ==> sent[i + 1].cache == (i + 1
                    == said.len())
            &&& sent[0].cache == (said.len() == 0)
            &&& forall|i: int|
                0 <= i < own.len() ==> {
                    let r = sent[1 + said.len() + i];
                    &&& r.role == (#[trigger] own[i]).role
                    &&& r.cache == own[i].cache
                    &&& i == 0 ==> r.content == seq![
                        message::ContentView::Text(
                            "[@"@ + text::decimal((1 + said.len()) as nat) + "]"@,
                        ),
                    ] + own[i].content
                    &&& i > 0 ==> r.content == own[i].content
                }
        }),
{
}

/// No request of a conversation is marked before the whole is put together.
pub proof fn single_requests_are_not_marked(messages: Seq<message::MessageView>, i: int)
    requires
        0 <= i < archive::numbered_requests(messages).len(),
    ensures
        !archive::numbered_requests(messages)[i].cache,
    decreases messages.len(),
{
    if messages.len() > 0 {
        let less = archive::numbered_requests(messages.drop_last());
        if i < less.len() {
            single_requests_are_not_marked(messages.drop_last(), i);
        }
    }
}

/// The tools that a model is offered are those with an input schema, in order, as they are.
pub proof fn tools_with_a_schema_are_offered(tools: Seq<completion::OfferedTool>)
    ensures
        completion::tools_with_schema(tools) == tools.filter(
            |t: completion::OfferedTool| t.input_schema is Some,
        ).map_values(
            |t: completion::OfferedTool| (t.name@, t.description@, t.input_schema->0@),
        ),
    decreases tools.len(),
{
    reveal(Seq::filter);
    if tools.len() > 0 {
        tools_with_a_schema_are_offered(tools.drop_last());
    }
    assert(completion::tools_with_schema(tools) =~= tools.filter(
        |t: completion::OfferedTool| t.input_schema is Some,
    ).map_values(|t: completion::OfferedTool| (t.name@, t.description@, t.input_schema->0@)));
}

// ---------------------------------------------------------------------------
// Replay
// ---------------------------------------------------------------------------

/// What is shown of a conversation that goes on is what was shown before, and behind it what is shown
/// of the new message: a user message by its identifier, and every text, thought and call of an agent
/// message, in order.
pub proof fn messages_are_shown_in_order(
    messages: Seq<message::MessageView>,
    m: message::MessageView,
    tools: Seq<Seq<char>>,
)
    ensures
        ({
            let before = completion::replayed(messages, tools);
            let now = completion::replayed(messages.push(m), tools);
            match m {
                message::MessageView::User { id, content } => now == before.push(
                    completion::ReplayView::UserMessage(id),
                ),
                message::MessageView::Resume => now == before,
                message::MessageView::Agent { content, tool_results } => {
                    let shown = content.filter(
                        |c: message::AgentContentView| !(c is RedactedThinking),
                    );
                    &&& now.len() == before.len() + shown.len()
                    &&& now.take(before.len() as int) == before
                    &&& forall|i: int|
                        0 <= i < shown.len() ==> shows_again(
                            #[trigger] now[before.len() + i],
                            shown[i],
                            tool_results,
                            tools,
                        )
                },
            }
        }),
{
    assert(messages.push(m).drop_last() =~= messages);
    let before = completion::replayed(messages, tools);
    let now = completion::replayed(messages.push(m), tools);
    if let message::MessageView::Agent { content, tool_results } = m {
        content_is_shown(content, tool_results, tools);
        assert(now.take(before.len() as int) =~= before);
        let own = completion::replayed_content(content, tool_results, tools);
        assert forall|i: int| 0 <= i < own.len() implies #[trigger] now[before.len() + i] == own[i] by {
        }
    }
}

/// Whether an event shows a piece of an agent message. A call of a tool that is there has the output of
/// its result, and failed where the result says so, or where there is none.
pub open spec fn shows_again(
    event: completion::ReplayView,
    c: message::AgentContentView,
    results: Seq<message::ToolResultView>,
    tools: Seq<Seq<char>>,
) -> bool {
    match c {
        message::AgentContentView::Text(t) => event == completion::ReplayView::AgentText(t),
        message::AgentContentView::Thinking { text, signature } => event
            == completion::ReplayView::AgentThinking(text),
        message::AgentContentView::RedactedThinking(_) => false,
        message::AgentContentView::ToolUse(call) => if !tools.contains(call.name) {
            event == (completion::ReplayView::UnknownToolCall {
                id: call.id,
                name: call.name,
                input: call.input,
            })
        } else {
            event matches completion::ReplayView::ToolCall { id, name, input, output, failed }
                && id == call.id && name == call.name && input == call.input && (
            (output is None && failed && forall|k: int|
                0 <= k < results.len() ==> (#[trigger] results[k]).tool_use_id != call.id) || exists|
                k: int,
            |
                0 <= k < results.len() && (#[trigger] results[k]).tool_use_id == call.id && output
                    == results[k].output && failed == results[k].is_error && forall|j: int|
                    0 <= j < k ==> (#[trigger] results[j]).tool_use_id != call.id)
        },
    }
}

proof fn content_is_shown(
    content: Seq<message::AgentContentView>,
    results: Seq<message::ToolResultView>,
    tools: Seq<Seq<char>>,
)
    ensures
        ({
            let shown = content.filter(|c: message::AgentContentView| !(c is RedactedThinking));
            let own = completion::replayed_content(content, results, tools);
            &&& own.len() == shown.len()
            &&& forall|i: int|
                0 <= i < shown.len() ==> shows_again(#[trigger] own[i], shown[i], results, tools)
        }),
    decreases content.len(),
{
    reveal(Seq::filter);
    if content.len() > 0 {
        content_is_shown(content.drop_last(), results, tools);
        if let message::AgentContentView::ToolUse(call) = content.last() {
            results_are_found_first(results, call.id);
        }
    }
}

/// The result of a call is the first one with its identifier.
pub proof fn results_are_found_first(results: Seq<message::ToolResultView>, id: Seq<char>)
    ensures
        match crate::turn::result_index(results, id) {
            Some(i) => 0 <= i < results.len() && results[i].tool_use_id == id && forall|j: int|
                0 <= j < i ==> (#[trigger] results[j]).tool_use_id != id,
            None => forall|j: int| 0 <= j < results.len() ==> (#[trigger] results[j]).tool_use_id != id,
        },
    decreases results.len(),
{
    if results.len() > 0 {
        results_are_found_first(results.drop_last(), id);
        let less = results.drop_last();
        assert forall|j: int| 0 <= j < less.len() implies less[j] == #[trigger] results[j] by {
        }
    }
}

// ---------------------------------------------------------------------------
// Weights
// ---------------------------------------------------------------------------

/// The estimate is the weight divided by four, rounded down, and at least one.
pub proof fn four_characters_make_a_token(chars: nat)
    ensures
        token_usage::estimate(chars) >= 1,
        4 <= chars <= usize::MAX ==> 4 * token_usage::estimate(chars) <= chars < 4 * (
        token_usage::estimate(chars) + 1),
        chars < 4 ==> token_usage::estimate(chars) == 1,
{
}

/// A piece of a request adds its weight to it: a text or a thought its length in bytes, an image, a
/// call and a result a fixed one.
pub proof fn pieces_add_their_weight(
    requests: Seq<message::RequestView>,
    last: message::RequestView,
    c: message::ContentView,
)
    ensures
        ({
            let more = message::RequestView { content: last.content.push(c), ..last };
            token_usage::total_chars(requests.push(more)) == token_usage::total_chars(
                requests.push(last),
            ) + match c {
                message::ContentView::Text(t) => encode_utf8(t).len(),
                message::ContentView::Thinking { text, signature } => encode_utf8(text).len(),
                message::ContentView::RedactedThinking(t) => encode_utf8(t).len(),
                message::ContentView::Image(_) => 7,
                message::ContentView::ToolUse(_) => 11,
                message::ContentView::ToolResult(_) => 14,
            }
        }),
        token_usage::total_chars(Seq::empty()) == 0,
        last.content.len() == 0 ==> token_usage::total_chars(requests.push(last))
            == token_usage::total_chars(requests),
{
    let more = message::RequestView { content: last.content.push(c), ..last };
    assert(requests.push(more).drop_last() =~= requests);
    assert(requests.push(last).drop_last() =~= requests);
    assert(more.content.drop_last() =~= last.content);
}

/// The tokens of a message are what the prefix that ends with it takes beyond the one before it, or
/// none, where it takes no more; of the first they are all.
pub proof fn messages_take_the_difference(totals: Seq<usize>, i: int)
    requires
        0 <= i < totals.len(),
    ensures
        token_usage::differences(totals).len() == totals.len(),
        i == 0 ==> token_usage::differences(totals)[i] == totals[0],
        i > 0 && totals[i] >= totals[i - 1] ==> totals[i - 1] + token_usage::differences(totals)[i]
            == totals[i],
        i > 0 && totals[i] < totals[i - 1] ==> token_usage::differences(totals)[i] == 0,
        token_usage::last_total(totals) == totals[totals.len() - 1],
{
}

/// What a model counted is taken as it is; where it counted nothing, the estimate is taken, and nothing
/// is counted of no messages.
pub proof fn counts_of_the_model_come_first(
    slice: Seq<message::RequestView>,
    counted: Result<u64, Seq<char>>,
)
    ensures
        slice.len() == 0 ==> token_usage::slice_tokens(slice, counted) == 0,
        slice.len() > 0 && counted is Ok && 0 < counted->Ok_0 <= usize::MAX
            ==> token_usage::slice_tokens(slice, counted) == counted->Ok_0,
        slice.len() > 0 && (counted is Err || counted == Ok::<u64, Seq<char>>(0))
            ==> token_usage::slice_tokens(slice, counted) == token_usage::estimate(
            token_usage::total_chars(slice),
        ),
{
}

/// The total of a prefix is what the model counted for the messages up to its end, or else the estimate
/// for them.
pub proof fn prefixes_are_counted_one_by_one(
    all: Seq<message::RequestView>,
    counted: Seq<Result<u64, Seq<char>>>,
    i: int,
)
    requires
        0 <= i < all.len(),
        counted.len() == all.len(),
    ensures
        ({
            let totals = token_usage::prefix_totals(all, counted);
            let few = token_usage::estimate(token_usage::total_chars(all.subrange(0, i + 1)));
            &&& totals.len() == all.len()
            &&& (counted[i] is Ok && 0 < counted[i]->Ok_0 <= usize::MAX) ==> totals[i]
                == counted[i]->Ok_0
            &&& (counted[i] is Err || counted[i] == Ok::<u64, Seq<char>>(0)) ==> totals[i] == few
        }),
{
    assert(all.take(i + 1) =~= all.subrange(0, i + 1));
}

} // verus!
