//! What holds of the forms of a message: its Markdown shows all that was said, and a model is sent all
//! of it.

use vstd::prelude::*;

use crate::json;
use crate::markdown;
use crate::message;
use crate::text;
use crate::text_laws;
use crate::thread;

verus! {

// ---------------------------------------------------------------------------
// Code blocks
// ---------------------------------------------------------------------------

/// Whether a text is nothing but back ticks.
pub open spec fn all_ticks(s: Seq<char>) -> bool {
    forall|i: int| 0 <= i < s.len() ==> #[trigger] s[i] == '`'
}

/// A run of back ticks is no longer than the longest one, which is in the text.
proof fn runs_are_bounded(s: Seq<char>)
    ensures
        forall|a: int, b: int|
            0 <= a <= b <= s.len() && all_ticks(#[trigger] s.subrange(a, b)) ==> b - a
                <= markdown::longest_tick_run(s),
        exists|a: int|
            0 <= a && a + markdown::longest_tick_run(s) <= s.len() && all_ticks(
                #[trigger] s.subrange(a, a + markdown::longest_tick_run(s)),
            ),
        markdown::tick_run(s) <= s.len(),
        all_ticks(s.subrange(s.len() - markdown::tick_run(s), s.len() as int)),
        forall|a: int|
            0 <= a <= s.len() && all_ticks(#[trigger] s.subrange(a, s.len() as int)) ==> s.len() - a
                <= markdown::tick_run(s),
    decreases s.len(),
{
    if s.len() == 0 {
        let a: int = 0;
        assert(all_ticks(s.subrange(a, a + markdown::longest_tick_run(s))));
    } else {
        let less = s.drop_last();
        runs_are_bounded(less);
        let run = markdown::tick_run(s) as int;
        if s.last() == '`' {
            let from = s.len() - run;
            assert forall|i: int| 0 <= i < run implies s.subrange(from, s.len() as int)[i] == '`' by {
                if i < run - 1 {
                    let tail = less.subrange(less.len() - markdown::tick_run(less), less.len() as int);
                    assert(tail[i] == '`');
                }
            }
        }
        assert forall|a: int|
            0 <= a <= s.len() && all_ticks(#[trigger] s.subrange(a, s.len() as int)) implies s.len() - a
            <= run by {
            if a < s.len() {
                let tail = s.subrange(a, s.len() as int);
                assert(tail[tail.len() - 1] == '`');
                assert(less.subrange(a, less.len() as int) =~= tail.drop_last());
                assert(all_ticks(less.subrange(a, less.len() as int)));
            }
        }
        assert forall|a: int, b: int|
            0 <= a <= b <= s.len() && all_ticks(#[trigger] s.subrange(a, b)) implies b - a
            <= markdown::longest_tick_run(s) by {
            if b < s.len() {
                assert(less.subrange(a, b) =~= s.subrange(a, b));
            }
        }
        let longest = markdown::longest_tick_run(s) as int;
        if longest == run {
            let a = s.len() - run;
            assert(all_ticks(s.subrange(a, a + markdown::longest_tick_run(s))));
        } else {
            let a = choose|a: int|
                0 <= a && a + longest <= less.len() && all_ticks(
                    #[trigger] less.subrange(a, a + longest),
                );
            assert(s.subrange(a, a + longest) =~= less.subrange(a, a + longest));
            assert(all_ticks(s.subrange(a, a + markdown::longest_tick_run(s))));
        }
    }
}

/// A code block holds its tag and its code between two fences of back ticks, at least three, that do
/// not stand in the code. Where the code has no three back ticks in a row, there are three.
pub proof fn code_blocks_hold_their_code(tag: Seq<char>, code: Seq<char>)
    ensures
        exists|fence: Seq<char>|
            {
                &&& all_ticks(fence)
                &&& fence.len() >= 3
                &&& markdown::code_block(tag, code) == #[trigger] (fence + tag) + "\n"@ + code
                    + "\n"@ + fence + "\n"@
                &&& forall|a: Seq<char>, b: Seq<char>| code != #[trigger] (a + fence + b)
                &&& fence.len() > 3 ==> exists|a: int|
                    0 <= a && a + 3 <= code.len() && all_ticks(#[trigger] code.subrange(a, a + 3))
            },
{
    let fence = markdown::fence(code);
    runs_are_bounded(code);
    let longest = markdown::longest_tick_run(code) as int;
    assert forall|a: Seq<char>, b: Seq<char>| code != #[trigger] (a + fence + b) by {
        if code == a + fence + b {
            let from = a.len() as int;
            let to = from + fence.len();
            assert(code.subrange(from, to) =~= fence);
            assert(all_ticks(code.subrange(from, to)));
        }
    }
    if fence.len() > 3 {
        let a = choose|a: int|
            0 <= a && a + longest <= code.len() && all_ticks(
                #[trigger] code.subrange(a, a + longest),
            );
        let three = code.subrange(a, a + 3);
        assert forall|i: int| 0 <= i < three.len() implies #[trigger] three[i] == '`' by {
            assert(code.subrange(a, a + longest)[i] == '`');
        }
        assert(all_ticks(three));
    }
    assert(markdown::code_block(tag, code) == (fence + tag) + "\n"@ + code + "\n"@ + fence + "\n"@);
}

// ---------------------------------------------------------------------------
// Markdown
// ---------------------------------------------------------------------------

/// Whether a part shows a piece of a user message: a text as it is, the link of a mention with what is
/// mentioned behind it, and a mark for an image.
pub open spec fn shows_user_piece(part: Seq<char>, c: message::UserContentView) -> bool {
    match c {
        message::UserContentView::Text(t) => part == t + "\n"@,
        message::UserContentView::Image(_) => part == "<image />\n"@,
        message::UserContentView::Mention { uri, link, content } => if content.len() == 0 {
            part == link + "\n"@
        } else {
            part == link + "\n\n"@ + content + "\n"@
        },
    }
}

/// Whether a part shows a piece of an agent message: a text as it is, a thought between its marks, and
/// a call with its name, its identifier and its input.
pub open spec fn shows_agent_piece(part: Seq<char>, c: message::AgentContentView) -> bool {
    match c {
        message::AgentContentView::Text(t) => part == t + "\n"@,
        message::AgentContentView::Thinking { text, signature } => part == "<think>"@ + text
            + "</think>\n"@,
        message::AgentContentView::RedactedThinking(_) => part == "<redacted_thinking />\n"@,
        message::AgentContentView::ToolUse(call) => exists|before: Seq<char>, after: Seq<char>|
            part == "**Tool Use**: "@ + call.name + " (ID: "@ + call.id + ")\n"@ + (
            #[trigger] (before + json::pretty_json(call.input) + after)),
    }
}

/// Whether a part shows a tool result: under a heading that names the tool and the call, whether it is
/// an error, then the text as it is or a mark for an image, and the structured output, where there is
/// one.
pub open spec fn shows_result(part: Seq<char>, r: message::ToolResultView) -> bool {
    exists|mark: Seq<char>, body: Seq<char>, output: Seq<char>|
        {
            &&& part == "**Tool Result**: "@ + r.tool_name + " (ID: "@ + r.tool_use_id + ")\n\n"@ + (
            #[trigger] (mark + body + output))
            &&& mark == (if r.is_error {
                "**ERROR:**\n"@
            } else {
                Seq::<char>::empty()
            })
            &&& r.content matches message::ResultContentView::Text(t) ==> body == t + "\n\n"@
            &&& r.content is Image ==> body == "<image />\n\n"@
            &&& r.output is None ==> output.len() == 0
            &&& r.output matches Some(j) ==> exists|a: Seq<char>, b: Seq<char>|
                output == #[trigger] (a + json::pretty_json(j) + b)
        }
}

/// The Markdown form of a user message is a heading and behind it every piece of the message, in order.
pub proof fn user_markdown_shows_all(id: Seq<char>, content: Seq<message::UserContentView>)
    ensures
        exists|parts: Seq<Seq<char>>|
            {
                &&& markdown::message_markdown(message::MessageView::User { id, content })
                    == "## User\n\n"@ + #[trigger] parts.flatten()
                &&& parts.len() == content.len()
                &&& forall|i: int|
                    0 <= i < parts.len() ==> shows_user_piece(#[trigger] parts[i], content[i])
            },
{
    let parts = content.map_values(|c: message::UserContentView| markdown::user_piece(c));
    user_pieces_in_a_row(content);
    assert(markdown::message_markdown(message::MessageView::User { id, content }) == "## User\n\n"@
        + parts.flatten());
    assert forall|i: int| 0 <= i < parts.len() implies shows_user_piece(
        #[trigger] parts[i],
        content[i],
    ) by {
        assert(parts[i] == markdown::user_piece(content[i]));
    }
}

proof fn user_pieces_in_a_row(content: Seq<message::UserContentView>)
    ensures
        markdown::user_pieces(content) == content.map_values(
            |c: message::UserContentView| markdown::user_piece(c),
        ).flatten(),
    decreases content.len(),
{
    let parts = content.map_values(|c: message::UserContentView| markdown::user_piece(c));
    if content.len() == 0 {
        assert(parts.flatten() =~= Seq::empty());
    } else {
        let less = content.drop_last();
        user_pieces_in_a_row(less);
        assert(parts.drop_last() =~= less.map_values(
            |c: message::UserContentView| markdown::user_piece(c),
        ));
        text_laws::flattened_one_by_one(parts);
    }
}

/// The Markdown form of an agent message is a heading, behind it every piece of the message, in order,
/// and behind them every tool result, in order.
pub proof fn agent_markdown_shows_all(
    content: Seq<message::AgentContentView>,
    tool_results: Seq<message::ToolResultView>,
)
    ensures
        exists|said: Seq<Seq<char>>, given: Seq<Seq<char>>|
            {
                &&& markdown::message_markdown(
                    message::MessageView::Agent { content, tool_results },
                ) == "## Assistant\n\n"@ + #[trigger] said.flatten() + #[trigger] given.flatten()
                &&& said.len() == content.len()
                &&& given.len() == tool_results.len()
                &&& forall|i: int|
                    0 <= i < said.len() ==> shows_agent_piece(#[trigger] said[i], content[i])
                &&& forall|i: int|
                    0 <= i < given.len() ==> shows_result(#[trigger] given[i], tool_results[i])
            },
{
    let said = content.map_values(|c: message::AgentContentView| markdown::agent_piece(c));
    let given = tool_results.map_values(|r: message::ToolResultView| markdown::result_piece(r));
    agent_pieces_in_a_row(content);
    result_pieces_in_a_row(tool_results);
    let md = markdown::message_markdown(message::MessageView::Agent { content, tool_results });
    assert(md == "## Assistant\n\n"@ + said.flatten() + given.flatten());
    assert forall|i: int| 0 <= i < said.len() implies shows_agent_piece(
        #[trigger] said[i],
        content[i],
    ) by {
        if let message::AgentContentView::ToolUse(call) = content[i] {
            call_is_shown(call);
        }
    }
    assert forall|i: int| 0 <= i < given.len() implies shows_result(
        #[trigger] given[i],
        tool_results[i],
    ) by {
        result_is_shown(tool_results[i]);
    }
}

proof fn call_is_shown(call: message::ToolUseView)
    ensures
        shows_agent_piece(
            markdown::agent_piece(message::AgentContentView::ToolUse(call)),
            message::AgentContentView::ToolUse(call),
        ),
{
    let input = json::pretty_json(call.input);
    let fence = markdown::fence(input);
    let before = fence + "json"@ + "\n"@;
    let after = "\n"@ + fence + "\n"@ + "\n"@;
    let head = "**Tool Use**: "@ + call.name + " (ID: "@ + call.id + ")\n"@;
    assert(markdown::agent_piece(message::AgentContentView::ToolUse(call)) =~= head + (before + input
        + after));
}

proof fn result_is_shown(r: message::ToolResultView)
    ensures
        shows_result(markdown::result_piece(r), r),
{
    let mark = if r.is_error {
        "**ERROR:**\n"@
    } else {
        Seq::<char>::empty()
    };
    let body = markdown::result_body(r.content);
    let output = markdown::debug_output(r.output);
    if let Some(j) = r.output {
        assert(output == "**Debug Output**:\n\n```json\n"@ + json::pretty_json(j) + "\n```\n\n"@);
    }
    let head = "**Tool Result**: "@ + r.tool_name + " (ID: "@ + r.tool_use_id + ")\n\n"@;
    assert(markdown::result_piece(r) =~= head + (mark + body + output));
}

proof fn agent_pieces_in_a_row(content: Seq<message::AgentContentView>)
    ensures
        markdown::agent_pieces(content) == content.map_values(
            |c: message::AgentContentView| markdown::agent_piece(c),
        ).flatten(),
    decreases content.len(),
{
    let parts = content.map_values(|c: message::AgentContentView| markdown::agent_piece(c));
    if content.len() == 0 {
        assert(parts.flatten() =~= Seq::empty());
    } else {
        let less = content.drop_last();
        agent_pieces_in_a_row(less);
        assert(parts.drop_last() =~= less.map_values(
            |c: message::AgentContentView| markdown::agent_piece(c),
        ));
        text_laws::flattened_one_by_one(parts);
    }
}

proof fn result_pieces_in_a_row(results: Seq<message::ToolResultView>)
    ensures
        markdown::result_pieces(results) == results.map_values(
            |r: message::ToolResultView| markdown::result_piece(r),
        ).flatten(),
    decreases results.len(),
{
    let parts = results.map_values(|r: message::ToolResultView| markdown::result_piece(r));
    if results.len() == 0 {
        assert(parts.flatten() =~= Seq::empty());
    } else {
        let less = results.drop_last();
        result_pieces_in_a_row(less);
        assert(parts.drop_last() =~= less.map_values(
            |r: message::ToolResultView| markdown::result_piece(r),
        ));
        text_laws::flattened_one_by_one(parts);
    }
}

/// The text of a tool result stands in the Markdown form of its message, behind a heading that names
/// the tool and the call.
pub proof fn result_texts_stand_in_the_markdown(
    content: Seq<message::AgentContentView>,
    tool_results: Seq<message::ToolResultView>,
    i: int,
    t: Seq<char>,
)
    requires
        0 <= i < tool_results.len(),
        tool_results[i].content == message::ResultContentView::Text(t),
    ensures
        exists|before: Seq<char>, between: Seq<char>, after: Seq<char>|
            markdown::message_markdown(message::MessageView::Agent { content, tool_results })
                == #[trigger] (before + ("**Tool Result**: "@ + tool_results[i].tool_name + " (ID: "@
                + tool_results[i].tool_use_id + ")\n\n"@) + between + t + after) && (
            between.len() == 0 || between == "**ERROR:**\n"@),
{
    let r = tool_results[i];
    let given = tool_results.map_values(|r: message::ToolResultView| markdown::result_piece(r));
    result_pieces_in_a_row(tool_results);
    parts_stand_in_a_row(given, i);
    assert(given[i] == markdown::result_piece(r));
    let (a, b) = choose|a: Seq<char>, b: Seq<char>| given.flatten() == #[trigger] (a + given[i] + b);
    let before = "## Assistant\n\n"@ + markdown::agent_pieces(content) + a;
    let head = "**Tool Result**: "@ + r.tool_name + " (ID: "@ + r.tool_use_id + ")\n\n"@;
    let between = if r.is_error {
        "**ERROR:**\n"@
    } else {
        Seq::<char>::empty()
    };
    let after = "\n\n"@ + markdown::debug_output(r.output) + b;
    assert(given[i] =~= head + between + t + ("\n\n"@ + markdown::debug_output(r.output)));
    let md = markdown::message_markdown(message::MessageView::Agent { content, tool_results });
    assert(md =~= before + head + between + t + after);
}

/// Every part stands in a row of parts as it is.
pub proof fn parts_stand_in_a_row(parts: Seq<Seq<char>>, i: int)
    requires
        0 <= i < parts.len(),
    ensures
        exists|a: Seq<char>, b: Seq<char>| parts.flatten() == #[trigger] (a + parts[i] + b),
    decreases parts.len(),
{
    let less = parts.drop_last();
    text_laws::flattened_one_by_one(parts);
    if i == parts.len() - 1 {
        assert(parts.flatten() =~= less.flatten() + parts[i] + Seq::<char>::empty());
    } else {
        parts_stand_in_a_row(less, i);
        let (a, b) = choose|a: Seq<char>, b: Seq<char>| less.flatten() == #[trigger] (a + less[i] + b);
        assert(parts.flatten() =~= a + parts[i] + (b + parts.last()));
    }
}

/// The Markdown form of a thread shows every message, in order, with a line feed between each two, and
/// the message that is being written behind them.
pub proof fn thread_markdown_shows_all(t: thread::ThreadView, i: int)
    requires
        0 <= i < t.messages.len(),
    ensures
        exists|a: Seq<char>, b: Seq<char>|
            thread::thread_markdown(t) == #[trigger] (a + markdown::message_markdown(t.messages[i]) + b),
        t.pending matches Some(m) ==> exists|a: Seq<char>|
            thread::thread_markdown(t) == #[trigger] (a + markdown::message_markdown(m)),
{
    let parts = t.messages.map_values(|m: message::MessageView| markdown::message_markdown(m));
    text_laws::joined_parts_are_there(parts, "\n"@, i);
    let (a, b) = choose|a: Seq<char>, b: Seq<char>|
        text::join(parts, "\n"@) == #[trigger] (a + parts[i] + b);
    assert(parts[i] == markdown::message_markdown(t.messages[i]));
    match t.pending {
        Some(m) => {
            let last = markdown::message_markdown(m);
            assert(thread::thread_markdown(t) =~= a + markdown::message_markdown(t.messages[i]) + (b
                + "\n"@ + last));
            assert(thread::thread_markdown(t) == (text::join(parts, "\n"@) + "\n"@) + last);
        },
        None => {
            assert(thread::thread_markdown(t) == a + markdown::message_markdown(t.messages[i]) + b);
        },
    }
}

/// A thread that goes on keeps the Markdown form that it had, with that of the new message behind it.
pub proof fn thread_markdown_grows(t: thread::ThreadView, m: message::MessageView)
    requires
        t.messages.len() > 0,
        t.pending is None,
    ensures
        thread::thread_markdown(thread::ThreadView { messages: t.messages.push(m), ..t })
            == thread::thread_markdown(t) + "\n"@ + markdown::message_markdown(m),
        thread::thread_markdown(
            thread::ThreadView { pending: Some(m), ..t },
        ) == thread::thread_markdown(t) + "\n"@ + markdown::message_markdown(m),
{
    let f = |m: message::MessageView| markdown::message_markdown(m);
    let parts = t.messages.push(m).map_values(f);
    assert(parts.drop_last() =~= t.messages.map_values(f));
}

/// The tag of a code block that shows a file ends with its path and the lines that are shown, counted
/// from one; before the path stands the extension, where the file has one.
pub proof fn tags_name_the_file(path: Seq<char>, range: Option<message::LineRange>)
    ensures
        ({
            let lines = match range {
                None => Seq::<char>::empty(),
                Some(r) => if r.start == r.end {
                    ":"@ + text::decimal((r.start + 1) as nat)
                } else {
                    ":"@ + text::decimal((r.start + 1) as nat) + "-"@ + text::decimal(
                        (r.end + 1) as nat,
                    )
                },
            };
            let tag = markdown::tag_of(path, range);
            &&& crate::paths::extension(path) is None ==> tag == path + lines
            &&& crate::paths::extension(path) matches Some(ext) ==> tag == ext + " "@ + path + lines
        }),
{
}

/// A code span holds its text, every blank as a space, between back ticks of which as many stand nowhere
/// in it.
pub proof fn code_spans_hold_their_text(s: Seq<char>)
    ensures
        exists|ticks: Seq<char>, gap: Seq<char>, line: Seq<char>|
            {
                &&& markdown::inline_code(s) == #[trigger] (ticks + gap + line + gap + ticks)
                &&& all_ticks(ticks)
                &&& ticks.len() >= 1
                &&& gap.len() <= 1
                &&& line.len() == s.len()
                &&& forall|i: int|
                    0 <= i < s.len() ==> #[trigger] line[i] == if text::is_space(s[i]) {
                        ' '
                    } else {
                        s[i]
                    }
                &&& forall|a: Seq<char>, b: Seq<char>| line != #[trigger] (a + ticks + b)
            },
{
    reveal_strlit("`");
    reveal_strlit(" ");
    let line = markdown::spaced(s);
    runs_are_bounded(line);
    if markdown::is_blank(s) {
        let ticks = "`"@;
        let gap = Seq::<char>::empty();
        assert(markdown::inline_code(s) =~= ticks + gap + line + gap + ticks);
        assert forall|a: Seq<char>, b: Seq<char>| line != #[trigger] (a + ticks + b) by {
            if line == a + ticks + b {
                let k = a.len() as int;
                assert((a + ticks + b)[k] == '`');
                assert(line[k] == ' ');
            }
        }
    } else {
        let ticks = Seq::new(markdown::longest_tick_run(line) + 1, |i: int| '`');
        let gap = markdown::span_gap(line);
        assert forall|a: Seq<char>, b: Seq<char>| line != #[trigger] (a + ticks + b) by {
            if line == a + ticks + b {
                let from = a.len() as int;
                let to = from + ticks.len();
                assert(line.subrange(from, to) =~= ticks);
                assert(all_ticks(line.subrange(from, to)));
            }
        }
        assert(markdown::inline_code(s) == ticks + gap + line + gap + ticks);
    }
}

} // verus!
