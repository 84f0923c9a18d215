//! The Markdown form of messages.

use vstd::prelude::*;

use crate::json;
use crate::message;
use crate::message::{
    AgentMessage, AgentMessageContent, LineRange, Message, Role, ToolResult, ToolResultContent,
    UserMessage, UserMessageContent,
};
use crate::paths;
use crate::text;

verus! {

// ---------------------------------------------------------------------------
// Code blocks
// ---------------------------------------------------------------------------

/// The length of the run of back ticks at the end of a text.
pub open spec fn tick_run(s: Seq<char>) -> nat
    decreases s.len(),
{
    if s.len() > 0 && s.last() == '`' {
        tick_run(s.drop_last()) + 1
    } else {
        0
    }
}

/// The length of the longest run of back ticks in a text.
pub open spec fn longest_tick_run(s: Seq<char>) -> nat
    decreases s.len(),
{
    if s.len() == 0 {
        0
    } else if tick_run(s) > longest_tick_run(s.drop_last()) {
        tick_run(s)
    } else {
        longest_tick_run(s.drop_last())
    }
}

/// The fence of a code block: three back ticks, or more than stand together in the code.
pub open spec fn fence(code: Seq<char>) -> Seq<char> {
    Seq::new(
        if longest_tick_run(code) < 3 {
            3
        } else {
            longest_tick_run(code) + 1
        },
        |i: int| '`',
    )
}

/// A Markdown code block.
pub open spec fn code_block(tag: Seq<char>, code: Seq<char>) -> Seq<char> {
    fence(code) + tag + "\n"@ + code + "\n"@ + fence(code) + "\n"@
}

fn longest_run(code: &str) -> (longest: usize)
    ensures
        longest == longest_tick_run(code@),
        longest <= code@.len(),
{
    let chars = text::to_chars(code);
    let mut run: usize = 0;
    let mut longest: usize = 0;
    for i in 0..chars.len()
        invariant
            chars@ == code@,
            run == tick_run(code@.take(i as int)),
            longest == longest_tick_run(code@.take(i as int)),
            run <= i,
            longest <= i,
    {
        assert(code@.take(i + 1).drop_last() =~= code@.take(i as int));
        if chars[i] == '`' {
            run = run + 1;
        } else {
            run = 0;
        }
        if run > longest {
            longest = run;
        }
    }
    assert(code@.take(code@.len() as int) =~= code@);
    longest
}

fn push_ticks(out: &mut String, n: usize)
    ensures
        final(out)@ == old(out)@ + Seq::new(n as nat, |i: int| '`'),
{
    let ghost start = out@;
    assert(start + Seq::new(0, |i: int| '`') =~= start);
    for i in 0..n
        invariant
            out@ == start + Seq::new(i as nat, |i: int| '`'),
    {
        out.push('`');
        assert(out@ =~= start + Seq::new((i + 1) as nat, |i: int| '`'));
    }
}

fn fence_text(code: &str) -> (r: String)
    ensures
        r@ == fence(code@),
{
    let longest: usize = longest_run(code);
    let mut out = String::new();
    if longest < 3 {
        push_ticks(&mut out, 3);
    } else {
        push_ticks(&mut out, longest);
        out.push('`');
    }
    assert(out@ =~= fence(code@));
    out
}

/// A text in which every blank is a space.
pub open spec fn spaced(s: Seq<char>) -> Seq<char> {
    s.map_values(
        |c: char|
            if text::is_space(c) {
                ' '
            } else {
                c
            },
    )
}

/// Whether a text is nothing but blanks.
pub open spec fn is_blank(s: Seq<char>) -> bool {
    forall|i: int| 0 <= i < s.len() ==> text::is_space(#[trigger] s[i])
}

/// What parts a code span from its back ticks: a space, where it starts or ends with a back tick, or
/// starts and ends with a space.
pub open spec fn span_gap(s: Seq<char>) -> Seq<char> {
    if s.len() > 0 && (s[0] == '`' || s.last() == '`') {
        " "@
    } else if s.len() > 1 && s[0] == ' ' && s.last() == ' ' {
        " "@
    } else {
        Seq::empty()
    }
}

/// A Markdown code span: between more back ticks than stand together in the text.
pub open spec fn inline_code(s: Seq<char>) -> Seq<char> {
    let line = spaced(s);
    if is_blank(s) {
        "`"@ + line + "`"@
    } else {
        let ticks = Seq::new(longest_tick_run(line) + 1, |i: int| '`');
        ticks + span_gap(line) + line + span_gap(line) + ticks
    }
}

/// A Markdown code span.
pub fn inline_code_text(s: &str) -> (r: String)
    ensures
        r@ == inline_code(s@),
{
    let chars = text::to_chars(s);
    let mut line = String::new();
    let mut blank = true;
    assert(line@ =~= spaced(s@).take(0));
    for i in 0..chars.len()
        invariant
            chars@ == s@,
            line@ == spaced(s@).take(i as int),
            blank == is_blank(s@.take(i as int)),
    {
        let ghost less = s@.take(i as int);
        let ghost more = s@.take(i + 1);
        assert(more =~= less.push(s@[i as int]));
        assert(more[i as int] == s@[i as int]);
        assert(forall|j: int| 0 <= j < i ==> less[j] == #[trigger] more[j]);
        assert(forall|j: int| 0 <= j < i ==> #[trigger] less[j] == more[j]);
        if text::is_space_char(chars[i]) {
            line.push(' ');
        } else {
            line.push(chars[i]);
            blank = false;
        }
        assert(line@ =~= spaced(s@).take(i + 1));
    }
    assert(s@.take(s@.len() as int) =~= s@);
    assert(spaced(s@).take(s@.len() as int) =~= spaced(s@));
    if blank {
        let mut out = "`".to_owned();
        out.append(line.as_str());
        out.append("`");
        return out;
    }
    let n: usize = line.as_str().unicode_len();
    let gap = if n > 0 && (line.as_str().get_char(0) == '`' || line.as_str().get_char(n - 1)
        == '`') {
        " ".to_owned()
    } else if n > 1 && line.as_str().get_char(0) == ' ' && line.as_str().get_char(n - 1) == ' ' {
        " ".to_owned()
    } else {
        String::new()
    };
    assert(gap@ =~= span_gap(line@));
    let mut ticks = String::new();
    push_ticks(&mut ticks, longest_run(line.as_str()));
    ticks.push('`');
    assert(ticks@ =~= Seq::new(longest_tick_run(line@) + 1, |i: int| '`'));
    let mut out = ticks.clone();
    out.append(gap.as_str());
    out.append(line.as_str());
    out.append(gap.as_str());
    out.append(ticks.as_str());
    out
}

/// A Markdown code block.
pub fn code_block_text(tag: &str, code: &str) -> (r: String)
    ensures
        r@ == code_block(tag@, code@),
{
    let mark = fence_text(code);
    let mut out = mark.clone();
    out.append(tag);
    out.append("\n");
    out.append(code);
    out.append("\n");
    out.append(mark.as_str());
    out.append("\n");
    out
}

/// The fence of a code block cannot stand inside its code.
pub proof fn fence_is_longer_than_any_run(code: Seq<char>)
    ensures
        fence(code).len() > longest_tick_run(code),
        fence(code).len() >= 3,
{
}

// ---------------------------------------------------------------------------
// Code blocks of files
// ---------------------------------------------------------------------------

/// The lines that a code block covers, counted from one.
pub open spec fn line_suffix(range: Option<LineRange>) -> Seq<char> {
    match range {
        None => Seq::empty(),
        Some(r) => if r.start == r.end {
            ":"@ + text::decimal((r.start + 1) as nat)
        } else {
            ":"@ + text::decimal((r.start + 1) as nat) + "-"@ + text::decimal((r.end + 1) as nat)
        },
    }
}

/// The tag of a code block that shows lines of a file: the extension, the path and the lines.
pub open spec fn tag_of(path: Seq<char>, range: Option<LineRange>) -> Seq<char> {
    match paths::extension(path) {
        Some(ext) => ext + " "@ + path + line_suffix(range),
        None => path + line_suffix(range),
    }
}

/// The tag of a code block that shows lines of a file.
pub fn codeblock_tag(full_path: &str, line_range: Option<LineRange>) -> (r: String)
    ensures
        r@ == tag_of(full_path@, line_range),
{
    let mut suffix = String::new();
    if let Some(range) = line_range {
        suffix = ":".to_owned();
        suffix.append(text::decimal_text(range.start as u128 + 1).as_str());
        if range.start != range.end {
            suffix.append("-");
            suffix.append(text::decimal_text(range.end as u128 + 1).as_str());
        }
    }
    let mut out = full_path.to_owned();
    if let Some(ext) = paths::extension_of(full_path) {
        out = ext;
        out.append(" ");
        out.append(full_path);
    }
    out.append(suffix.as_str());
    out
}

// ---------------------------------------------------------------------------
// Messages
// ---------------------------------------------------------------------------

/// The Markdown form of one piece of a user message.
pub open spec fn user_piece(c: message::UserContentView) -> Seq<char> {
    match c {
        message::UserContentView::Text(t) => t + "\n"@,
        message::UserContentView::Image(_) => "<image />\n"@,
        message::UserContentView::Mention { uri, link, content } => if content.len() > 0 {
            link + "\n\n"@ + content + "\n"@
        } else {
            link + "\n"@
        },
    }
}

pub open spec fn user_pieces(content: Seq<message::UserContentView>) -> Seq<char>
    decreases content.len(),
{
    if content.len() == 0 {
        Seq::empty()
    } else {
        user_pieces(content.drop_last()) + user_piece(content.last())
    }
}

/// The Markdown form of one piece of an agent message.
pub open spec fn agent_piece(c: message::AgentContentView) -> Seq<char> {
    match c {
        message::AgentContentView::Text(t) => t + "\n"@,
        message::AgentContentView::Thinking { text, signature } => "<think>"@ + text
            + "</think>\n"@,
        message::AgentContentView::RedactedThinking(_) => "<redacted_thinking />\n"@,
        message::AgentContentView::ToolUse(tool_use) => "**Tool Use**: "@ + tool_use.name
            + " (ID: "@ + tool_use.id + ")\n"@ + code_block(
            "json"@,
            json::pretty_json(tool_use.input),
        ) + "\n"@,
    }
}

pub open spec fn agent_pieces(content: Seq<message::AgentContentView>) -> Seq<char>
    decreases content.len(),
{
    if content.len() == 0 {
        Seq::empty()
    } else {
        agent_pieces(content.drop_last()) + agent_piece(content.last())
    }
}

/// The Markdown form of what a tool gave back.
pub open spec fn result_body(c: message::ResultContentView) -> Seq<char> {
    match c {
        message::ResultContentView::Text(t) => t + "\n\n"@,
        message::ResultContentView::Image(_) => "<image />\n\n"@,
    }
}

/// The Markdown form of the structured output of a tool, where there is one.
pub open spec fn debug_output(output: Option<json::JsonView>) -> Seq<char> {
    match output {
        Some(j) => "**Debug Output**:\n\n```json\n"@ + json::pretty_json(j) + "\n```\n\n"@,
        None => Seq::empty(),
    }
}

/// The Markdown form of a tool result.
pub open spec fn result_piece(r: message::ToolResultView) -> Seq<char> {
    "**Tool Result**: "@ + r.tool_name + " (ID: "@ + r.tool_use_id + ")\n\n"@ + (if r.is_error {
        "**ERROR:**\n"@
    } else {
        Seq::empty()
    }) + result_body(r.content) + debug_output(r.output)
}

pub open spec fn result_pieces(results: Seq<message::ToolResultView>) -> Seq<char>
    decreases results.len(),
{
    if results.len() == 0 {
        Seq::empty()
    } else {
        result_pieces(results.drop_last()) + result_piece(results.last())
    }
}

/// The Markdown form of a message.
pub open spec fn message_markdown(m: message::MessageView) -> Seq<char> {
    match m {
        message::MessageView::User { id, content } => "## User\n\n"@ + user_pieces(content),
        message::MessageView::Agent { content, tool_results } => "## Assistant\n\n"@
            + agent_pieces(content) + result_pieces(tool_results),
        message::MessageView::Resume => "[resume]\n"@,
    }
}

impl UserMessageContent {
    fn markdown(&self) -> (r: String)
        ensures
            r@ == user_piece(self@),
    {
        match self {
            UserMessageContent::Text(t) => {
                let mut out = t.clone();
                out.append("\n");
                out
            },
            UserMessageContent::Image(_) => "<image />\n".to_owned(),
            UserMessageContent::Mention { uri: _, link, content } => {
                let mut out = link.clone();
                if !content.as_str().is_empty() {
                    out.append("\n\n");
                    out.append(content.as_str());
                }
                out.append("\n");
                out
            },
        }
    }
}

impl UserMessage {
    /// The Markdown form of the message.
    pub fn to_markdown(&self) -> (r: String)
        ensures
            r@ == message_markdown(self@),
    {
        let mut pieces = String::new();
        let ghost all = message::user_views(self.content@);
        for i in 0..self.content.len()
            invariant
                all == message::user_views(self.content@),
                pieces@ == user_pieces(all.take(i as int)),
        {
            let piece = self.content[i].markdown();
            assert(all.take(i + 1).drop_last() =~= all.take(i as int));
            assert(all.take(i + 1).last() == self.content@[i as int]@);
            pieces.append(piece.as_str());
        }
        assert(all.take(all.len() as int) =~= all);
        let mut markdown = "## User\n\n".to_owned();
        markdown.append(pieces.as_str());
        markdown
    }
}

impl AgentMessageContent {
    fn markdown(&self) -> (r: String)
        ensures
            r@ == agent_piece(self@),
    {
        match self {
            AgentMessageContent::Text(t) => {
                let mut out = t.clone();
                out.append("\n");
                out
            },
            AgentMessageContent::Thinking { text, signature: _ } => {
                let mut out = "<think>".to_owned();
                out.append(text.as_str());
                out.append("</think>\n");
                out
            },
            AgentMessageContent::RedactedThinking(_) => "<redacted_thinking />\n".to_owned(),
            AgentMessageContent::ToolUse(tool_use) => {
                let mut out = "**Tool Use**: ".to_owned();
                out.append(tool_use.name.as_str());
                out.append(" (ID: ");
                out.append(tool_use.id.as_str());
                out.append(")\n");
                let input = json::to_string_pretty(&tool_use.input);
                out.append(code_block_text("json", input.as_str()).as_str());
                out.append("\n");
                out
            },
        }
    }
}

impl ToolResult {
    fn markdown(&self) -> (r: String)
        ensures
            r@ == result_piece(self@),
    {
        let mut out = "**Tool Result**: ".to_owned();
        out.append(self.tool_name.as_str());
        out.append(" (ID: ");
        out.append(self.tool_use_id.as_str());
        out.append(")\n\n");
        if self.is_error {
            out.append("**ERROR:**\n");
        }
        let body = match &self.content {
            ToolResultContent::Text(t) => {
                let mut body = t.clone();
                body.append("\n\n");
                body
            },
            ToolResultContent::Image(_) => "<image />\n\n".to_owned(),
        };
        out.append(body.as_str());
        if let Some(output) = &self.output {
            let mut debug = "**Debug Output**:\n\n```json\n".to_owned();
            debug.append(json::to_string_pretty(output).as_str());
            debug.append("\n```\n\n");
            out.append(debug.as_str());
        }
        assert(out@ =~= result_piece(self@));
        out
    }
}

impl AgentMessage {
    /// The Markdown form of the message.
    pub fn to_markdown(&self) -> (r: String)
        ensures
            r@ == message_markdown(self@),
    {
        let mut pieces = String::new();
        let ghost all = message::agent_views(self.content@);
        for i in 0..self.content.len()
            invariant
                all == message::agent_views(self.content@),
                pieces@ == agent_pieces(all.take(i as int)),
        {
            let piece = self.content[i].markdown();
            assert(all.take(i + 1).drop_last() =~= all.take(i as int));
            assert(all.take(i + 1).last() == self.content@[i as int]@);
            pieces.append(piece.as_str());
        }
        assert(all.take(all.len() as int) =~= all);
        let mut results = String::new();
        let ghost given = message::result_views(self.tool_results@);
        for i in 0..self.tool_results.len()
            invariant
                given == message::result_views(self.tool_results@),
                results@ == result_pieces(given.take(i as int)),
        {
            let piece = self.tool_results[i].markdown();
            assert(given.take(i + 1).drop_last() =~= given.take(i as int));
            assert(given.take(i + 1).last() == self.tool_results@[i as int]@);
            results.append(piece.as_str());
        }
        assert(given.take(given.len() as int) =~= given);
        let mut markdown = "## Assistant\n\n".to_owned();
        markdown.append(pieces.as_str());
        markdown.append(results.as_str());
        markdown
    }
}

/// Who speaks in a message.
pub open spec fn role_of(m: message::MessageView) -> Role {
    match m {
        message::MessageView::Agent { content, tool_results } => Role::Assistant,
        _ => Role::User,
    }
}

impl Message {
    /// The Markdown form of the message.
    pub fn to_markdown(&self) -> (r: String)
        ensures
            r@ == message_markdown(self@),
    {
        match self {
            Message::User(m) => m.to_markdown(),
            Message::Agent(m) => m.to_markdown(),
            Message::Resume => "[resume]\n".to_owned(),
        }
    }

    /// Who speaks in the message.
    pub fn role(&self) -> (r: Role)
        ensures
            r == role_of(self@),
    {
        match self {
            Message::User(_) => Role::User,
            Message::Resume => Role::User,
            Message::Agent(_) => Role::Assistant,
        }
    }

    /// The message as one of the agent, where it is one.
    pub fn as_agent_message(&self) -> (r: Option<&AgentMessage>)
        ensures
            match r {
                Some(m) => *self == Message::Agent(*m),
                None => !(self is Agent),
            },
    {
        match self {
            Message::Agent(m) => Some(m),
            _ => None,
        }
    }
}

} // verus!
