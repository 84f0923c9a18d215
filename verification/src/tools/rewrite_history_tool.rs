//! Shortening a conversation: a range of its messages is replaced by a marker.

use vstd::prelude::*;
use vstd::utf8::*;

use crate::ids;
use crate::markdown;
use crate::memory;
use crate::message;
use crate::message::{Message, UserMessage, UserMessageContent};
use crate::text;
use crate::thread;
use crate::thread::Thread;
use crate::tools::ToolKind;

verus! {

/// How a range is shortened.
#[derive(Debug, Clone, Copy, PartialEq, Eq, Structural)]
pub enum RewriteStrategy {
    /// The marker says that the range was removed.
    Remove,
    /// The marker holds a summary of the range.
    Summarize,
}

/// The length of a preview where nothing is said, or zero.
pub const DEFAULT_PREVIEW_CHARS: usize = 400;

/// The least length of a preview.
pub const MIN_PREVIEW_CHARS: usize = 40;

/// How many bytes of a line an automatic summary shows.
pub const SUMMARY_LINE_BYTES: usize = 120;

/// What is shortened. The range is inclusive. Where `auto` is set, or no summary is given, the summary
/// of a model is preferred.
#[derive(Debug)]
pub struct RewriteHistoryToolInput {
    pub start_index: usize,
    pub end_index: usize,
    pub strategy: RewriteStrategy,
    pub summary: Option<String>,
    pub max_preview_chars: Option<usize>,
    pub auto: Option<bool>,
}

/// Why a range could not be shortened.
#[derive(Debug, Clone, Copy, PartialEq, Eq, Structural)]
pub enum RewriteError {
    StartAfterEnd { start: usize, end: usize },
    OutOfBounds { end: usize, len: usize },
    ThreadGone,
}

impl RewriteError {
    /// The error in words.
    pub fn message(&self) -> (r: String)
        ensures
            r@ == match self {
                RewriteError::StartAfterEnd { start, end } => "start_index ("@ + text::decimal(
                    *start as nat,
                ) + ") was greater than end_index ("@ + text::decimal(*end as nat) + ")"@,
                RewriteError::OutOfBounds { end, len } => "end_index ("@ + text::decimal(
                    *end as nat,
                ) + ") out of bounds (messages len = "@ + text::decimal(*len as nat) + ")"@,
                RewriteError::ThreadGone => "thread no longer exists"@,
            },
    {
        match self {
            RewriteError::StartAfterEnd { start, end } => {
                let mut out = "start_index (".to_owned();
                out.append(text::count_text(*start).as_str());
                out.append(") was greater than end_index (");
                out.append(text::count_text(*end).as_str());
                out.append(")");
                out
            },
            RewriteError::OutOfBounds { end, len } => {
                let mut out = "end_index (".to_owned();
                out.append(text::count_text(*end).as_str());
                out.append(") out of bounds (messages len = ");
                out.append(text::count_text(*len).as_str());
                out.append(")");
                out
            },
            RewriteError::ThreadGone => "thread no longer exists".to_owned(),
        }
    }
}

/// Why a range cannot be shortened, if it cannot.
pub open spec fn rewrite_error(start: usize, end: usize, len: int) -> Option<RewriteError> {
    if start > end {
        Some(RewriteError::StartAfterEnd { start, end })
    } else if end >= len {
        Some(RewriteError::OutOfBounds { end, len: len as usize })
    } else {
        None
    }
}

/// The Markdown form of a range, with a line feed between each two messages.
pub open spec fn original(messages: Seq<message::MessageView>, start: int, end: int) -> Seq<char> {
    thread::messages_markdown(messages.subrange(start, end + 1))
}

/// The length of a preview: at least the least one.
pub open spec fn preview_length(max_preview_chars: Option<usize>) -> int {
    let wanted = match max_preview_chars {
        Some(n) => if n == 0 {
            DEFAULT_PREVIEW_CHARS as int
        } else {
            n as int
        },
        None => DEFAULT_PREVIEW_CHARS as int,
    };
    if wanted < MIN_PREVIEW_CHARS {
        MIN_PREVIEW_CHARS as int
    } else {
        wanted
    }
}

/// The start of a text, marked where it was cut.
pub open spec fn rewrite_preview(whole: Seq<char>, max: int) -> Seq<char> {
    if whole.len() <= max {
        whole
    } else {
        whole.take(max) + "\n…(truncated)"@
    }
}

/// The first of some lines that is not blank, without the white space at its ends.
pub open spec fn first_line_said(lines: Seq<Seq<char>>) -> Seq<char>
    decreases lines.len(),
{
    if lines.len() == 0 {
        Seq::empty()
    } else if text::trim(lines[0]).len() > 0 {
        text::trim(lines[0])
    } else {
        first_line_said(lines.drop_first())
    }
}

/// The summary of a range that nobody summarised: its first line and the number of its messages.
pub open spec fn heuristic_summary(whole: Seq<char>, count: nat) -> Seq<char> {
    let line = first_line_said(text::lines(whole));
    if line.len() == 0 {
        text::decimal(count) + " message(s)"@
    } else if encode_utf8(line).len() > SUMMARY_LINE_BYTES {
        text::byte_head(line, SUMMARY_LINE_BYTES as int) + "… ("@ + text::decimal(count)
            + " message(s))"@
    } else {
        line + " ("@ + text::decimal(count) + " message(s))"@
    }
}

/// Whether a model is asked for a summary.
pub open spec fn wants_model(
    strategy: RewriteStrategy,
    summary: Option<Seq<char>>,
    auto: Option<bool>,
) -> bool {
    strategy == RewriteStrategy::Summarize && (auto == Some(true) || summary is None)
}

/// The summary of a marker: that of a model where one was asked for and answered, else that of the
/// caller, else an automatic one. A range that is removed has none.
pub open spec fn summary_text(
    strategy: RewriteStrategy,
    summary: Option<Seq<char>>,
    auto: Option<bool>,
    model_summary: Option<Seq<char>>,
    whole: Seq<char>,
    count: nat,
) -> Option<Seq<char>> {
    match strategy {
        RewriteStrategy::Remove => None,
        RewriteStrategy::Summarize => if wants_model(strategy, summary, auto)
            && model_summary is Some {
            model_summary
        } else {
            match summary {
                Some(s) => Some(s),
                None => Some(heuristic_summary(whole, count)),
            }
        },
    }
}

/// What was done to a range.
pub open spec fn strategy_label(strategy: RewriteStrategy) -> Seq<char> {
    match strategy {
        RewriteStrategy::Remove => "removed"@,
        RewriteStrategy::Summarize => "summarized"@,
    }
}

/// The marker that takes the place of a range.
pub open spec fn marker(
    strategy: RewriteStrategy,
    id: Seq<char>,
    start: nat,
    end: nat,
    whole: Seq<char>,
    summary: Option<Seq<char>>,
    max_preview: int,
) -> Seq<char> {
    "[[history_rewrite "@ + strategy_label(strategy) + " id="@ + id + " range="@ + text::decimal(
        start,
    ) + ".."@ + text::decimal(end) + " messages="@ + text::decimal((end - start + 1) as nat)
        + " chars="@ + text::decimal(whole.len()) + "]]\n"@ + (match summary {
        Some(s) => "\nSummary:\n"@ + s + "\n"@,
        None => Seq::empty(),
    }) + "\nPreview:\n"@ + rewrite_preview(whole, max_preview) + "\n"@
        + "\n<details><summary>Original (collapsed)</summary>\n\n```\n"@ + whole
        + "\n```\n</details>\n"@
}

/// What is said of a range that was shortened.
pub open spec fn rewrite_report(
    strategy: RewriteStrategy,
    id: Seq<char>,
    start: nat,
    end: nat,
    whole: Seq<char>,
) -> Seq<char> {
    (match strategy {
        RewriteStrategy::Remove => "Removed "@,
        RewriteStrategy::Summarize => "Summarized "@,
    }) + text::decimal((end - start + 1) as nat) + " message(s) (chars="@ + text::decimal(
        whole.len(),
    ) + ") at indices "@ + text::decimal(start) + ".."@ + text::decimal(end)
        + ". Replacement marker id="@ + id + "."@
}

/// The thread with a range replaced by a message.
pub open spec fn replaced(
    t: thread::ThreadView,
    start: int,
    end: int,
    m: message::MessageView,
) -> thread::ThreadView {
    thread::ThreadView {
        messages: memory::inserted(memory::without(t.messages, start, end), start, seq![m]),
        summary: None,
        ..t
    }
}

/// The marker of a range of a thread.
pub open spec fn marker_of(
    t: thread::ThreadView,
    input: RewriteHistoryToolInput,
    model_summary: Option<Seq<char>>,
    id: Seq<char>,
) -> Seq<char> {
    let start = input.start_index;
    let end = input.end_index;
    let whole = original(t.messages, start as int, end as int);
    marker(
        input.strategy,
        id,
        start as nat,
        end as nat,
        whole,
        summary_text(
            input.strategy,
            text::opt_view(input.summary),
            input.auto,
            model_summary,
            whole,
            (end - start + 1) as nat,
        ),
        preview_length(input.max_preview_chars),
    )
}

/// What was shortened: what is said of it, and the marker.
#[derive(Debug)]
pub struct Rewritten {
    pub report: String,
    pub marker: String,
}

fn original_text(thread: &Thread, start: usize, end: usize) -> (r: String)
    requires
        start <= end < thread.messages@.len(),
    ensures
        r@ == original(thread@.messages, start as int, end as int),
{
    let ghost part = thread@.messages.subrange(start as int, end + 1);
    let mut parts: Vec<String> = Vec::new();
    let len: usize = thread.messages.len();
    assert(end < len);
    let stop: usize = end + 1;
    for i in start..stop
        invariant
            start <= end < thread.messages@.len(),
            stop == end + 1,
            part == thread@.messages.subrange(start as int, end + 1),
            parts@.len() == i - start,
            forall|k: int|
                0 <= k < i - start ==> (#[trigger] parts@[k])@ == markdown::message_markdown(
                    part[k],
                ),
    {
        assert(part[i - start] == thread.messages@[i as int]@);
        parts.push(thread.messages[i].to_markdown());
    }
    assert(text::views(parts@) =~= part.map_values(
        |m: message::MessageView| markdown::message_markdown(m),
    ));
    text::join_texts(&parts, "\n")
}

fn first_line_said_of(lines: &Vec<String>) -> (r: String)
    ensures
        r@ == first_line_said(text::views(lines@)),
{
    let ghost all = text::views(lines@);
    let n: usize = lines.len();
    assert(all.skip(0) =~= all);
    let mut i: usize = 0;
    while i < n
        invariant
            n == lines@.len(),
            all == text::views(lines@),
            i <= n,
            first_line_said(all) == first_line_said(all.skip(i as int)),
        decreases n - i,
    {
        assert(all.skip(i as int)[0] == lines@[i as int]@);
        assert(all.skip(i as int).drop_first() =~= all.skip(i + 1));
        let line = text::trim_text(lines[i].as_str());
        if line.as_str().unicode_len() > 0 {
            return line;
        }
        i = i + 1;
    }
    String::new()
}

fn heuristic_summary_text(whole: &str, count: usize) -> (r: String)
    ensures
        r@ == heuristic_summary(whole@, count as nat),
{
    let line = first_line_said_of(&text::lines_of(whole));
    let number = text::count_text(count);
    if line.as_str().unicode_len() == 0 {
        let mut out = number;
        out.append(" message(s)");
        out
    } else if text::byte_len(line.as_str()) > SUMMARY_LINE_BYTES {
        let mut out = text::byte_head_text(line.as_str(), SUMMARY_LINE_BYTES);
        out.append("… (");
        out.append(number.as_str());
        out.append(" message(s))");
        out
    } else {
        let mut out = line;
        out.append(" (");
        out.append(number.as_str());
        out.append(" message(s))");
        out
    }
}

/// Shortens a conversation.
pub struct RewriteHistoryTool;

impl RewriteHistoryTool {
    /// The name of the tool.
    pub fn name() -> (r: &'static str)
        ensures
            r@ == "rewrite_history"@,
    {
        "rewrite_history"
    }

    /// What the tool does to its subject.
    pub fn kind() -> (r: ToolKind)
        ensures
            r == ToolKind::Other,
    {
        ToolKind::Other
    }

    /// What the tool is for.
    pub fn description() -> (r: String)
        ensures
            r@
                == "Use this tool to shorten/compact conversation history by removing or summarizing an indexed range of messages when nearing context or token limits. Provide inclusive start_index and end_index; choose strategy \"remove\" to drop detail or \"summarize\" to keep a concise representation."@,
    {
        "Use this tool to shorten/compact conversation history by removing or summarizing an indexed range of messages when nearing context or token limits. Provide inclusive start_index and end_index; choose strategy \"remove\" to drop detail or \"summarize\" to keep a concise representation.".to_owned()
    }

    /// The title of a call of the tool. The input is missing where it could not be read.
    pub fn initial_title(input: &Option<RewriteHistoryToolInput>) -> (r: String)
        ensures
            r@ == match input {
                Some(i) => match i.strategy {
                    RewriteStrategy::Remove => "Rewrite (remove) history range"@,
                    RewriteStrategy::Summarize => "Rewrite (summarize) history range"@,
                },
                None => "Rewrite history"@,
            },
    {
        match input {
            Some(i) => match i.strategy {
                RewriteStrategy::Remove => "Rewrite (remove) history range".to_owned(),
                RewriteStrategy::Summarize => "Rewrite (summarize) history range".to_owned(),
            },
            None => "Rewrite history".to_owned(),
        }
    }

    /// Whether a model is asked for a summary before the range is shortened.
    pub fn wants_model_summary(input: &RewriteHistoryToolInput) -> (r: bool)
        ensures
            r == wants_model(input.strategy, text::opt_view(input.summary), input.auto),
    {
        let auto = match input.auto {
            Some(auto) => auto,
            None => false,
        };
        match input.strategy {
            RewriteStrategy::Remove => false,
            RewriteStrategy::Summarize => auto || input.summary.is_none(),
        }
    }

    /// Shortens a range, under given identifiers of the marker and of the message that holds it.
    pub fn rewrite_as(
        thread: &mut Thread,
        input: &RewriteHistoryToolInput,
        model_summary: &Option<String>,
        id: &str,
        message_id: &str,
    ) -> (r: Result<Rewritten, RewriteError>)
        ensures
            match r {
                Ok(done) => rewrite_error(
                    input.start_index,
                    input.end_index,
                    old(thread)@.messages.len() as int,
                ) is None && done.marker@ == marker_of(
                    old(thread)@,
                    *input,
                    text::opt_view(*model_summary),
                    id@,
                ) && done.report@ == rewrite_report(
                    input.strategy,
                    id@,
                    input.start_index as nat,
                    input.end_index as nat,
                    original(
                        old(thread)@.messages,
                        input.start_index as int,
                        input.end_index as int,
                    ),
                ) && final(thread)@ == replaced(
                    old(thread)@,
                    input.start_index as int,
                    input.end_index as int,
                    message::MessageView::User {
                        id: message_id@,
                        content: seq![message::UserContentView::Text(done.marker@)],
                    },
                ),
                Err(e) => rewrite_error(
                    input.start_index,
                    input.end_index,
                    old(thread)@.messages.len() as int,
                ) == Some(e) && final(thread)@ == old(thread)@,
            },
    {
        let start: usize = input.start_index;
        let end: usize = input.end_index;
        let len: usize = thread.messages.len();
        assert(thread@.messages.len() == len);
        if start > end {
            return Err(RewriteError::StartAfterEnd { start, end });
        }
        if end >= len {
            return Err(RewriteError::OutOfBounds { end, len });
        }
        let ghost before = thread@;
        let count: usize = end - start + 1;
        let whole = original_text(thread, start, end);
        let chars = text::to_chars(whole.as_str());
        let whole_chars: usize = chars.len();
        let wanted: usize = match input.max_preview_chars {
            Some(n) => if n == 0 {
                DEFAULT_PREVIEW_CHARS
            } else {
                n
            },
            None => DEFAULT_PREVIEW_CHARS,
        };
        let max_preview: usize = if wanted < MIN_PREVIEW_CHARS {
            MIN_PREVIEW_CHARS
        } else {
            wanted
        };
        let preview = if whole_chars <= max_preview {
            whole.clone()
        } else {
            let mut cut = text::from_range(&chars, 0, max_preview);
            assert(cut@ =~= whole@.take(max_preview as int));
            cut.append("\n…(truncated)");
            cut
        };
        let summary = match input.strategy {
            RewriteStrategy::Remove => None,
            RewriteStrategy::Summarize => {
                let mut said: Option<String> = None;
                if Self::wants_model_summary(input) {
                    if let Some(s) = model_summary {
                        said = Some(s.clone());
                    }
                }
                if said.is_none() {
                    said = match &input.summary {
                        Some(s) => Some(s.clone()),
                        None => Some(heuristic_summary_text(whole.as_str(), count)),
                    };
                }
                said
            },
        };
        let (label, verb) = match input.strategy {
            RewriteStrategy::Remove => ("removed".to_owned(), "Removed ".to_owned()),
            RewriteStrategy::Summarize => ("summarized".to_owned(), "Summarized ".to_owned()),
        };
        let mut said_summary = String::new();
        if let Some(s) = &summary {
            said_summary = "\nSummary:\n".to_owned();
            said_summary.append(s.as_str());
            said_summary.append("\n");
        }

        let mut placeholder = "[[history_rewrite ".to_owned();
        placeholder.append(label.as_str());
        placeholder.append(" id=");
        placeholder.append(id);
        placeholder.append(" range=");
        placeholder.append(text::count_text(start).as_str());
        placeholder.append("..");
        placeholder.append(text::count_text(end).as_str());
        placeholder.append(" messages=");
        placeholder.append(text::count_text(count).as_str());
        placeholder.append(" chars=");
        placeholder.append(text::count_text(whole_chars).as_str());
        placeholder.append("]]\n");
        placeholder.append(said_summary.as_str());
        placeholder.append("\nPreview:\n");
        placeholder.append(preview.as_str());
        placeholder.append("\n");
        placeholder.append("\n<details><summary>Original (collapsed)</summary>\n\n```\n");
        placeholder.append(whole.as_str());
        placeholder.append("\n```\n</details>\n");

        let mut content: Vec<UserMessageContent> = Vec::new();
        content.push(UserMessageContent::Text(placeholder.clone()));
        let replacement = UserMessage { id: message_id.to_owned(), content };
        assert(message::user_views(replacement.content@) =~= seq![
            message::UserContentView::Text(placeholder@),
        ]);
        let ghost replacement_view = replacement@;
        let mut put: Vec<Message> = Vec::new();
        put.push(Message::User(replacement));
        assert(message::message_views(put@) =~= seq![replacement_view]);
        match thread.extract_messages(start, end) {
            Ok(_) => {},
            Err(_) => {
                assert(false);
            },
        }
        thread.insert_messages(start, put);

        let mut report = verb;
        report.append(text::count_text(count).as_str());
        report.append(" message(s) (chars=");
        report.append(text::count_text(whole_chars).as_str());
        report.append(") at indices ");
        report.append(text::count_text(start).as_str());
        report.append("..");
        report.append(text::count_text(end).as_str());
        report.append(". Replacement marker id=");
        report.append(id);
        report.append(".");
        Ok(Rewritten { report, marker: placeholder })
    }

    /// Shortens a range. The marker, and the message that holds it, get fresh identifiers.
    pub fn rewrite(
        thread: &mut Thread,
        input: &RewriteHistoryToolInput,
        model_summary: &Option<String>,
    ) -> (r: Result<Rewritten, RewriteError>)
        ensures
            match r {
                Ok(done) => rewrite_error(
                    input.start_index,
                    input.end_index,
                    old(thread)@.messages.len() as int,
                ) is None && exists|id: Seq<char>, message_id: Seq<char>|
                    #![trigger ids::is_uuid(id), ids::is_uuid(message_id)]
                    ids::is_uuid(id) && ids::is_uuid(message_id) && done.marker@ == marker_of(
                        old(thread)@,
                        *input,
                        text::opt_view(*model_summary),
                        id,
                    ) && done.report@ == rewrite_report(
                        input.strategy,
                        id,
                        input.start_index as nat,
                        input.end_index as nat,
                        original(
                            old(thread)@.messages,
                            input.start_index as int,
                            input.end_index as int,
                        ),
                    ) && final(thread)@ == replaced(
                        old(thread)@,
                        input.start_index as int,
                        input.end_index as int,
                        message::MessageView::User {
                            id: message_id,
                            content: seq![message::UserContentView::Text(done.marker@)],
                        },
                    ),
                Err(e) => rewrite_error(
                    input.start_index,
                    input.end_index,
                    old(thread)@.messages.len() as int,
                ) == Some(e) && final(thread)@ == old(thread)@,
            },
    {
        let id = ids::new_uuid();
        let message_id = ids::new_uuid();
        Self::rewrite_as(thread, input, model_summary, id.as_str(), message_id.as_str())
    }
}

// ---------------------------------------------------------------------------
// Laws
// ---------------------------------------------------------------------------

/// Shortening a range leaves one message in its place, and the others as they were.
pub proof fn rewrite_keeps_the_others(
    t: thread::ThreadView,
    start: int,
    end: int,
    m: message::MessageView,
)
    requires
        0 <= start <= end < t.messages.len(),
    ensures
        ({
            let after = replaced(t, start, end, m).messages;
            &&& after.len() == t.messages.len() - (end - start)
            &&& after.take(start) == t.messages.take(start)
            &&& after[start] == m
            &&& after.skip(start + 1) == t.messages.skip(end + 1)
        }),
{
    let after = replaced(t, start, end, m).messages;
    assert(after.take(start) =~= t.messages.take(start));
    assert(after.skip(start + 1) =~= t.messages.skip(end + 1));
}

/// The marker holds the whole text of the range: what was shortened can still be seen.
pub proof fn marker_holds_the_original(
    strategy: RewriteStrategy,
    id: Seq<char>,
    start: nat,
    end: nat,
    whole: Seq<char>,
    summary: Option<Seq<char>>,
    max_preview: int,
)
    ensures
        text::holds(marker(strategy, id, start, end, whole, summary, max_preview), whole),
{
    let all = marker(strategy, id, start, end, whole, summary, max_preview);
    let tail = "\n```\n</details>\n"@;
    let at = all.len() - tail.len() - whole.len();
    assert(all.subrange(at, at + whole.len()) =~= whole);
    assert(text::stands_at(all, whole, at));
}

} // verus!
