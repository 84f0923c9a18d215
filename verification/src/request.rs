//! The form in which the messages of a conversation are handed to a model.

use vstd::prelude::*;

use crate::markdown;
use crate::message;
use crate::message::{
    AgentMessage, AgentMessageContent, MentionUri, Message, MessageContent, RequestMessage, Role,
    ToolResult, ToolResultContent, UserMessage, UserMessageContent,
};
use crate::text;

verus! {

/// What an empty tool result is replaced by: a model takes an empty one for a missing one.
pub const EMPTY_TOOL_RESULT: &'static str = "<Tool returned an empty string>";

/// What a model is told when a turn is resumed.
pub const RESUME_TEXT: &'static str = "Continue where you left off";

/// The sections of the context that a user attached, in the order in which they are sent.
#[derive(Debug, Clone, Copy, PartialEq, Eq, Structural)]
pub enum Section {
    Files,
    Directories,
    Symbols,
    Selections,
    Threads,
    FetchedUrls,
    Rules,
}

/// The text that opens a section.
pub open spec fn section_open(section: Section) -> Seq<char> {
    match section {
        Section::Files => "<files>"@,
        Section::Directories => "<directories>"@,
        Section::Symbols => "<symbols>"@,
        Section::Selections => "<selections>"@,
        Section::Threads => "<threads>"@,
        Section::FetchedUrls => "<fetched_urls>"@,
        Section::Rules =>
            "<rules>\nThe user has specified the following rules that should be applied:\n"@,
    }
}

/// The text that closes a section.
pub open spec fn section_close(section: Section) -> Seq<char> {
    match section {
        Section::Files => "</files>\n"@,
        Section::Directories => "</directories>\n"@,
        Section::Symbols => "</symbols>\n"@,
        Section::Selections => "</selections>\n"@,
        Section::Threads => "</threads>\n"@,
        Section::FetchedUrls => "</fetched_urls>\n"@,
        Section::Rules => "</user_rules>\n"@,
    }
}

/// The section that a mention goes to; a pasted image goes to none.
pub open spec fn section_of(uri: message::MentionView) -> Option<Section> {
    match uri {
        message::MentionView::File { abs_path } => Some(Section::Files),
        message::MentionView::PastedImage => None,
        message::MentionView::Directory => Some(Section::Directories),
        message::MentionView::Symbol { abs_path, line_range } => Some(Section::Symbols),
        message::MentionView::Selection { abs_path, line_range } => Some(Section::Selections),
        message::MentionView::Thread => Some(Section::Threads),
        message::MentionView::TextThread => Some(Section::Threads),
        message::MentionView::Rule => Some(Section::Rules),
        message::MentionView::Fetch { url } => Some(Section::FetchedUrls),
    }
}

/// How the content of a mention is written in its section.
pub open spec fn section_entry(uri: message::MentionView, content: Seq<char>) -> Seq<char> {
    match uri {
        message::MentionView::File { abs_path } => "\n"@ + markdown::code_block(
            markdown::tag_of(abs_path, None),
            content,
        ),
        message::MentionView::PastedImage => Seq::empty(),
        message::MentionView::Directory => "\n"@ + content + "\n"@,
        message::MentionView::Symbol { abs_path, line_range } => "\n"@ + markdown::code_block(
            markdown::tag_of(abs_path, Some(line_range)),
            content,
        ),
        message::MentionView::Selection { abs_path, line_range } => "\n"@ + markdown::code_block(
            markdown::tag_of(
                match abs_path {
                    Some(path) => path,
                    None => "Untitled"@,
                },
                Some(line_range),
            ),
            content,
        ),
        message::MentionView::Thread => "\n"@ + content + "\n"@,
        message::MentionView::TextThread => "\n"@ + content + "\n"@,
        message::MentionView::Rule => "\n"@ + markdown::code_block(""@, content),
        message::MentionView::Fetch { url } => "\nFetch: "@ + url + "\n\n"@ + content,
    }
}

/// What a piece of a user message adds to a section.
pub open spec fn section_part(c: message::UserContentView, section: Section) -> Seq<char> {
    match c {
        message::UserContentView::Mention { uri, link, content } => if section_of(uri) == Some(
            section,
        ) {
            section_entry(uri, content)
        } else {
            Seq::empty()
        },
        _ => Seq::empty(),
    }
}

/// The body of a section.
pub open spec fn section_body(
    content: Seq<message::UserContentView>,
    section: Section,
) -> Seq<char>
    decreases content.len(),
{
    if content.len() == 0 {
        Seq::empty()
    } else {
        section_body(content.drop_last(), section) + section_part(content.last(), section)
    }
}

/// The sections in their order.
pub open spec fn section_order() -> Seq<Section> {
    seq![
        Section::Files,
        Section::Directories,
        Section::Symbols,
        Section::Selections,
        Section::Threads,
        Section::FetchedUrls,
        Section::Rules,
    ]
}

/// The sections with a body, among the given ones, each as a text of its own.
pub open spec fn filled_sections(
    content: Seq<message::UserContentView>,
    sections: Seq<Section>,
) -> Seq<message::ContentView>
    decreases sections.len(),
{
    if sections.len() == 0 {
        Seq::empty()
    } else {
        let before = filled_sections(content, sections.drop_last());
        let section = sections.last();
        let body = section_body(content, section);
        if body.len() > 0 {
            before.push(
                message::ContentView::Text(section_open(section) + body + section_close(section)),
            )
        } else {
            before
        }
    }
}

/// How a piece of a user message is sent where it stands.
pub open spec fn user_chunk(c: message::UserContentView) -> message::ContentView {
    match c {
        message::UserContentView::Text(t) => message::ContentView::Text(t),
        message::UserContentView::Image(image) => message::ContentView::Image(image),
        message::UserContentView::Mention { uri, link, content } => message::ContentView::Text(
            link,
        ),
    }
}

/// The text before the first section.
pub open spec fn context_open() -> Seq<char> {
    "<context>\nThe following items were attached by the user. They are up-to-date and don't need to be re-read.\n\n"@
}

/// A user message as a request: its pieces, and behind them what the mentions attach, if anything.
pub open spec fn user_request(content: Seq<message::UserContentView>) -> message::RequestView {
    let chunks = content.map_values(|c: message::UserContentView| user_chunk(c));
    let sections = filled_sections(content, section_order());
    message::RequestView {
        role: Role::User,
        content: if sections.len() > 0 {
            chunks.push(message::ContentView::Text(context_open())) + sections.push(
                message::ContentView::Text("</context>"@),
            )
        } else {
            chunks
        },
        cache: false,
    }
}

fn section_open_text(section: Section) -> (r: String)
    ensures
        r@ == section_open(section),
{
    match section {
        Section::Files => "<files>".to_owned(),
        Section::Directories => "<directories>".to_owned(),
        Section::Symbols => "<symbols>".to_owned(),
        Section::Selections => "<selections>".to_owned(),
        Section::Threads => "<threads>".to_owned(),
        Section::FetchedUrls => "<fetched_urls>".to_owned(),
        Section::Rules =>
            "<rules>\nThe user has specified the following rules that should be applied:\n".to_owned(),
    }
}

fn section_close_text(section: Section) -> (r: String)
    ensures
        r@ == section_close(section),
{
    match section {
        Section::Files => "</files>\n".to_owned(),
        Section::Directories => "</directories>\n".to_owned(),
        Section::Symbols => "</symbols>\n".to_owned(),
        Section::Selections => "</selections>\n".to_owned(),
        Section::Threads => "</threads>\n".to_owned(),
        Section::FetchedUrls => "</fetched_urls>\n".to_owned(),
        Section::Rules => "</user_rules>\n".to_owned(),
    }
}

fn section_of_uri(uri: &MentionUri) -> (r: Option<Section>)
    ensures
        r == section_of(uri@),
{
    match uri {
        MentionUri::File { abs_path: _ } => Some(Section::Files),
        MentionUri::PastedImage => None,
        MentionUri::Directory => Some(Section::Directories),
        MentionUri::Symbol { abs_path: _, line_range: _ } => Some(Section::Symbols),
        MentionUri::Selection { abs_path: _, line_range: _ } => Some(Section::Selections),
        MentionUri::Thread => Some(Section::Threads),
        MentionUri::TextThread => Some(Section::Threads),
        MentionUri::Rule => Some(Section::Rules),
        MentionUri::Fetch { url: _ } => Some(Section::FetchedUrls),
    }
}

fn section_entry_text(uri: &MentionUri, content: &str) -> (r: String)
    ensures
        r@ == section_entry(uri@, content@),
{
    let mut out = "\n".to_owned();
    match uri {
        MentionUri::File { abs_path } => {
            let tag = markdown::codeblock_tag(abs_path.as_str(), None);
            out.append(markdown::code_block_text(tag.as_str(), content).as_str());
            out
        },
        MentionUri::PastedImage => String::new(),
        MentionUri::Symbol { abs_path, line_range } => {
            let tag = markdown::codeblock_tag(abs_path.as_str(), Some(*line_range));
            out.append(markdown::code_block_text(tag.as_str(), content).as_str());
            out
        },
        MentionUri::Selection { abs_path, line_range } => {
            let path = match abs_path {
                Some(path) => path.clone(),
                None => "Untitled".to_owned(),
            };
            let tag = markdown::codeblock_tag(path.as_str(), Some(*line_range));
            out.append(markdown::code_block_text(tag.as_str(), content).as_str());
            out
        },
        MentionUri::Rule => {
            out.append(markdown::code_block_text("", content).as_str());
            out
        },
        MentionUri::Fetch { url } => {
            let mut fetched = "\nFetch: ".to_owned();
            fetched.append(url.as_str());
            fetched.append("\n\n");
            fetched.append(content);
            fetched
        },
        MentionUri::Directory | MentionUri::Thread | MentionUri::TextThread => {
            out.append(content);
            out.append("\n");
            out
        },
    }
}

fn section_body_text(content: &Vec<UserMessageContent>, section: Section) -> (r: String)
    ensures
        r@ == section_body(message::user_views(content@), section),
{
    let mut body = String::new();
    let ghost all = message::user_views(content@);
    for i in 0..content.len()
        invariant
            all == message::user_views(content@),
            body@ == section_body(all.take(i as int), section),
    {
        assert(all.take(i + 1).drop_last() =~= all.take(i as int));
        assert(all.take(i + 1).last() == content@[i as int]@);
        match &content[i] {
            UserMessageContent::Mention { uri, link: _, content: attached } => {
                if section_of_uri(uri) == Some(section) {
                    body.append(section_entry_text(uri, attached.as_str()).as_str());
                }
            },
            _ => {},
        }
        assert(body@ =~= section_body(all.take(i + 1), section));
    }
    assert(all.take(all.len() as int) =~= all);
    body
}

fn push_section(
    out: &mut Vec<MessageContent>,
    content: &Vec<UserMessageContent>,
    section: Section,
    Ghost(before): Ghost<Seq<Section>>,
)
    requires
        message::content_views(old(out)@) == filled_sections(
            message::user_views(content@),
            before,
        ),
    ensures
        message::content_views(final(out)@) == filled_sections(
            message::user_views(content@),
            before.push(section),
        ),
{
    assert(before.push(section).drop_last() =~= before);
    let body = section_body_text(content, section);
    if !body.as_str().is_empty() {
        let mut whole = section_open_text(section);
        whole.append(body.as_str());
        whole.append(section_close_text(section).as_str());
        let ghost seen = out@;
        out.push(MessageContent::Text(whole));
        assert(message::content_views(out@) =~= message::content_views(seen).push(
            message::ContentView::Text(whole@),
        ));
    }
}

fn sections_of(content: &Vec<UserMessageContent>) -> (r: Vec<MessageContent>)
    ensures
        message::content_views(r@) == filled_sections(
            message::user_views(content@),
            section_order(),
        ),
{
    let mut out: Vec<MessageContent> = Vec::new();
    let ghost s0 = Seq::<Section>::empty();
    assert(message::content_views(out@) =~= filled_sections(message::user_views(content@), s0));
    push_section(&mut out, content, Section::Files, Ghost(s0));
    let ghost s1 = s0.push(Section::Files);
    push_section(&mut out, content, Section::Directories, Ghost(s1));
    let ghost s2 = s1.push(Section::Directories);
    push_section(&mut out, content, Section::Symbols, Ghost(s2));
    let ghost s3 = s2.push(Section::Symbols);
    push_section(&mut out, content, Section::Selections, Ghost(s3));
    let ghost s4 = s3.push(Section::Selections);
    push_section(&mut out, content, Section::Threads, Ghost(s4));
    let ghost s5 = s4.push(Section::Threads);
    push_section(&mut out, content, Section::FetchedUrls, Ghost(s5));
    let ghost s6 = s5.push(Section::FetchedUrls);
    push_section(&mut out, content, Section::Rules, Ghost(s6));
    assert(s6.push(Section::Rules) =~= section_order());
    out
}

impl UserMessage {
    /// The message as a request.
    pub fn to_request(&self) -> (r: RequestMessage)
        ensures
            r@ == user_request(message::user_views(self.content@)),
    {
        let ghost all = message::user_views(self.content@);
        let ghost chunks = all.map_values(|c: message::UserContentView| user_chunk(c));
        let mut content: Vec<MessageContent> = Vec::new();
        for i in 0..self.content.len()
            invariant
                all == message::user_views(self.content@),
                chunks == all.map_values(|c: message::UserContentView| user_chunk(c)),
                message::content_views(content@) == chunks.take(i as int),
        {
            let chunk = match &self.content[i] {
                UserMessageContent::Text(t) => MessageContent::Text(t.clone()),
                UserMessageContent::Image(image) => MessageContent::Image(image.copy()),
                UserMessageContent::Mention { uri: _, link, content: _ } => MessageContent::Text(
                    link.clone(),
                ),
            };
            assert(chunk@ == chunks[i as int]);
            let ghost seen = content@;
            content.push(chunk);
            assert(message::content_views(content@) =~= message::content_views(seen).push(chunk@));
            assert(chunks.take(i + 1) =~= chunks.take(i as int).push(chunks[i as int]));
        }
        assert(chunks.take(chunks.len() as int) =~= chunks);
        let mut sections = sections_of(&self.content);
        assert(message::content_views(sections@).len() == sections@.len());
        if sections.len() > 0 {
            let ghost filled = message::content_views(sections@);
            content.push(
                MessageContent::Text(
                    "<context>\nThe following items were attached by the user. They are up-to-date and don't need to be re-read.\n\n".to_owned(),
                ),
            );
            content.append(&mut sections);
            content.push(MessageContent::Text("</context>".to_owned()));
            assert(message::content_views(content@) =~= chunks.push(
                message::ContentView::Text(context_open()),
            ) + filled.push(message::ContentView::Text("</context>"@)));
        }
        RequestMessage { role: Role::User, content, cache: false }
    }
}

// ---------------------------------------------------------------------------
// Agent messages
// ---------------------------------------------------------------------------

/// Whether a call of a tool has a result.
pub open spec fn has_result(results: Seq<message::ToolResultView>, id: Seq<char>) -> bool {
    exists|i: int| 0 <= i < results.len() && (#[trigger] results[i]).tool_use_id == id
}

/// How a piece of an agent message is sent, if at all: a call without a result is not.
pub open spec fn agent_chunk(
    c: message::AgentContentView,
    results: Seq<message::ToolResultView>,
) -> Option<message::ContentView> {
    match c {
        message::AgentContentView::Text(t) => Some(message::ContentView::Text(t)),
        message::AgentContentView::Thinking { text, signature } => Some(
            message::ContentView::Thinking { text, signature },
        ),
        message::AgentContentView::RedactedThinking(t) => Some(
            message::ContentView::RedactedThinking(t),
        ),
        message::AgentContentView::ToolUse(tool_use) => if has_result(results, tool_use.id) {
            Some(message::ContentView::ToolUse(tool_use))
        } else {
            None
        },
    }
}

pub open spec fn agent_chunks(
    content: Seq<message::AgentContentView>,
    results: Seq<message::ToolResultView>,
) -> Seq<message::ContentView>
    decreases content.len(),
{
    if content.len() == 0 {
        Seq::empty()
    } else {
        let before = agent_chunks(content.drop_last(), results);
        match agent_chunk(content.last(), results) {
            Some(c) => before.push(c),
            None => before,
        }
    }
}

/// A tool result as it is sent: never empty.
pub open spec fn sent_result(r: message::ToolResultView) -> message::ToolResultView {
    match r.content {
        message::ResultContentView::Text(t) => if t.len() == 0 {
            message::ToolResultView {
                content: message::ResultContentView::Text(EMPTY_TOOL_RESULT@),
                ..r
            }
        } else {
            r
        },
        _ => r,
    }
}

/// An agent message as requests: what the agent wrote, then what its tools gave back; each is left
/// out where it is empty.
pub open spec fn agent_requests(
    content: Seq<message::AgentContentView>,
    results: Seq<message::ToolResultView>,
) -> Seq<message::RequestView> {
    let said = message::RequestView {
        role: Role::Assistant,
        content: agent_chunks(content, results),
        cache: false,
    };
    let given = message::RequestView {
        role: Role::User,
        content: results.map_values(
            |r: message::ToolResultView| message::ContentView::ToolResult(sent_result(r)),
        ),
        cache: false,
    };
    (if said.content.len() > 0 {
        seq![said]
    } else {
        Seq::empty()
    }) + (if given.content.len() > 0 {
        seq![given]
    } else {
        Seq::empty()
    })
}

/// Whether the results hold one for a call.
pub fn results_hold(results: &Vec<ToolResult>, id: &str) -> (r: bool)
    ensures
        r == has_result(message::result_views(results@), id@),
{
    for i in 0..results.len()
        invariant
            forall|k: int| 0 <= k < i ==> (#[trigger] results@[k]).tool_use_id@ != id@,
    {
        if text::same(results[i].tool_use_id.as_str(), id) {
            assert(message::result_views(results@)[i as int].tool_use_id == id@);
            return true;
        }
    }
    assert forall|k: int| 0 <= k < message::result_views(results@).len() implies (
    #[trigger] message::result_views(results@)[k]).tool_use_id != id@ by {
        assert(results@[k].tool_use_id@ != id@);
    }
    false
}

impl AgentMessage {
    /// The message as requests.
    pub fn to_request(&self) -> (r: Vec<RequestMessage>)
        ensures
            message::request_views(r@) == agent_requests(
                message::agent_views(self.content@),
                message::result_views(self.tool_results@),
            ),
    {
        let ghost all = message::agent_views(self.content@);
        let ghost results = message::result_views(self.tool_results@);
        let mut said: Vec<MessageContent> = Vec::new();
        assert(message::content_views(said@) =~= agent_chunks(all.take(0), results));
        for i in 0..self.content.len()
            invariant
                all == message::agent_views(self.content@),
                results == message::result_views(self.tool_results@),
                message::content_views(said@) == agent_chunks(all.take(i as int), results),
        {
            assert(all.take(i + 1).drop_last() =~= all.take(i as int));
            assert(all.take(i + 1).last() == self.content@[i as int]@);
            let ghost seen = said@;
            let chunk = match &self.content[i] {
                AgentMessageContent::Text(t) => Some(MessageContent::Text(t.clone())),
                AgentMessageContent::Thinking { text, signature } => Some(
                    MessageContent::Thinking {
                        text: text.clone(),
                        signature: match signature {
                            Some(s) => Some(s.clone()),
                            None => None,
                        },
                    },
                ),
                AgentMessageContent::RedactedThinking(t) => Some(
                    MessageContent::RedactedThinking(t.clone()),
                ),
                AgentMessageContent::ToolUse(tool_use) => {
                    if results_hold(&self.tool_results, tool_use.id.as_str()) {
                        Some(MessageContent::ToolUse(tool_use.copy()))
                    } else {
                        None
                    }
                },
            };
            if let Some(c) = chunk {
                said.push(c);
                assert(message::content_views(said@) =~= message::content_views(seen).push(c@));
            }
        }
        assert(all.take(all.len() as int) =~= all);

        let ghost sent = results.map_values(
            |r: message::ToolResultView| message::ContentView::ToolResult(sent_result(r)),
        );
        let mut given: Vec<MessageContent> = Vec::new();
        for i in 0..self.tool_results.len()
            invariant
                results == message::result_views(self.tool_results@),
                sent == results.map_values(
                    |r: message::ToolResultView| message::ContentView::ToolResult(sent_result(r)),
                ),
                message::content_views(given@) == sent.take(i as int),
        {
            let mut result = self.tool_results[i].copy();
            let empty = match &result.content {
                ToolResultContent::Text(t) => t.as_str().is_empty(),
                ToolResultContent::Image(_) => false,
            };
            if empty {
                result.content = ToolResultContent::Text(EMPTY_TOOL_RESULT.to_owned());
            }
            assert(result@ == sent_result(results[i as int]));
            let ghost seen = given@;
            given.push(MessageContent::ToolResult(result));
            assert(message::content_views(given@) =~= message::content_views(seen).push(
                message::ContentView::ToolResult(result@),
            ));
            assert(sent.take(i + 1) =~= sent.take(i as int).push(sent[i as int]));
        }
        assert(sent.take(sent.len() as int) =~= sent);

        let mut messages: Vec<RequestMessage> = Vec::new();
        assert(message::content_views(said@).len() == said@.len());
        assert(message::content_views(given@).len() == given@.len());
        if said.len() > 0 {
            messages.push(RequestMessage { role: Role::Assistant, content: said, cache: false });
        }
        if given.len() > 0 {
            messages.push(RequestMessage { role: Role::User, content: given, cache: false });
        }
        assert(message::request_views(messages@) =~= agent_requests(all, results));
        messages
    }
}

/// A message as requests.
pub open spec fn message_requests(m: message::MessageView) -> Seq<message::RequestView> {
    match m {
        message::MessageView::User { id, content } => seq![user_request(content)],
        message::MessageView::Agent { content, tool_results } => agent_requests(
            content,
            tool_results,
        ),
        message::MessageView::Resume => seq![
            message::RequestView {
                role: Role::User,
                content: seq![message::ContentView::Text(RESUME_TEXT@)],
                cache: false,
            },
        ],
    }
}

impl Message {
    /// The message as requests.
    pub fn to_request(&self) -> (r: Vec<RequestMessage>)
        ensures
            message::request_views(r@) == message_requests(self@),
    {
        let mut out: Vec<RequestMessage> = Vec::new();
        match self {
            Message::User(m) => {
                out.push(m.to_request());
                assert(message::request_views(out@) =~= message_requests(self@));
                out
            },
            Message::Agent(m) => m.to_request(),
            Message::Resume => {
                let mut content: Vec<MessageContent> = Vec::new();
                content.push(MessageContent::Text(RESUME_TEXT.to_owned()));
                assert(message::content_views(content@) =~= seq![
                    message::ContentView::Text(RESUME_TEXT@),
                ]);
                out.push(RequestMessage { role: Role::User, content, cache: false });
                assert(message::request_views(out@) =~= message_requests(self@));
                out
            },
        }
    }
}

// ---------------------------------------------------------------------------
// Laws
// ---------------------------------------------------------------------------

/// Every call of a tool that is sent has a result that is sent with it.
pub proof fn sent_calls_have_results(
    content: Seq<message::AgentContentView>,
    results: Seq<message::ToolResultView>,
    i: int,
)
    requires
        0 <= i < agent_chunks(content, results).len(),
        agent_chunks(content, results)[i] is ToolUse,
    ensures
        has_result(results, agent_chunks(content, results)[i]->ToolUse_0.id),
        agent_requests(content, results).len() == 2,
        agent_requests(content, results)[1].content.len() == results.len(),
    decreases content.len(),
{
    let before = agent_chunks(content.drop_last(), results);
    if i < before.len() {
        sent_calls_have_results(content.drop_last(), results, i);
    }
}

/// No tool result is sent empty.
pub proof fn no_result_is_sent_empty(r: message::ToolResultView)
    ensures
        sent_result(r).content != message::ResultContentView::Text(Seq::empty()),
        sent_result(r).tool_use_id == r.tool_use_id,
{
    reveal_strlit("<Tool returned an empty string>");
    match r.content {
        message::ResultContentView::Text(t) => {
            assert(t.len() == 0 ==> t =~= Seq::<char>::empty());
            assert(EMPTY_TOOL_RESULT@.len() > 0);
        },
        _ => {},
    }
}

/// A user message without mentions is sent as it was written, with nothing attached.
pub proof fn without_mentions_nothing_is_attached(content: Seq<message::UserContentView>)
    requires
        forall|i: int| 0 <= i < content.len() ==> !(#[trigger] content[i] is Mention),
    ensures
        user_request(content).content == content.map_values(
            |c: message::UserContentView| user_chunk(c),
        ),
{
    let order = section_order();
    without_mentions_no_section(content, order);
}

proof fn without_mentions_no_section(
    content: Seq<message::UserContentView>,
    sections: Seq<Section>,
)
    requires
        forall|i: int| 0 <= i < content.len() ==> !(#[trigger] content[i] is Mention),
    ensures
        filled_sections(content, sections) == Seq::<message::ContentView>::empty(),
    decreases sections.len(),
{
    if sections.len() > 0 {
        without_mentions_no_section(content, sections.drop_last());
        without_mentions_no_body(content, sections.last());
    }
}

proof fn without_mentions_no_body(content: Seq<message::UserContentView>, section: Section)
    requires
        forall|i: int| 0 <= i < content.len() ==> !(#[trigger] content[i] is Mention),
    ensures
        section_body(content, section).len() == 0,
    decreases content.len(),
{
    if content.len() > 0 {
        assert forall|i: int| 0 <= i < content.drop_last().len() implies !(
        #[trigger] content.drop_last()[i] is Mention) by {
            assert(content.drop_last()[i] == content[i]);
        }
        without_mentions_no_body(content.drop_last(), section);
        assert(!(content[content.len() - 1] is Mention));
    }
}

} // verus!
