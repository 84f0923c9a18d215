//! A conversation with an agent: its messages, and what is known of them.

use vstd::prelude::*;

use crate::ids;
use crate::ids::PromptId;
use crate::markdown;
use crate::message;
use crate::message::{AgentMessage, Message, UserMessage};
use crate::project_snapshot;
use crate::project_snapshot::ProjectSnapshot;
use crate::text;

verus! {

/// The title of a thread that has none yet.
pub const DEFAULT_TITLE: &'static str = "New Thread";

/// How a model is asked.
#[derive(Debug, Clone, Copy, PartialEq, Eq, Structural)]
pub enum CompletionMode {
    Normal,
    Burn,
}

impl Default for CompletionMode {
    fn default() -> (r: CompletionMode)
        ensures
            r == CompletionMode::Normal,
    {
        CompletionMode::Normal
    }
}

/// What a thread has to know of a model.
#[derive(Debug, Clone, Copy, PartialEq, Eq, Structural)]
pub struct ModelInfo {
    /// The most tokens of a request.
    pub max_tokens: u64,
    /// The most tokens of a request in burn mode.
    pub max_tokens_in_burn_mode: u64,
    pub supports_images: bool,
}

/// The most tokens of a request in a mode.
pub open spec fn max_tokens_for_mode(model: ModelInfo, mode: CompletionMode) -> u64 {
    match mode {
        CompletionMode::Normal => model.max_tokens,
        CompletionMode::Burn => model.max_tokens_in_burn_mode,
    }
}

impl ModelInfo {
    /// The most tokens of a request in a mode.
    pub fn max_token_count_for_mode(&self, mode: CompletionMode) -> (n: u64)
        ensures
            n == max_tokens_for_mode(*self, mode),
    {
        match mode {
            CompletionMode::Normal => self.max_tokens,
            CompletionMode::Burn => self.max_tokens_in_burn_mode,
        }
    }
}

/// The tokens that a request took, as a model counts them.
#[derive(Debug, Clone, Copy, PartialEq, Eq, Structural)]
pub struct ModelUsage {
    pub input_tokens: u64,
    pub output_tokens: u64,
    pub cache_creation_input_tokens: u64,
    pub cache_read_input_tokens: u64,
}

/// All tokens of a request, and no more than a number can hold.
pub open spec fn total_of(usage: ModelUsage) -> u64 {
    let sum = usage.input_tokens + usage.output_tokens + usage.cache_read_input_tokens
        + usage.cache_creation_input_tokens;
    if sum <= u64::MAX {
        sum as u64
    } else {
        u64::MAX
    }
}

impl ModelUsage {
    /// No tokens.
    pub fn none() -> (r: ModelUsage)
        ensures
            r == no_usage(),
    {
        ModelUsage {
            input_tokens: 0,
            output_tokens: 0,
            cache_creation_input_tokens: 0,
            cache_read_input_tokens: 0,
        }
    }

    /// All tokens of a request.
    pub fn total_tokens(&self) -> (r: u64)
        ensures
            r == total_of(*self),
    {
        self.input_tokens.saturating_add(self.output_tokens).saturating_add(
            self.cache_read_input_tokens,
        ).saturating_add(self.cache_creation_input_tokens)
    }
}

/// No tokens.
pub open spec fn no_usage() -> ModelUsage {
    ModelUsage {
        input_tokens: 0,
        output_tokens: 0,
        cache_creation_input_tokens: 0,
        cache_read_input_tokens: 0,
    }
}

/// What a model is called.
#[derive(Debug)]
pub struct DbLanguageModel {
    pub provider: String,
    pub model: String,
}

/// The name of a provider and that of a model.
pub open spec fn name_view(name: Option<DbLanguageModel>) -> Option<(Seq<char>, Seq<char>)> {
    match name {
        Some(n) => Some((n.provider@, n.model@)),
        None => None,
    }
}

/// A model, by what it is called.
#[derive(Debug)]
pub struct Model {
    pub name: DbLanguageModel,
    pub info: ModelInfo,
}

/// What a thread has to know of a model, where there is one.
pub open spec fn info_of(model: Option<Model>) -> Option<ModelInfo> {
    match model {
        Some(m) => Some(m.info),
        None => None,
    }
}

/// What a model is called, where there is one.
pub open spec fn name_of(model: Option<Model>) -> Option<(Seq<char>, Seq<char>)> {
    match model {
        Some(m) => Some((m.name.provider@, m.name.model@)),
        None => None,
    }
}

/// What a prompt may hold.
#[derive(Debug, Clone, Copy, PartialEq, Eq, Structural)]
pub struct PromptCapabilities {
    pub image: bool,
    pub audio: bool,
    pub embedded_context: bool,
}

/// What a prompt may hold: images unless the model takes none, no sound, and what is mentioned.
pub open spec fn capabilities(model: Option<ModelInfo>) -> PromptCapabilities {
    PromptCapabilities {
        image: model matches Some(m) ==> m.supports_images,
        audio: false,
        embedded_context: true,
    }
}

/// How many tokens are used, of how many.
#[derive(Debug, Clone, Copy, PartialEq, Eq, Structural)]
pub struct TokenUsage {
    pub max_tokens: u64,
    pub used_tokens: u64,
}

/// The title of a thread was changed.
#[derive(Debug, Clone, Copy, PartialEq, Eq, Structural)]
pub struct TitleUpdated;

/// The token usage of a thread was changed.
#[derive(Debug, Clone, Copy, PartialEq, Eq, Structural)]
pub struct TokenUsageUpdated(pub Option<TokenUsage>);

/// A range of messages that was archived. The range is that of the thread when they were.
#[derive(Debug)]
pub struct ThreadMemorySegment {
    pub id: u64,
    pub start: usize,
    pub end: usize,
    pub summary: String,
    pub message_char_count: usize,
    pub message_count: usize,
    pub stored_epoch_ms: u128,
    pub placeholder_char_count: usize,
    pub message_token_count: usize,
    pub placeholder_token_count: usize,
    pub messages: Vec<Message>,
}

pub ghost struct SegmentView {
    pub id: u64,
    pub start: usize,
    pub end: usize,
    pub summary: Seq<char>,
    pub message_char_count: usize,
    pub message_count: usize,
    pub stored_epoch_ms: u128,
    pub placeholder_char_count: usize,
    pub message_token_count: usize,
    pub placeholder_token_count: usize,
    pub messages: Seq<message::MessageView>,
}

impl View for ThreadMemorySegment {
    type V = SegmentView;

    open spec fn view(&self) -> SegmentView {
        SegmentView {
            id: self.id,
            start: self.start,
            end: self.end,
            summary: self.summary@,
            message_char_count: self.message_char_count,
            message_count: self.message_count,
            stored_epoch_ms: self.stored_epoch_ms,
            placeholder_char_count: self.placeholder_char_count,
            message_token_count: self.message_token_count,
            placeholder_token_count: self.placeholder_token_count,
            messages: message::message_views(self.messages@),
        }
    }
}

/// What segments hold.
pub open spec fn segment_views(segments: Seq<ThreadMemorySegment>) -> Seq<SegmentView> {
    segments.map_values(|s: ThreadMemorySegment| s@)
}

/// What is known of the tokens of each request, by the user message that it answered.
pub open spec fn usage_views(usage: Seq<(String, ModelUsage)>) -> Seq<(Seq<char>, ModelUsage)> {
    usage.map_values(|u: (String, ModelUsage)| (u.0@, u.1))
}

/// A conversation with an agent.
#[derive(Debug)]
pub struct Thread {
    pub id: String,
    pub prompt_id: PromptId,
    pub title: Option<String>,
    pub pending_title_generation: bool,
    pub summary: Option<String>,
    pub messages: Vec<Message>,
    pub memory_segments: Vec<ThreadMemorySegment>,
    pub memory_next_id: u64,
    pub completion_mode: CompletionMode,
    pub running_turn: bool,
    pub pending_message: Option<AgentMessage>,
    pub tools: Vec<String>,
    pub tool_use_limit_reached: bool,
    /// The tokens that the requests took, each under the user message that it answered.
    pub request_token_usage: Vec<(String, ModelUsage)>,
    pub cumulative_token_usage: ModelUsage,
    pub initial_project_snapshot: Option<ProjectSnapshot>,
    pub profile_id: String,
    pub model: Option<ModelInfo>,
    /// What the model is called.
    pub model_name: Option<DbLanguageModel>,
    pub has_summarization_model: bool,
    pub precise_active_tokens: Option<u64>,
    pub precise_max_tokens: Option<u64>,
    pub precise_per_message_tokens: Option<Vec<usize>>,
    /// When a message was last added, in milliseconds since 1970.
    pub updated_at_ms: i64,
}

/// What a thread holds.
pub ghost struct ThreadView {
    pub id: Seq<char>,
    pub prompt_id: Seq<char>,
    pub title: Option<Seq<char>>,
    pub pending_title_generation: bool,
    pub summary: Option<Seq<char>>,
    pub messages: Seq<message::MessageView>,
    pub segments: Seq<SegmentView>,
    pub next_id: u64,
    pub mode: CompletionMode,
    pub running_turn: bool,
    pub pending: Option<message::MessageView>,
    pub tools: Seq<Seq<char>>,
    pub tool_use_limit_reached: bool,
    pub usage: Seq<(Seq<char>, ModelUsage)>,
    pub cumulative_usage: ModelUsage,
    pub snapshot: Option<project_snapshot::SnapshotView>,
    pub profile: Seq<char>,
    pub model: Option<ModelInfo>,
    pub model_name: Option<(Seq<char>, Seq<char>)>,
    pub has_summarization_model: bool,
    pub active_tokens: Option<u64>,
    pub max_tokens: Option<u64>,
    pub per_message_tokens: Option<Seq<usize>>,
    pub updated_at_ms: i64,
}

impl View for Thread {
    type V = ThreadView;

    open spec fn view(&self) -> ThreadView {
        ThreadView {
            id: self.id@,
            prompt_id: self.prompt_id.text(),
            title: text::opt_view(self.title),
            pending_title_generation: self.pending_title_generation,
            summary: text::opt_view(self.summary),
            messages: message::message_views(self.messages@),
            segments: segment_views(self.memory_segments@),
            next_id: self.memory_next_id,
            mode: self.completion_mode,
            running_turn: self.running_turn,
            pending: match self.pending_message {
                Some(m) => Some(m@),
                None => None,
            },
            tools: text::views(self.tools@),
            tool_use_limit_reached: self.tool_use_limit_reached,
            usage: usage_views(self.request_token_usage@),
            cumulative_usage: self.cumulative_token_usage,
            snapshot: project_snapshot::opt_snapshot(self.initial_project_snapshot),
            profile: self.profile_id@,
            model: self.model,
            model_name: name_view(self.model_name),
            has_summarization_model: self.has_summarization_model,
            active_tokens: self.precise_active_tokens,
            max_tokens: self.precise_max_tokens,
            per_message_tokens: match self.precise_per_message_tokens {
                Some(v) => Some(v@),
                None => None,
            },
            updated_at_ms: self.updated_at_ms,
        }
    }
}

/// What a database keeps of a thread.
#[derive(Debug)]
pub struct DbThread {
    pub title: String,
    pub messages: Vec<Message>,
    /// When a message was last added, in milliseconds since 1970.
    pub updated_at_ms: i64,
    pub detailed_summary: Option<String>,
    pub initial_project_snapshot: Option<ProjectSnapshot>,
    pub cumulative_token_usage: ModelUsage,
    pub request_token_usage: Vec<(String, ModelUsage)>,
    pub model: Option<DbLanguageModel>,
    pub completion_mode: Option<CompletionMode>,
    pub profile: Option<String>,
}

pub ghost struct DbView {
    pub title: Seq<char>,
    pub messages: Seq<message::MessageView>,
    pub updated_at_ms: i64,
    pub summary: Option<Seq<char>>,
    pub snapshot: Option<project_snapshot::SnapshotView>,
    pub cumulative_usage: ModelUsage,
    pub usage: Seq<(Seq<char>, ModelUsage)>,
    pub model: Option<(Seq<char>, Seq<char>)>,
    pub mode: Option<CompletionMode>,
    pub profile: Option<Seq<char>>,
}

impl View for DbThread {
    type V = DbView;

    open spec fn view(&self) -> DbView {
        DbView {
            title: self.title@,
            messages: message::message_views(self.messages@),
            updated_at_ms: self.updated_at_ms,
            summary: text::opt_view(self.detailed_summary),
            snapshot: project_snapshot::opt_snapshot(self.initial_project_snapshot),
            cumulative_usage: self.cumulative_token_usage,
            usage: usage_views(self.request_token_usage@),
            model: name_view(self.model),
            mode: self.completion_mode,
            profile: text::opt_view(self.profile),
        }
    }
}

/// What a database keeps of a thread.
pub open spec fn saved(t: ThreadView) -> DbView {
    DbView {
        title: match t.title {
            Some(title) => title,
            None => DEFAULT_TITLE@,
        },
        messages: t.messages,
        updated_at_ms: t.updated_at_ms,
        summary: t.summary,
        snapshot: t.snapshot,
        cumulative_usage: t.cumulative_usage,
        usage: t.usage,
        model: t.model_name,
        mode: Some(t.mode),
        profile: Some(t.profile),
    }
}

/// The model of a thread: the one that was found for the name that is kept, if there are both, else
/// the default one.
pub open spec fn chosen_model(
    kept: Option<(Seq<char>, Seq<char>)>,
    found: Option<Model>,
    default_model: Option<Model>,
) -> Option<Model> {
    if kept is Some && found is Some {
        found
    } else {
        default_model
    }
}

/// The thread that a database keeps.
pub open spec fn loaded(
    id: Seq<char>,
    prompt_id: Seq<char>,
    db: DbView,
    model: Option<Model>,
    default_profile: Seq<char>,
) -> ThreadView {
    ThreadView {
        title: if db.title.len() == 0 {
            None
        } else {
            Some(db.title)
        },
        summary: db.summary,
        messages: db.messages,
        usage: db.usage,
        cumulative_usage: db.cumulative_usage,
        snapshot: db.snapshot,
        ..empty_thread(
            id,
            prompt_id,
            match db.profile {
                Some(profile) => profile,
                None => default_profile,
            },
            match db.mode {
                Some(mode) => mode,
                None => CompletionMode::Normal,
            },
            model,
            db.updated_at_ms,
        )
    }
}

/// A thread of which nothing is known but its identifiers and its time.
pub open spec fn empty_thread(
    id: Seq<char>,
    prompt_id: Seq<char>,
    profile: Seq<char>,
    mode: CompletionMode,
    model: Option<Model>,
    updated_at_ms: i64,
) -> ThreadView {
    ThreadView {
        id,
        prompt_id,
        title: None,
        pending_title_generation: false,
        summary: None,
        messages: Seq::empty(),
        segments: Seq::empty(),
        next_id: 0,
        mode,
        running_turn: false,
        pending: None,
        tools: Seq::empty(),
        tool_use_limit_reached: false,
        usage: Seq::empty(),
        cumulative_usage: no_usage(),
        snapshot: None,
        profile,
        model: info_of(model),
        model_name: name_of(model),
        has_summarization_model: false,
        active_tokens: None,
        max_tokens: None,
        per_message_tokens: None,
        updated_at_ms,
    }
}

/// The last message that a user wrote.
pub open spec fn last_user_id(messages: Seq<message::MessageView>) -> Option<Seq<char>>
    decreases messages.len(),
{
    if messages.len() == 0 {
        None
    } else {
        match messages.last() {
            message::MessageView::User { id, content } => Some(id),
            _ => last_user_id(messages.drop_last()),
        }
    }
}

/// The position of the first entry for a user message.
pub open spec fn usage_index(usage: Seq<(Seq<char>, ModelUsage)>, id: Seq<char>) -> Option<int>
    decreases usage.len(),
{
    if usage.len() == 0 {
        None
    } else {
        match usage_index(usage.drop_last(), id) {
            Some(i) => Some(i),
            None => if usage.last().0 == id {
                Some(usage.len() - 1)
            } else {
                None
            },
        }
    }
}

/// The tokens that are kept for a user message.
pub open spec fn usage_of(usage: Seq<(Seq<char>, ModelUsage)>, id: Seq<char>) -> Option<ModelUsage> {
    match usage_index(usage, id) {
        Some(i) => Some(usage[i].1),
        None => None,
    }
}

/// The usage with the tokens of one user message set.
pub open spec fn usage_with(
    usage: Seq<(Seq<char>, ModelUsage)>,
    id: Seq<char>,
    tokens: ModelUsage,
) -> Seq<(Seq<char>, ModelUsage)> {
    match usage_index(usage, id) {
        Some(i) => usage.update(i, (id, tokens)),
        None => usage.push((id, tokens)),
    }
}

/// The usage without the entries of some user messages.
pub open spec fn usage_without(
    usage: Seq<(Seq<char>, ModelUsage)>,
    dropped: Seq<message::MessageView>,
) -> Seq<(Seq<char>, ModelUsage)>
    decreases usage.len(),
{
    if usage.len() == 0 {
        Seq::empty()
    } else if is_user_message_of(dropped, usage.last().0) {
        usage_without(usage.drop_last(), dropped)
    } else {
        usage_without(usage.drop_last(), dropped).push(usage.last())
    }
}

/// Whether a user wrote one of the messages under an identifier.
pub open spec fn is_user_message_of(messages: Seq<message::MessageView>, id: Seq<char>) -> bool {
    exists|i: int|
        0 <= i < messages.len() && (#[trigger] messages[i] matches message::MessageView::User {
            id: other,
            content,
        } && other == id)
}

/// The position of the first message that a user wrote under an identifier.
pub open spec fn user_position(messages: Seq<message::MessageView>, id: Seq<char>) -> Option<int>
    decreases messages.len(),
{
    if messages.len() == 0 {
        None
    } else {
        match user_position(messages.drop_last(), id) {
            Some(i) => Some(i),
            None => match messages.last() {
                message::MessageView::User { id: other, content } => if other == id {
                    Some(messages.len() - 1)
                } else {
                    None
                },
                _ => None,
            },
        }
    }
}

/// What is known of the tokens of the last request.
pub open spec fn latest_usage(t: ThreadView) -> Option<TokenUsage> {
    match last_user_id(t.messages) {
        None => None,
        Some(id) => match usage_of(t.usage, id) {
            None => None,
            Some(tokens) => match t.model {
                None => None,
                Some(model) => Some(
                    TokenUsage {
                        max_tokens: max_tokens_for_mode(model, t.mode),
                        used_tokens: total_of(tokens),
                    },
                ),
            },
        },
    }
}

/// The Markdown form of messages, with a line feed between each two.
pub open spec fn messages_markdown(messages: Seq<message::MessageView>) -> Seq<char> {
    text::join(
        messages.map_values(|m: message::MessageView| markdown::message_markdown(m)),
        "\n"@,
    )
}

/// The Markdown form of a thread.
pub open spec fn thread_markdown(t: ThreadView) -> Seq<char> {
    match t.pending {
        Some(m) => messages_markdown(t.messages) + "\n"@ + markdown::message_markdown(m),
        None => messages_markdown(t.messages),
    }
}

pub proof fn user_position_is_first(messages: Seq<message::MessageView>, id: Seq<char>)
    ensures
        match user_position(messages, id) {
            Some(i) => 0 <= i < messages.len() && (messages[i] matches message::MessageView::User {
                id: other,
                content,
            } && other == id),
            None => !is_user_message_of(messages, id),
        },
    decreases messages.len(),
{
    if messages.len() > 0 {
        user_position_is_first(messages.drop_last(), id);
        if user_position(messages, id) is None && is_user_message_of(messages, id) {
            let i = choose|i: int|
                0 <= i < messages.len() && (#[trigger] messages[i] matches message::MessageView::User {
                    id: other,
                    content,
                } && other == id);
            if i < messages.len() - 1 {
                assert(messages.drop_last()[i] == messages[i]);
                assert(is_user_message_of(messages.drop_last(), id));
            }
        }
    }
}

fn copy_usage(usage: &Vec<(String, ModelUsage)>) -> (r: Vec<(String, ModelUsage)>)
    ensures
        usage_views(r@) == usage_views(usage@),
{
    let mut out: Vec<(String, ModelUsage)> = Vec::new();
    for i in 0..usage.len()
        invariant
            out@.len() == i,
            forall|k: int|
                0 <= k < i ==> (#[trigger] out@[k]).0@ == usage@[k].0@ && out@[k].1 == usage@[k].1,
    {
        out.push((usage[i].0.clone(), usage[i].1));
    }
    assert(usage_views(out@) =~= usage_views(usage@));
    out
}

fn find_usage(usage: &Vec<(String, ModelUsage)>, id: &str) -> (r: Option<usize>)
    ensures
        match r {
            Some(i) => i < usage@.len() && usage_index(usage_views(usage@), id@) == Some(i as int),
            None => usage_index(usage_views(usage@), id@) is None,
        },
{
    let ghost all = usage_views(usage@);
    let mut found: Option<usize> = None;
    for i in 0..usage.len()
        invariant
            all == usage_views(usage@),
            match found {
                Some(k) => k < i && usage_index(all.take(i as int), id@) == Some(k as int),
                None => usage_index(all.take(i as int), id@) is None,
            },
    {
        assert(all.take(i + 1).drop_last() =~= all.take(i as int));
        assert(all.take(i + 1).last() == (usage@[i as int].0@, usage@[i as int].1));
        if found.is_none() && text::same(usage[i].0.as_str(), id) {
            found = Some(i);
        }
    }
    assert(all.take(all.len() as int) =~= all);
    found
}

impl Thread {
    /// A thread without messages.
    pub fn new(
        profile: String,
        mode: CompletionMode,
        model: Option<Model>,
        snapshot: Option<ProjectSnapshot>,
    ) -> (r: Thread)
        ensures
            r@ == (ThreadView {
                snapshot: project_snapshot::opt_snapshot(snapshot),
                ..empty_thread(r@.id, r@.prompt_id, profile@, mode, model, r@.updated_at_ms)
            }),
            ids::is_uuid(r@.id),
            ids::is_uuid(r@.prompt_id),
    {
        let (model, model_name) = match model {
            Some(m) => (Some(m.info), Some(m.name)),
            None => (None, None),
        };
        let thread = Thread {
            id: ids::new_uuid(),
            prompt_id: PromptId::new(),
            title: None,
            pending_title_generation: false,
            summary: None,
            messages: Vec::new(),
            memory_segments: Vec::new(),
            memory_next_id: 0,
            completion_mode: mode,
            running_turn: false,
            pending_message: None,
            tools: Vec::new(),
            tool_use_limit_reached: false,
            request_token_usage: Vec::new(),
            cumulative_token_usage: ModelUsage::none(),
            initial_project_snapshot: snapshot,
            profile_id: profile,
            model,
            model_name,
            has_summarization_model: false,
            precise_active_tokens: None,
            precise_max_tokens: None,
            precise_per_message_tokens: None,
            updated_at_ms: now_ms(),
        };
        assert(message::message_views(thread.messages@) =~= Seq::<message::MessageView>::empty());
        assert(segment_views(thread.memory_segments@) =~= Seq::<SegmentView>::empty());
        assert(text::views(thread.tools@) =~= Seq::<Seq<char>>::empty());
        assert(usage_views(thread.request_token_usage@) =~= Seq::<
            (Seq<char>, ModelUsage),
        >::empty());
        thread
    }

    /// A thread as a database keeps it. Archived segments are kept elsewhere. Where the model that the
    /// thread names was not found, the default model takes its place.
    pub fn from_db(
        id: String,
        db_thread: DbThread,
        found: Option<Model>,
        default_model: Option<Model>,
        default_profile: String,
    ) -> (r: Thread)
        ensures
            ids::is_uuid(r@.prompt_id),
            r@ == loaded(
                id@,
                r@.prompt_id,
                db_thread@,
                chosen_model(db_thread@.model, found, default_model),
                default_profile@,
            ),
    {
        let profile = match db_thread.profile {
            Some(profile) => profile,
            None => default_profile,
        };
        let mode = match db_thread.completion_mode {
            Some(mode) => mode,
            None => CompletionMode::default(),
        };
        let model = if db_thread.model.is_some() && found.is_some() {
            found
        } else {
            default_model
        };
        let mut thread = Thread::new(profile, mode, model, db_thread.initial_project_snapshot);
        thread.id = id;
        if !db_thread.title.as_str().is_empty() {
            thread.title = Some(db_thread.title);
        }
        thread.summary = db_thread.detailed_summary;
        thread.messages = db_thread.messages;
        thread.request_token_usage = db_thread.request_token_usage;
        thread.cumulative_token_usage = db_thread.cumulative_token_usage;
        thread.updated_at_ms = db_thread.updated_at_ms;
        thread
    }

    /// The thread as a database keeps it.
    pub fn to_db(&self) -> (r: DbThread)
        ensures
            r@ == saved(self@),
    {
        let messages = message::copy_messages(&self.messages, 0, self.messages.len());
        assert(self@.messages.subrange(0, self@.messages.len() as int) =~= self@.messages);
        DbThread {
            title: self.title(),
            messages,
            updated_at_ms: self.updated_at_ms,
            detailed_summary: text::copy_option(&self.summary),
            initial_project_snapshot: match &self.initial_project_snapshot {
                Some(snapshot) => Some(snapshot.copy()),
                None => None,
            },
            cumulative_token_usage: self.cumulative_token_usage,
            request_token_usage: copy_usage(&self.request_token_usage),
            model: match &self.model_name {
                Some(name) => Some(
                    DbLanguageModel {
                        provider: name.provider.clone(),
                        model: name.model.clone(),
                    },
                ),
                None => None,
            },
            completion_mode: Some(self.completion_mode),
            profile: Some(self.profile_id.clone()),
        }
    }

    /// The identifier of the thread.
    pub fn id(&self) -> (r: &String)
        ensures
            r@ == self@.id,
    {
        &self.id
    }

    /// The profile that says which tools are on.
    pub fn profile(&self) -> (r: &String)
        ensures
            r@ == self@.profile,
    {
        &self.profile_id
    }

    /// Sets the profile.
    pub fn set_profile(&mut self, profile_id: String)
        ensures
            final(self)@ == (ThreadView { profile: profile_id@, ..old(self)@ }),
    {
        self.profile_id = profile_id;
    }

    /// What is known of the model.
    pub fn model(&self) -> (r: Option<ModelInfo>)
        ensures
            r == self@.model,
    {
        self.model
    }

    /// Whether there is a model that writes summaries.
    pub fn summarization_model(&self) -> (r: bool)
        ensures
            r == self@.has_summarization_model,
    {
        self.has_summarization_model
    }

    /// Says whether there is a model that writes summaries.
    pub fn set_summarization_model(&mut self, present: bool)
        ensures
            final(self)@ == (ThreadView { has_summarization_model: present, ..old(self)@ }),
    {
        self.has_summarization_model = present;
    }

    /// Takes another identifier for the next prompt.
    pub fn advance_prompt_id(&mut self)
        ensures
            ids::is_uuid(final(self)@.prompt_id),
            final(self)@ == (ThreadView {
                prompt_id: final(self)@.prompt_id,
                ..old(self)@
            }),
    {
        self.prompt_id = PromptId::new();
    }

    /// Whether nothing was said yet, and there is no title.
    pub fn is_empty(&self) -> (r: bool)
        ensures
            r == (self@.messages.len() == 0 && self@.title is None),
    {
        self.messages.len() == 0 && self.title.is_none()
    }

    /// The messages of the thread.
    pub fn messages(&self) -> (r: &Vec<Message>)
        ensures
            message::message_views(r@) == self@.messages,
            *r == self.messages,
    {
        &self.messages
    }

    /// The title of the thread.
    pub fn title(&self) -> (r: String)
        ensures
            r@ == (match self@.title {
                Some(title) => title,
                None => DEFAULT_TITLE@,
            }),
    {
        match &self.title {
            Some(title) => title.clone(),
            None => DEFAULT_TITLE.to_owned(),
        }
    }

    /// Sets the title, and says whether it changed.
    pub fn set_title(&mut self, title: String) -> (r: Option<TitleUpdated>)
        ensures
            r is Some <==> old(self)@.title != Some(title@),
            final(self)@ == (ThreadView {
                title: Some(title@),
                pending_title_generation: false,
                ..old(self)@
            }),
    {
        self.pending_title_generation = false;
        let same = match &self.title {
            Some(current) => text::same(current.as_str(), title.as_str()),
            None => false,
        };
        if !same {
            self.title = Some(title);
            Some(TitleUpdated)
        } else {
            None
        }
    }

    /// The last message that a user wrote.
    pub fn last_user_message(&self) -> (r: Option<&UserMessage>)
        ensures
            match r {
                Some(m) => last_user_id(self@.messages) == Some(m.id@),
                None => last_user_id(self@.messages) is None,
            },
    {
        let ghost all = self@.messages;
        let mut n: usize = self.messages.len();
        assert(all.take(n as int) =~= all);
        while n > 0
            invariant
                all == message::message_views(self.messages@),
                n <= self.messages@.len(),
                last_user_id(all) == last_user_id(all.take(n as int)),
                all == self@.messages,
            decreases n,
        {
            assert(all.take(n as int).last() == self.messages@[n - 1]@);
            assert(all.take(n as int).drop_last() =~= all.take(n - 1));
            if let Message::User(m) = &self.messages[n - 1] {
                return Some(m);
            }
            n = n - 1;
        }
        None
    }

    /// What is known of the tokens of the last request.
    pub fn latest_token_usage(&self) -> (r: Option<TokenUsage>)
        ensures
            r == latest_usage(self@),
    {
        match self.last_user_message() {
            None => None,
            Some(m) => match find_usage(&self.request_token_usage, m.id.as_str()) {
                None => None,
                Some(i) => match self.model {
                    None => None,
                    Some(model) => Some(
                        TokenUsage {
                            max_tokens: model.max_token_count_for_mode(self.completion_mode),
                            used_tokens: self.request_token_usage[i].1.total_tokens(),
                        },
                    ),
                },
            },
        }
    }

    /// Keeps the tokens of the request that answered the last user message, if there is one.
    pub fn update_token_usage(&mut self, tokens: ModelUsage) -> (r: Option<TokenUsageUpdated>)
        ensures
            match last_user_id(old(self)@.messages) {
                None => r is None && final(self)@ == old(self)@,
                Some(id) => r == Some(TokenUsageUpdated(latest_usage(final(self)@)))
                    && final(self)@ == (ThreadView {
                    usage: usage_with(old(self)@.usage, id, tokens),
                    ..old(self)@
                }),
            },
    {
        let id = match self.last_user_message() {
            None => return None,
            Some(m) => m.id.clone(),
        };
        let ghost before = self.request_token_usage@;
        match find_usage(&self.request_token_usage, id.as_str()) {
            Some(i) => {
                let entry = (id.clone(), tokens);
                self.request_token_usage.set(i, entry);
                assert(usage_views(self.request_token_usage@) =~= usage_views(before).update(
                    i as int,
                    (id@, tokens),
                ));
            },
            None => {
                self.request_token_usage.push((id.clone(), tokens));
                assert(usage_views(self.request_token_usage@) =~= usage_views(before).push(
                    (id@, tokens),
                ));
            },
        }
        Some(TokenUsageUpdated(self.latest_token_usage()))
    }

    /// Sets the model, and says whether the token usage changed by that, and what a prompt may hold
    /// now.
    pub fn set_model(&mut self, model: Model) -> (r: (
        Option<TokenUsageUpdated>,
        PromptCapabilities,
    ))
        ensures
            final(self)@ == (ThreadView {
                model: Some(model.info),
                model_name: name_of(Some(model)),
                ..old(self)@
            }),
            r.1 == capabilities(Some(model.info)),
            r.0 == if latest_usage(old(self)@) != latest_usage(final(self)@) {
                Some(TokenUsageUpdated(latest_usage(final(self)@)))
            } else {
                None
            },
    {
        let old_usage = self.latest_token_usage();
        self.model = Some(model.info);
        self.model_name = Some(model.name);
        let new_usage = self.latest_token_usage();
        let updated = if old_usage != new_usage {
            Some(TokenUsageUpdated(new_usage))
        } else {
            None
        };
        (updated, Self::prompt_capabilities(&self.model))
    }

    /// The mode in which the model is asked.
    pub fn completion_mode(&self) -> (r: CompletionMode)
        ensures
            r == self@.mode,
    {
        self.completion_mode
    }

    /// Sets the mode, and says whether the token usage changed by that.
    pub fn set_completion_mode(&mut self, mode: CompletionMode) -> (r: Option<TokenUsageUpdated>)
        ensures
            final(self)@ == (ThreadView { mode, ..old(self)@ }),
            r == if latest_usage(old(self)@) != latest_usage(final(self)@) {
                Some(TokenUsageUpdated(latest_usage(final(self)@)))
            } else {
                None
            },
    {
        let old_usage = self.latest_token_usage();
        self.completion_mode = mode;
        let new_usage = self.latest_token_usage();
        if old_usage != new_usage {
            Some(TokenUsageUpdated(new_usage))
        } else {
            None
        }
    }

    /// The Markdown form of the thread.
    pub fn to_markdown(&self) -> (r: String)
        ensures
            r@ == thread_markdown(self@),
    {
        let mut parts: Vec<String> = Vec::new();
        let ghost all = self@.messages.map_values(
            |m: message::MessageView| markdown::message_markdown(m),
        );
        for i in 0..self.messages.len()
            invariant
                all == self@.messages.map_values(
                    |m: message::MessageView| markdown::message_markdown(m),
                ),
                parts@.len() == i,
                forall|k: int| 0 <= k < i ==> (#[trigger] parts@[k])@ == all[k],
        {
            parts.push(self.messages[i].to_markdown());
        }
        assert(text::views(parts@) =~= all);
        let mut markdown = text::join_texts(&parts, "\n");
        if let Some(m) = &self.pending_message {
            markdown.append("\n");
            markdown.append(m.to_markdown().as_str());
        }
        markdown
    }

    /// The message that is being written, or else the last one.
    pub fn last_message(&self) -> (r: Option<Message>)
        ensures
            match r {
                Some(m) => m@ == (match self@.pending {
                    Some(p) => p,
                    None => self@.messages.last(),
                }) && (self@.pending is Some || self@.messages.len() > 0),
                None => self@.pending is None && self@.messages.len() == 0,
            },
    {
        match &self.pending_message {
            Some(m) => Some(Message::Agent(m.copy())),
            None => {
                let n: usize = self.messages.len();
                if n == 0 {
                    None
                } else {
                    Some(self.messages[n - 1].copy())
                }
            },
        }
    }

    /// What a prompt may hold.
    pub fn prompt_capabilities(model: &Option<ModelInfo>) -> (r: PromptCapabilities)
        ensures
            r == capabilities(*model),
    {
        let image = match model {
            Some(m) => m.supports_images,
            None => true,
        };
        PromptCapabilities { image, audio: false, embedded_context: true }
    }
}

/// A thread that is saved, and loaded with its model found again, is the same conversation: it has
/// its messages, its time, its summary, its tokens, its snapshot, its profile, its mode and its title. One
/// without a title has the usual one from then on, and one whose title is empty has none.
pub proof fn saved_threads_come_back(
    t: ThreadView,
    prompt_id: Seq<char>,
    found: Option<Model>,
    default_model: Option<Model>,
    default_profile: Seq<char>,
)
    requires
        info_of(found) == t.model,
        name_of(found) == t.model_name,
        found is None ==> default_model is None,
    ensures
        ({
            let db = saved(t);
            let back = loaded(
                t.id,
                prompt_id,
                db,
                chosen_model(db.model, found, default_model),
                default_profile,
            );
            &&& back.id == t.id
            &&& back.messages == t.messages
            &&& back.updated_at_ms == t.updated_at_ms
            &&& back.summary == t.summary
            &&& back.usage == t.usage
            &&& back.cumulative_usage == t.cumulative_usage
            &&& back.snapshot == t.snapshot
            &&& back.profile == t.profile
            &&& back.mode == t.mode
            &&& back.model == t.model
            &&& back.model_name == t.model_name
            &&& (t.title matches Some(title) && title.len() > 0) ==> back.title == t.title
            &&& t.title is None ==> back.title == Some(DEFAULT_TITLE@)
            &&& (t.title matches Some(title) && title.len() == 0) ==> back.title is None
            &&& latest_usage(back) == latest_usage(t)
        }),
{
    reveal_strlit("New Thread");
}

/// The time in milliseconds since 1970, as `chrono::Utc::now` and
/// `chrono::DateTime::timestamp_millis` give it. Nothing is said of it.
#[verifier::external_body]
pub(crate) fn now_ms() -> (r: i64) {
    chrono::Utc::now().timestamp_millis()
}

} // verus!
