//! Summarising a conversation, also one that is too long for a model: it is summarised in chunks that
//! overlap, and the partial summaries are merged.

use vstd::prelude::*;

use crate::archive;
use crate::archive::SegmentRange;
use crate::completion;
use crate::message;
use crate::message::{RequestMessage, Role};
use crate::text;
use crate::thread;
use crate::thread::Thread;

verus! {

// ---------------------------------------------------------------------------
// First lines
// ---------------------------------------------------------------------------

/// The first line of a text, or nothing.
pub open spec fn first_line(t: Seq<char>) -> Seq<char> {
    if text::lines(t).len() > 0 {
        text::lines(t)[0]
    } else {
        Seq::empty()
    }
}

/// What is kept of the texts of a stream, and whether more of it is read: the first line of each, up
/// to the first text with a second line.
pub open spec fn single_line_state(texts: Seq<Seq<char>>) -> (Seq<char>, bool)
    decreases texts.len(),
{
    if texts.len() == 0 {
        (Seq::empty(), false)
    } else {
        let (kept, stopped) = single_line_state(texts.drop_last());
        if stopped {
            (kept, true)
        } else {
            (kept + first_line(texts.last()), text::lines(texts.last()).len() >= 2)
        }
    }
}

/// The line that a stream of texts makes.
pub open spec fn single_line(texts: Seq<Seq<char>>) -> Seq<char> {
    single_line_state(texts).0
}

/// The first lines of all texts of a stream.
pub open spec fn all_first_lines(texts: Seq<Seq<char>>) -> Seq<char>
    decreases texts.len(),
{
    if texts.len() == 0 {
        Seq::empty()
    } else {
        all_first_lines(texts.drop_last()) + first_line(texts.last())
    }
}

/// Collects the line that a stream of texts makes: a title, or a summary. `push` says whether more of
/// the stream is to be read.
#[derive(Debug)]
pub struct LineCollector {
    pub kept: String,
    pub stopped: bool,
}

impl LineCollector {
    /// Whether the collector has taken in some texts.
    pub open spec fn has_seen(self, texts: Seq<Seq<char>>) -> bool {
        (self.kept@, self.stopped) == single_line_state(texts)
    }

    pub fn new() -> (r: LineCollector)
        ensures
            r.has_seen(Seq::empty()),
    {
        LineCollector { kept: String::new(), stopped: false }
    }

    /// Takes in a text of the stream.
    pub fn push(&mut self, t: &str) -> (more: bool)
        ensures
            forall|texts: Seq<Seq<char>>|
                old(self).has_seen(texts) ==> #[trigger] final(self).has_seen(texts.push(t@)),
            more == !final(self).stopped,
    {
        if !self.stopped {
            let lines = text::lines_of(t);
            assert(text::views(lines@).len() == lines@.len());
            if lines.len() > 0 {
                assert(text::views(lines@)[0] == lines@[0]@);
                self.kept.append(lines[0].as_str());
            }
            self.stopped = lines.len() >= 2;
        }
        proof {
            assert forall|texts: Seq<Seq<char>>|
                old(self).has_seen(texts) implies #[trigger] self.has_seen(texts.push(t@)) by {
                assert(texts.push(t@).drop_last() =~= texts);
                assert(self.kept@ =~= single_line_state(texts.push(t@)).0);
            }
        }
        !self.stopped
    }
}

/// The line that texts make.
pub fn single_line_of(texts: &Vec<String>) -> (r: String)
    ensures
        r@ == single_line(text::views(texts@)),
{
    let mut collector = LineCollector::new();
    let ghost all = text::views(texts@);
    assert(all.take(0) =~= Seq::<Seq<char>>::empty());
    for i in 0..texts.len()
        invariant
            all == text::views(texts@),
            collector.has_seen(all.take(i as int)),
    {
        assert(all.take(i + 1) =~= all.take(i as int).push(texts@[i as int]@));
        let _ = collector.push(texts[i].as_str());
    }
    assert(all.take(all.len() as int) =~= all);
    collector.kept
}

/// The first lines of all texts.
pub fn all_first_lines_of(texts: &Vec<String>) -> (r: String)
    ensures
        r@ == all_first_lines(text::views(texts@)),
{
    let mut out = String::new();
    let ghost all = text::views(texts@);
    for i in 0..texts.len()
        invariant
            all == text::views(texts@),
            out@ == all_first_lines(all.take(i as int)),
    {
        assert(all.take(i + 1).drop_last() =~= all.take(i as int));
        let lines = text::lines_of(texts[i].as_str());
        assert(text::views(lines@).len() == lines@.len());
        if lines.len() > 0 {
            assert(text::views(lines@)[0] == lines@[0]@);
            out.append(lines[0].as_str());
        }
        assert(out@ =~= all_first_lines(all.take(i + 1)));
    }
    assert(all.take(all.len() as int) =~= all);
    out
}

// ---------------------------------------------------------------------------
// Chunks
// ---------------------------------------------------------------------------

/// How many messages two chunks share.
pub open spec fn overlap_of(n: int) -> int {
    if n / 20 < 1 {
        1
    } else if n / 20 > 4 {
        4
    } else {
        n / 20
    }
}

/// A plan of chunks in the making: the chunks that are closed, and the messages from `start` up to
/// `end` that are known to fit into the next one.
pub ghost struct PlanView {
    pub n: int,
    pub chunks: Seq<(int, int)>,
    pub start: int,
    pub end: int,
    pub done: bool,
}

/// The plan before anything was counted.
pub open spec fn new_plan(n: int) -> PlanView {
    PlanView { n, chunks: Seq::empty(), start: 0, end: 0, done: false }
}

/// Where a chunk ends: it has at least one message.
pub open spec fn chunk_end(p: PlanView, fitting: int) -> int {
    if fitting == p.start {
        p.start + 1
    } else {
        fitting
    }
}

/// Where the chunk after one that ends at `end` starts: it shares some messages with it, and starts
/// behind its start.
pub open spec fn next_start(p: PlanView, end: int) -> int {
    if end - overlap_of(p.n) > p.start {
        end - overlap_of(p.n)
    } else {
        p.start + 1
    }
}

/// The plan with the chunk closed in which the messages up to `fitting` fit.
pub open spec fn closed_plan(p: PlanView, fitting: int) -> PlanView {
    let end = chunk_end(p, fitting);
    let chunks = p.chunks.push((p.start, end));
    if end >= p.n {
        PlanView { chunks, start: p.start, end, done: true, ..p }
    } else {
        let next = next_start(p, end);
        PlanView { chunks, start: next, end: next, done: false, ..p }
    }
}

/// The plan after it was found whether the message at `end` fits too.
pub open spec fn plan_step(p: PlanView, fits: bool) -> PlanView {
    if fits && p.end + 1 < p.n {
        PlanView { end: p.end + 1, ..p }
    } else if fits {
        closed_plan(p, p.end + 1)
    } else {
        closed_plan(p, p.end)
    }
}

/// What holds of every plan: chunks are not empty and lie in the conversation, the first starts at its
/// first message, no message is left out between two, and a plan that is done ends with the
/// conversation.
pub open spec fn plan_ok(p: PlanView) -> bool {
    &&& 0 < p.n
    &&& forall|i: int|
        0 <= i < p.chunks.len() ==> 0 <= (#[trigger] p.chunks[i]).0 < p.chunks[i].1 <= p.n
    &&& p.chunks.len() > 0 ==> p.chunks[0].0 == 0
    &&& forall|i: int|
        0 < i < p.chunks.len() ==> (#[trigger] p.chunks[i]).0 <= p.chunks[i - 1].1
    &&& p.done ==> p.chunks.len() > 0 && p.chunks.last().1 == p.n
    &&& !p.done ==> 0 <= p.start <= p.end < p.n
    &&& !p.done && p.chunks.len() == 0 ==> p.start == 0
    &&& !p.done && p.chunks.len() > 0 ==> p.start <= p.chunks.last().1
}

/// A plan of chunks in the making.
#[derive(Debug)]
pub struct ChunkPlan {
    pub n: usize,
    pub chunks: Vec<(usize, usize)>,
    pub start: usize,
    pub end: usize,
    pub done: bool,
}

/// What chunks hold.
pub open spec fn chunk_views(chunks: Seq<(usize, usize)>) -> Seq<(int, int)> {
    chunks.map_values(|c: (usize, usize)| (c.0 as int, c.1 as int))
}

impl View for ChunkPlan {
    type V = PlanView;

    open spec fn view(&self) -> PlanView {
        PlanView {
            n: self.n as int,
            chunks: chunk_views(self.chunks@),
            start: self.start as int,
            end: self.end as int,
            done: self.done,
        }
    }
}

/// Every step keeps a plan in order.
pub proof fn plan_step_is_ok(p: PlanView, fits: bool)
    requires
        plan_ok(p),
        !p.done,
    ensures
        plan_ok(plan_step(p, fits)),
{
    let q = plan_step(p, fits);
    if q.chunks.len() > p.chunks.len() {
        assert forall|i: int| 0 <= i < q.chunks.len() implies 0 <= (#[trigger] q.chunks[i]).0
            < q.chunks[i].1 <= q.n by {
            if i < p.chunks.len() {
                assert(q.chunks[i] == p.chunks[i]);
            }
        }
        assert forall|i: int| 0 < i < q.chunks.len() implies (#[trigger] q.chunks[i]).0
            <= q.chunks[i - 1].1 by {
            if i < p.chunks.len() {
                assert(q.chunks[i] == p.chunks[i]);
                assert(q.chunks[i - 1] == p.chunks[i - 1]);
            } else {
                assert(q.chunks[i - 1] == p.chunks.last());
            }
        }
    }
}

impl ChunkPlan {
    /// The plan for a conversation of `n` messages.
    pub fn new(n: usize) -> (r: ChunkPlan)
        requires
            n > 0,
        ensures
            r@ == new_plan(n as int),
            plan_ok(r@),
    {
        let r = ChunkPlan { n, chunks: Vec::new(), start: 0, end: 0, done: false };
        assert(chunk_views(r.chunks@) =~= Seq::<(int, int)>::empty());
        r
    }

    /// Goes on with the plan: `fits` says whether the messages from `start` to `end`, both included,
    /// fit into one request.
    pub fn step(&mut self, fits: bool)
        requires
            plan_ok(old(self)@),
            !old(self).done,
        ensures
            final(self)@ == plan_step(old(self)@, fits),
            plan_ok(final(self)@),
    {
        proof {
            plan_step_is_ok(self@, fits);
        }
        let ghost before = self@;
        let mut fitting: usize = self.end;
        if fits {
            fitting = self.end + 1;
            if fitting < self.n {
                self.end = fitting;
                return ;
            }
        }
        if fitting == self.start {
            fitting = self.start + 1;
        }
        let ghost seen = self.chunks@;
        self.chunks.push((self.start, fitting));
        assert(chunk_views(self.chunks@) =~= chunk_views(seen).push(
            (self.start as int, fitting as int),
        ));
        if fitting >= self.n {
            self.end = fitting;
            self.done = true;
        } else {
            let twentieth: usize = self.n / 20;
            let overlap: usize = if twentieth < 1 {
                1
            } else if twentieth > 4 {
                4
            } else {
                twentieth
            };
            let next: usize = if fitting - self.start > overlap {
                fitting - overlap
            } else {
                self.start + 1
            };
            self.start = next;
            self.end = next;
        }
    }
}

/// In a plan that is done every message is in a chunk.
pub proof fn chunks_cover_all(p: PlanView, k: int)
    requires
        plan_ok(p),
        p.done,
        0 <= k < p.n,
    ensures
        exists|i: int| 0 <= i < p.chunks.len() && (#[trigger] p.chunks[i]).0 <= k < p.chunks[i].1,
{
    let last = p.chunks.len() - 1;
    assert(p.chunks[last].1 == p.n);
    covered_up_to(p, last, k);
}

proof fn covered_up_to(p: PlanView, last: int, k: int)
    requires
        plan_ok(p),
        0 <= last < p.chunks.len(),
        0 <= k < p.chunks[last].1,
    ensures
        exists|i: int| 0 <= i <= last && (#[trigger] p.chunks[i]).0 <= k < p.chunks[i].1,
    decreases last,
{
    if p.chunks[last].0 <= k {
    } else {
        assert(p.chunks[0].0 == 0);
        assert(last > 0);
        assert(p.chunks[last].0 <= p.chunks[last - 1].1);
        covered_up_to(p, last - 1, k);
        let i = choose|i: int|
            0 <= i <= last - 1 && (#[trigger] p.chunks[i]).0 <= k < p.chunks[i].1;
        assert(0 <= i <= last && p.chunks[i].0 <= k < p.chunks[i].1);
    }
}

/// Every chunk that is closed moves the plan on.
pub proof fn chunks_make_progress(p: PlanView, fits: bool)
    requires
        plan_ok(p),
        !p.done,
        plan_step(p, fits).chunks.len() > p.chunks.len(),
    ensures
        plan_step(p, fits).done || plan_step(p, fits).start > p.start,
{
}

/// Two chunks in a row share as many messages as the overlap says, where the first is longer than that.
pub proof fn chunks_share_the_overlap(p: PlanView, fits: bool)
    requires
        plan_ok(p),
        !p.done,
        plan_step(p, fits).chunks.len() > p.chunks.len(),
        !plan_step(p, fits).done,
        plan_step(p, fits).chunks.last().1 - plan_step(p, fits).chunks.last().0 > overlap_of(p.n),
    ensures
        plan_step(p, fits).start == plan_step(p, fits).chunks.last().1 - overlap_of(p.n),
{
}

/// A bound on the steps that a plan still takes.
pub open spec fn steps_left(p: PlanView) -> int {
    if p.done {
        0
    } else {
        (p.n - p.start) * (p.n + 1) + (p.n - p.end)
    }
}

/// Every step brings the end of a plan nearer.
pub proof fn steps_bring_the_end_nearer(p: PlanView, fits: bool)
    requires
        plan_ok(p),
        !p.done,
    ensures
        0 <= steps_left(plan_step(p, fits)) < steps_left(p),
{
    plan_step_is_ok(p, fits);
    let q = plan_step(p, fits);
    let n = p.n;
    let s = p.start;
    assert((n - s) * (n + 1) >= 0) by (nonlinear_arith)
        requires
            0 <= s < n,
    ;
    if !q.done {
        let t = q.start;
        assert((n - t) * (n + 1) >= 0) by (nonlinear_arith)
            requires
                0 <= t < n,
        ;
        if t > s {
            assert((n - t) * (n + 1) + (n + 1) <= (n - s) * (n + 1)) by (nonlinear_arith)
                requires
                    0 <= s < t < n,
            ;
        }
    }
}

/// The plan after some answers to whether messages fit. What comes after its end does not count.
pub open spec fn plan_after(p: PlanView, answers: Seq<bool>) -> PlanView
    decreases answers.len(),
{
    if p.done || answers.len() == 0 {
        p
    } else {
        plan_after(plan_step(p, answers[0]), answers.drop_first())
    }
}

/// Every plan ends, whatever fits: it is done after as many answers as the bound says.
pub proof fn plans_end(p: PlanView, answers: Seq<bool>)
    requires
        plan_ok(p),
        answers.len() >= steps_left(p),
    ensures
        plan_after(p, answers).done,
        plan_ok(plan_after(p, answers)),
    decreases answers.len(),
{
    if !p.done {
        let fits = answers[0];
        steps_bring_the_end_nearer(p, fits);
        plan_step_is_ok(p, fits);
        if answers.len() > 0 {
            plans_end(plan_step(p, fits), answers.drop_first());
        }
    }
}

// ---------------------------------------------------------------------------
// Merging
// ---------------------------------------------------------------------------

/// The partial summaries, numbered.
pub open spec fn numbered_summaries(layer: Seq<Seq<char>>) -> Seq<char>
    decreases layer.len(),
{
    if layer.len() == 0 {
        Seq::empty()
    } else {
        numbered_summaries(layer.drop_last()) + ("Partial summary "@ + text::decimal(layer.len())
            + ":\n"@ + layer.last() + "\n\n"@)
    }
}

/// What a model is asked to merge partial summaries with.
pub open spec fn merge_block(layer: Seq<Seq<char>>) -> Seq<char> {
    numbered_summaries(layer)
        + "Combine these into one concise, comprehensive summary without duplication."@
}

/// The partial summaries joined two by two; the last of an odd number stays.
pub open spec fn next_layer(layer: Seq<Seq<char>>) -> Seq<Seq<char>>
    decreases layer.len(),
{
    if layer.len() == 0 {
        Seq::empty()
    } else if layer.len() == 1 {
        layer
    } else {
        seq![layer[0] + "\n\n"@ + layer[1]] + next_layer(layer.skip(2))
    }
}

/// The text that a model is asked to merge partial summaries with.
pub fn merge_block_text(layer: &Vec<String>) -> (r: String)
    ensures
        r@ == merge_block(text::views(layer@)),
{
    let ghost all = text::views(layer@);
    let mut out = String::new();
    let n: usize = layer.len();
    for i in 0..n
        invariant
            n == layer@.len(),
            all == text::views(layer@),
            out@ == numbered_summaries(all.take(i as int)),
    {
        assert(all.take(i + 1).drop_last() =~= all.take(i as int));
        assert(all.take(i + 1).last() == layer@[i as int]@);
        let mut part = "Partial summary ".to_owned();
        part.append(text::count_text(i + 1).as_str());
        part.append(":\n");
        part.append(layer[i].as_str());
        part.append("\n\n");
        out.append(part.as_str());
    }
    assert(all.take(all.len() as int) =~= all);
    out.append("Combine these into one concise, comprehensive summary without duplication.");
    out
}

/// The partial summaries joined two by two.
pub fn next_layer_of(layer: &Vec<String>) -> (r: Vec<String>)
    ensures
        text::views(r@) == next_layer(text::views(layer@)),
{
    let ghost all = text::views(layer@);
    let mut out: Vec<String> = Vec::new();
    let n: usize = layer.len();
    let mut i: usize = 0;
    assert(all.skip(0) =~= all);
    assert(text::views(out@) + next_layer(all) =~= next_layer(all));
    while i < n
        invariant
            n == layer@.len(),
            all == text::views(layer@),
            i <= n,
            text::views(out@) + next_layer(all.skip(i as int)) == next_layer(all),
        decreases n - i,
    {
        let ghost rest = all.skip(i as int);
        let ghost seen = out@;
        assert(rest[0] == layer@[i as int]@);
        if n - i >= 2 {
            assert(rest[1] == layer@[i + 1]@);
            let mut pair = layer[i].clone();
            pair.append("\n\n");
            pair.append(layer[i + 1].as_str());
            out.push(pair);
            assert(rest.skip(2) =~= all.skip(i + 2));
            assert(text::views(out@) =~= text::views(seen).push(pair@));
            assert(text::views(out@) + next_layer(all.skip(i + 2)) =~= text::views(seen)
                + next_layer(rest));
            i = i + 2;
        } else {
            let last = layer[i].clone();
            out.push(last);
            assert(rest =~= seq![last@]);
            assert(next_layer(rest) == rest);
            assert(all.skip(i + 1) =~= Seq::<Seq<char>>::empty());
            assert(text::views(out@) =~= text::views(seen).push(last@));
            assert(text::views(out@) + next_layer(all.skip(i + 1)) =~= text::views(seen)
                + next_layer(rest));
            i = i + 1;
        }
    }
    assert(all.skip(n as int) =~= Seq::<Seq<char>>::empty());
    assert(text::views(out@) + next_layer(all.skip(n as int)) =~= text::views(out@));
    out
}

/// Joining two by two halves the number of partial summaries: merging comes to an end.
pub proof fn layers_shrink(layer: Seq<Seq<char>>)
    ensures
        next_layer(layer).len() == (layer.len() + 1) / 2,
        layer.len() >= 2 ==> next_layer(layer).len() < layer.len(),
    decreases layer.len(),
{
    if layer.len() >= 2 {
        layers_shrink(layer.skip(2));
    }
}

/// Joining two by two keeps the text of every partial summary, in order.
pub proof fn layers_keep_the_text(layer: Seq<Seq<char>>)
    ensures
        text::join(next_layer(layer), "\n\n"@) == text::join(layer, "\n\n"@),
    decreases layer.len(),
{
    let sep = "\n\n"@;
    if layer.len() >= 2 {
        let rest = layer.skip(2);
        let pair = layer[0] + sep + layer[1];
        layers_keep_the_text(rest);
        layers_shrink(rest);
        join_from_first(seq![pair] + next_layer(rest), sep);
        join_from_first(layer, sep);
        join_from_first(layer.skip(1), sep);
        assert((seq![pair] + next_layer(rest)).skip(1) =~= next_layer(rest));
        assert(layer.skip(1).skip(1) =~= rest);
        assert(layer.skip(1)[0] == layer[1]);
        if layer.len() == 2 {
            assert(next_layer(rest) =~= rest);
            assert(rest =~= Seq::<Seq<char>>::empty());
            assert(seq![pair] + next_layer(rest) =~= seq![pair]);
        } else {
            assert(next_layer(rest).len() > 0);
            assert(pair + sep + text::join(rest, sep) =~= layer[0] + sep + (layer[1] + sep
                + text::join(rest, sep)));
        }
    }
}

proof fn join_from_first(parts: Seq<Seq<char>>, sep: Seq<char>)
    requires
        parts.len() >= 1,
    ensures
        text::join(parts, sep) == if parts.len() == 1 {
            parts[0]
        } else {
            parts[0] + sep + text::join(parts.skip(1), sep)
        },
    decreases parts.len(),
{
    if parts.len() >= 2 {
        let shorter = parts.drop_last();
        join_from_first(shorter, sep);
        if parts.len() == 2 {
            assert(parts.skip(1) =~= seq![parts[1]]);
        } else {
            assert(shorter.skip(1) =~= parts.skip(1).drop_last());
            assert(text::join(parts, sep) =~= parts[0] + sep + text::join(parts.skip(1), sep));
        }
    }
}

// ---------------------------------------------------------------------------
// The run
// ---------------------------------------------------------------------------

/// Why there is no summary.
#[derive(Debug, Clone, Copy, PartialEq, Eq, Structural)]
pub enum SummaryError {
    NoModel,
    AllChunksFailed,
    RequestFailed,
}

impl SummaryError {
    /// The error in words; `cause` is what a request failed with.
    pub fn message(&self, cause: &str) -> (r: String)
        ensures
            r@ == match self {
                SummaryError::NoModel => "No summarization model available"@,
                SummaryError::AllChunksFailed => "agent2 summary: all chunk summaries failed"@,
                SummaryError::RequestFailed => cause@,
            },
    {
        match self {
            SummaryError::NoModel => "No summarization model available".to_owned(),
            SummaryError::AllChunksFailed =>
                "agent2 summary: all chunk summaries failed".to_owned(),
            SummaryError::RequestFailed => cause.to_owned(),
        }
    }
}

/// What a summary waits for.
#[derive(Debug)]
pub enum SummaryPhase {
    /// The tokens of the whole conversation.
    CountAll,
    /// The tokens of a candidate for a chunk.
    CountChunk(ChunkPlan),
    /// The summaries of the chunks.
    Chunks,
    /// The tokens of a request that merges partial summaries.
    CountMerge(Vec<String>),
    /// The summary.
    Final,
    Done,
}

/// What came of the last action.
#[derive(Debug)]
pub enum SummaryEvent {
    /// The tokens that were counted, if they could be.
    Counted(Option<u64>),
    /// The summary, if the request did not fail.
    Summarized(Option<String>),
    /// The summary of each chunk whose request did not fail.
    SummarizedEach(Vec<Option<String>>),
}

/// What is to be done next.
#[derive(Debug)]
pub enum SummaryAction {
    Count(Vec<RequestMessage>),
    Summarize(Vec<RequestMessage>),
    SummarizeEach(Vec<Vec<RequestMessage>>),
    Finish(String),
    Fail(SummaryError),
}

pub ghost enum PhaseView {
    CountAll,
    CountChunk(PlanView),
    Chunks,
    CountMerge(Seq<Seq<char>>),
    Final,
    Done,
}

pub ghost enum SummaryEventView {
    Counted(Option<u64>),
    Summarized(Option<Seq<char>>),
    SummarizedEach(Seq<Option<Seq<char>>>),
}

pub ghost enum ActionView {
    Count(Seq<message::RequestView>),
    Summarize(Seq<message::RequestView>),
    SummarizeEach(Seq<Seq<message::RequestView>>),
    Finish(Seq<char>),
    Fail(SummaryError),
}

impl View for SummaryPhase {
    type V = PhaseView;

    open spec fn view(&self) -> PhaseView {
        match self {
            SummaryPhase::CountAll => PhaseView::CountAll,
            SummaryPhase::CountChunk(plan) => PhaseView::CountChunk(plan@),
            SummaryPhase::Chunks => PhaseView::Chunks,
            SummaryPhase::CountMerge(layer) => PhaseView::CountMerge(text::views(layer@)),
            SummaryPhase::Final => PhaseView::Final,
            SummaryPhase::Done => PhaseView::Done,
        }
    }
}

/// What optional summaries hold.
pub open spec fn opt_views(parts: Seq<Option<String>>) -> Seq<Option<Seq<char>>> {
    parts.map_values(|p: Option<String>| text::opt_view(p))
}

impl View for SummaryEvent {
    type V = SummaryEventView;

    open spec fn view(&self) -> SummaryEventView {
        match self {
            SummaryEvent::Counted(c) => SummaryEventView::Counted(*c),
            SummaryEvent::Summarized(s) => SummaryEventView::Summarized(text::opt_view(*s)),
            SummaryEvent::SummarizedEach(parts) => SummaryEventView::SummarizedEach(
                opt_views(parts@),
            ),
        }
    }
}

/// What lists of requests hold.
pub open spec fn request_lists(lists: Seq<Vec<RequestMessage>>) -> Seq<Seq<message::RequestView>> {
    lists.map_values(|l: Vec<RequestMessage>| message::request_views(l@))
}

impl View for SummaryAction {
    type V = ActionView;

    open spec fn view(&self) -> ActionView {
        match self {
            SummaryAction::Count(r) => ActionView::Count(message::request_views(r@)),
            SummaryAction::Summarize(r) => ActionView::Summarize(message::request_views(r@)),
            SummaryAction::SummarizeEach(lists) => ActionView::SummarizeEach(
                request_lists(lists@),
            ),
            SummaryAction::Finish(s) => ActionView::Finish(s@),
            SummaryAction::Fail(e) => ActionView::Fail(*e),
        }
    }
}

/// The requests of a part of the conversation, with the prompt behind them.
pub open spec fn part_requests(
    all: Seq<message::RequestView>,
    prompt: Seq<char>,
    from: int,
    to: int,
) -> Seq<message::RequestView> {
    all.subrange(from, to).push(completion::one_text(Role::User, prompt))
}

/// The requests of each chunk.
pub open spec fn chunk_requests(
    all: Seq<message::RequestView>,
    prompt: Seq<char>,
    chunks: Seq<(int, int)>,
) -> Seq<Seq<message::RequestView>> {
    chunks.map_values(|c: (int, int)| part_requests(all, prompt, c.0, c.1))
}

/// The request that merges partial summaries.
pub open spec fn merge_requests(layer: Seq<Seq<char>>) -> Seq<message::RequestView> {
    seq![completion::one_text(Role::User, merge_block(layer))]
}

/// The summaries that are there.
pub open spec fn given(parts: Seq<Option<Seq<char>>>) -> Seq<Seq<char>>
    decreases parts.len(),
{
    if parts.len() == 0 {
        Seq::empty()
    } else {
        match parts.last() {
            Some(s) => given(parts.drop_last()).push(s),
            None => given(parts.drop_last()),
        }
    }
}

/// Whether the conversation has to be split: only where it was counted, and is too long.
pub open spec fn too_long(counted: Option<u64>, max_tokens: u64) -> bool {
    counted matches Some(c) && c > max_tokens
}

/// Whether a candidate for a chunk fits: only where it was counted.
pub open spec fn chunk_fits(counted: Option<u64>, max_tokens: u64) -> bool {
    counted matches Some(c) && c <= max_tokens
}

/// The next phase and action, where the event is one that the phase waits for.
pub open spec fn next_step(
    phase: PhaseView,
    event: SummaryEventView,
    all: Seq<message::RequestView>,
    prompt: Seq<char>,
    max_tokens: u64,
) -> Option<(PhaseView, ActionView)> {
    let len = all.len() as int;
    match (phase, event) {
        (PhaseView::CountAll, SummaryEventView::Counted(c)) => if too_long(c, max_tokens)
            && len > 0 {
            Some(
                (
                    PhaseView::CountChunk(new_plan(len)),
                    ActionView::Count(part_requests(all, prompt, 0, 1)),
                ),
            )
        } else {
            Some((PhaseView::Final, ActionView::Summarize(part_requests(all, prompt, 0, len))))
        },
        (PhaseView::CountChunk(plan), SummaryEventView::Counted(c)) => {
            let next = plan_step(plan, chunk_fits(c, max_tokens));
            if next.done {
                Some(
                    (
                        PhaseView::Chunks,
                        ActionView::SummarizeEach(chunk_requests(all, prompt, next.chunks)),
                    ),
                )
            } else {
                Some(
                    (
                        PhaseView::CountChunk(next),
                        ActionView::Count(part_requests(all, prompt, next.start, next.end + 1)),
                    ),
                )
            }
        },
        (PhaseView::Chunks, SummaryEventView::SummarizedEach(parts)) => if given(parts).len()
            == 0 {
            Some((PhaseView::Done, ActionView::Fail(SummaryError::AllChunksFailed)))
        } else {
            Some(
                (
                    PhaseView::CountMerge(given(parts)),
                    ActionView::Count(merge_requests(given(parts))),
                ),
            )
        },
        (PhaseView::CountMerge(layer), SummaryEventView::Counted(c)) => if !too_long(c, max_tokens)
            || layer.len() == 1 {
            Some((PhaseView::Final, ActionView::Summarize(merge_requests(layer))))
        } else {
            Some(
                (
                    PhaseView::CountMerge(next_layer(layer)),
                    ActionView::Count(merge_requests(next_layer(layer))),
                ),
            )
        },
        (PhaseView::Final, SummaryEventView::Summarized(s)) => Some(
            (
                PhaseView::Done,
                match s {
                    Some(t) => ActionView::Finish(t),
                    None => ActionView::Fail(SummaryError::RequestFailed),
                },
            ),
        ),
        _ => None,
    }
}

/// A summary in the making. `requests` are those of the conversation, without the prompt.
#[derive(Debug)]
pub struct SummaryRun {
    pub requests: Vec<RequestMessage>,
    pub prompt: String,
    pub max_tokens: u64,
    pub phase: SummaryPhase,
}

impl SummaryRun {
    /// Whether the phase fits the conversation.
    pub open spec fn wf(self) -> bool {
        match self.phase@ {
            PhaseView::CountChunk(plan) => plan_ok(plan) && !plan.done && plan.n
                == self.requests@.len(),
            _ => true,
        }
    }

    fn part(&self, from: usize, to: usize) -> (r: Vec<RequestMessage>)
        requires
            from <= to <= self.requests@.len(),
        ensures
            message::request_views(r@) == part_requests(
                message::request_views(self.requests@),
                self.prompt@,
                from as int,
                to as int,
            ),
    {
        let mut out = message::copy_requests(&self.requests, from, to);
        let ghost seen = out@;
        let asked = completion::one_text_request(Role::User, self.prompt.as_str());
        out.push(asked);
        assert(message::request_views(out@) =~= message::request_views(seen).push(asked@));
        out
    }

    fn merge(layer: &Vec<String>) -> (r: Vec<RequestMessage>)
        ensures
            message::request_views(r@) == merge_requests(text::views(layer@)),
    {
        let block = merge_block_text(layer);
        let mut out: Vec<RequestMessage> = Vec::new();
        out.push(completion::one_text_request(Role::User, block.as_str()));
        assert(message::request_views(out@) =~= merge_requests(text::views(layer@)));
        out
    }

    fn chunk_parts(&self, chunks: &Vec<(usize, usize)>) -> (r: Vec<Vec<RequestMessage>>)
        requires
            forall|i: int|
                0 <= i < chunks@.len() ==> (#[trigger] chunks@[i]).0 <= chunks@[i].1
                    <= self.requests@.len(),
        ensures
            request_lists(r@) == chunk_requests(
                message::request_views(self.requests@),
                self.prompt@,
                chunk_views(chunks@),
            ),
    {
        let mut out: Vec<Vec<RequestMessage>> = Vec::new();
        for i in 0..chunks.len()
            invariant
                forall|i: int|
                    0 <= i < chunks@.len() ==> (#[trigger] chunks@[i]).0 <= chunks@[i].1
                        <= self.requests@.len(),
                out@.len() == i,
                forall|k: int|
                    0 <= k < i ==> message::request_views((#[trigger] out@[k])@)
                        == part_requests(
                        message::request_views(self.requests@),
                        self.prompt@,
                        chunks@[k].0 as int,
                        chunks@[k].1 as int,
                    ),
        {
            let part = self.part(chunks[i].0, chunks[i].1);
            out.push(part);
        }
        assert(request_lists(out@) =~= chunk_requests(
            message::request_views(self.requests@),
            self.prompt@,
            chunk_views(chunks@),
        ));
        out
    }

    /// Begins a summary: first the tokens of the whole conversation are counted.
    pub fn new(requests: Vec<RequestMessage>, prompt: String, max_tokens: u64) -> (r: (
        SummaryRun,
        SummaryAction,
    ))
        ensures
            r.0.wf(),
            r.0.requests == requests,
            r.0.prompt == prompt,
            r.0.max_tokens == max_tokens,
            r.0.phase@ == PhaseView::CountAll,
            r.1@ == ActionView::Count(
                part_requests(
                    message::request_views(requests@),
                    prompt@,
                    0,
                    requests@.len() as int,
                ),
            ),
    {
        let run = SummaryRun { requests, prompt, max_tokens, phase: SummaryPhase::CountAll };
        let n: usize = run.requests.len();
        let action = SummaryAction::Count(run.part(0, n));
        (run, action)
    }

    /// Goes on after an event. An event that the phase does not wait for changes nothing.
    pub fn step(&mut self, event: SummaryEvent) -> (r: Option<SummaryAction>)
        requires
            old(self).wf(),
        ensures
            final(self).wf(),
            final(self).requests == old(self).requests,
            final(self).prompt == old(self).prompt,
            final(self).max_tokens == old(self).max_tokens,
            match next_step(
                old(self).phase@,
                event@,
                message::request_views(old(self).requests@),
                old(self).prompt@,
                old(self).max_tokens,
            ) {
                Some((phase, action)) => final(self).phase@ == phase && (r matches Some(a) && a@
                    == action),
                None => final(self).phase == old(self).phase && r is None,
            },
    {
        let ghost views = message::request_views(self.requests@);
        assert(views.len() == self.requests@.len());
        let mut phase = SummaryPhase::Done;
        std::mem::swap(&mut phase, &mut self.phase);
        match (phase, event) {
            (SummaryPhase::CountAll, SummaryEvent::Counted(c)) => {
                let split = match c {
                    Some(c) => c > self.max_tokens,
                    None => false,
                };
                let n: usize = self.requests.len();
                if split && n > 0 {
                    self.phase = SummaryPhase::CountChunk(ChunkPlan::new(n));
                    Some(SummaryAction::Count(self.part(0, 1)))
                } else {
                    self.phase = SummaryPhase::Final;
                    Some(SummaryAction::Summarize(self.part(0, n)))
                }
            },
            (SummaryPhase::CountChunk(plan), SummaryEvent::Counted(c)) => {
                let fits = match c {
                    Some(c) => c <= self.max_tokens,
                    None => false,
                };
                let mut plan = plan;
                plan.step(fits);
                if plan.done {
                    proof {
                        assert forall|i: int| 0 <= i < plan.chunks@.len() implies (
                        #[trigger] plan.chunks@[i]).0 <= plan.chunks@[i].1
                            <= self.requests@.len() by {
                            assert(plan@.chunks[i] == (
                                plan.chunks@[i].0 as int,
                                plan.chunks@[i].1 as int,
                            ));
                        }
                    }
                    self.phase = SummaryPhase::Chunks;
                    Some(SummaryAction::SummarizeEach(self.chunk_parts(&plan.chunks)))
                } else {
                    let from: usize = plan.start;
                    let to: usize = plan.end + 1;
                    self.phase = SummaryPhase::CountChunk(plan);
                    Some(SummaryAction::Count(self.part(from, to)))
                }
            },
            (SummaryPhase::Chunks, SummaryEvent::SummarizedEach(parts)) => {
                let layer = given_summaries(parts);
                assert(text::views(layer@).len() == layer@.len());
                if layer.len() == 0 {
                    self.phase = SummaryPhase::Done;
                    Some(SummaryAction::Fail(SummaryError::AllChunksFailed))
                } else {
                    let action = SummaryAction::Count(Self::merge(&layer));
                    self.phase = SummaryPhase::CountMerge(layer);
                    Some(action)
                }
            },
            (SummaryPhase::CountMerge(layer), SummaryEvent::Counted(c)) => {
                assert(text::views(layer@).len() == layer@.len());
                let fits = match c {
                    Some(c) => c <= self.max_tokens,
                    None => true,
                };
                if fits || layer.len() == 1 {
                    self.phase = SummaryPhase::Final;
                    Some(SummaryAction::Summarize(Self::merge(&layer)))
                } else {
                    let next = next_layer_of(&layer);
                    let action = SummaryAction::Count(Self::merge(&next));
                    self.phase = SummaryPhase::CountMerge(next);
                    Some(action)
                }
            },
            (SummaryPhase::Final, SummaryEvent::Summarized(s)) => {
                self.phase = SummaryPhase::Done;
                match s {
                    Some(t) => Some(SummaryAction::Finish(t)),
                    None => Some(SummaryAction::Fail(SummaryError::RequestFailed)),
                }
            },
            (other, _) => {
                self.phase = other;
                None
            },
        }
    }
}

fn given_summaries(parts: Vec<Option<String>>) -> (r: Vec<String>)
    ensures
        text::views(r@) == given(opt_views(parts@)),
{
    let ghost all = opt_views(parts@);
    let mut out: Vec<String> = Vec::new();
    assert(text::views(out@) =~= given(all.take(0)));
    for i in 0..parts.len()
        invariant
            all == opt_views(parts@),
            text::views(out@) == given(all.take(i as int)),
    {
        assert(all.take(i + 1).drop_last() =~= all.take(i as int));
        assert(all.take(i + 1).last() == text::opt_view(parts@[i as int]));
        if let Some(s) = &parts[i] {
            let ghost seen = out@;
            let s = s.clone();
            out.push(s);
            assert(text::views(out@) =~= text::views(seen).push(s@));
        }
    }
    assert(all.take(all.len() as int) =~= all);
    out
}

// ---------------------------------------------------------------------------
// Threads
// ---------------------------------------------------------------------------

/// How a summary of a thread begins.
#[derive(Debug)]
pub enum SummaryStart {
    /// There is one.
    Ready(String),
    /// One is made: these are the requests of the whole conversation, without the prompt, and the
    /// ranges to be archived again.
    Run { requests: Vec<RequestMessage>, ranges: Vec<SegmentRange> },
    Fail(SummaryError),
}

impl Thread {
    /// Begins a summary: the whole archive is put back first, so that it covers everything.
    pub fn begin_summary(&mut self) -> (r: SummaryStart)
        ensures
            match r {
                SummaryStart::Ready(s) => old(self)@.summary == Some(s@) && final(self)@
                    == old(self)@,
                SummaryStart::Fail(e) => old(self)@.summary is None && !old(self)@.has_summarization_model && e == SummaryError::NoModel && final(self)@ == old(self)@,
                SummaryStart::Run { requests, ranges } => old(self)@.summary is None && old(self)@.has_summarization_model && final(self)@ == archive::fully_restored(old(self)@)
                    && message::request_views(requests@) == archive::numbered_requests(
                    final(self)@.messages,
                ) && archive::range_views(ranges@) == archive::opened_ranges(old(self)@),
            },
    {
        if let Some(s) = &self.summary {
            return SummaryStart::Ready(s.clone());
        }
        if !self.has_summarization_model {
            return SummaryStart::Fail(SummaryError::NoModel);
        }
        let ranges = self.restore_all_segments();
        let requests = archive::numbered_requests_of(&self.messages);
        SummaryStart::Run { requests, ranges }
    }

    /// Ends a summary: the archive is rebuilt, and the summary is kept.
    pub fn finish_summary(&mut self, ranges: Vec<SegmentRange>, summary: String, now: u128)
        ensures
            final(self)@ == (thread::ThreadView {
                summary: Some(summary@),
                ..archive::rearchived(old(self)@, archive::range_views(ranges@), now)
            }),
    {
        self.rearchive_segments_after_full_restore(ranges, now);
        self.summary = Some(summary);
    }

    /// Puts the whole archive back to be summarised. Without a model for it, the archive is rebuilt at
    /// once; with one, what is asked of it is given back.
    pub fn summarize_with_full_restore_and_rearchive(&mut self, prompt: &str, now: u128) -> (r:
        Option<(Vec<RequestMessage>, Vec<SegmentRange>)>)
        ensures
            match r {
                None => !old(self)@.has_summarization_model && final(self)@ == archive::rearchived(
                    archive::fully_restored(old(self)@),
                    archive::opened_ranges(old(self)@),
                    now,
                ),
                Some((requests, ranges)) => old(self)@.has_summarization_model && final(self)@
                    == archive::fully_restored(old(self)@) && message::request_views(requests@)
                    == archive::numbered_requests(final(self)@.messages).push(
                    completion::one_text(Role::User, prompt@),
                ) && archive::range_views(ranges@) == archive::opened_ranges(old(self)@),
            },
    {
        let ranges = self.restore_all_segments();
        if !self.has_summarization_model {
            self.rearchive_segments_after_full_restore(ranges, now);
            return None;
        }
        let requests = self.prompted_requests(prompt);
        Some((requests, ranges))
    }
}

} // verus!
