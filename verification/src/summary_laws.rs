//! What holds of summaries as a whole: nothing that was said is left out on the way.

use vstd::prelude::*;

use crate::message;
use crate::message::Role;
use crate::summary;
use crate::summary::SummaryError;
use crate::text;
use crate::text_laws;

verus! {

// ---------------------------------------------------------------------------
// Partial summaries
// ---------------------------------------------------------------------------

/// The layer that is merged after the chunks were summarised holds every partial summary that is
/// there, in order, and nothing else; without any there is no summary.
pub proof fn partial_summaries_are_all_merged(
    parts: Seq<Option<Seq<char>>>,
    all: Seq<message::RequestView>,
    prompt: Seq<char>,
    max_tokens: u64,
)
    ensures
        ({
            let there = parts.filter_map(|p: Option<Seq<char>>| p);
            let next = summary::next_step(
                summary::PhaseView::Chunks,
                summary::SummaryEventView::SummarizedEach(parts),
                all,
                prompt,
                max_tokens,
            );
            if there.len() == 0 {
                next == Some(
                    (
                        summary::PhaseView::Done,
                        summary::ActionView::Fail(SummaryError::AllChunksFailed),
                    ),
                )
            } else {
                next == Some(
                    (
                        summary::PhaseView::CountMerge(there),
                        summary::ActionView::Count(summary::merge_requests(there)),
                    ),
                )
            }
        }),
{
    given_is_what_is_there(parts);
}

proof fn given_is_what_is_there(parts: Seq<Option<Seq<char>>>)
    ensures
        summary::given(parts) == parts.filter_map(|p: Option<Seq<char>>| p),
    decreases parts.len(),
{
    reveal(Seq::filter_map);
    if parts.len() > 0 {
        given_is_what_is_there(parts.drop_last());
        assert(summary::given(parts) =~= parts.filter_map(|p: Option<Seq<char>>| p));
    }
}

/// A partial summary stands in the layer behind those that came before it: at the number of partial
/// summaries before it that are there.
pub proof fn partial_summaries_keep_their_order(parts: Seq<Option<Seq<char>>>, i: int)
    requires
        0 <= i < parts.len(),
        parts[i] is Some,
    ensures
        ({
            let before = parts.take(i).filter(|p: Option<Seq<char>>| p is Some).len() as int;
            &&& summary::given(parts).len() == parts.filter(
                |p: Option<Seq<char>>| p is Some,
            ).len()
            &&& before < summary::given(parts).len()
            &&& summary::given(parts)[before] == parts[i]->0
        }),
    decreases parts.len(),
{
    let less = parts.drop_last();
    let is_there = |p: Option<Seq<char>>| p is Some;
    given_counts(parts);
    given_counts(less);
    if i < less.len() {
        partial_summaries_keep_their_order(less, i);
        assert(less.take(i) == parts.take(i));
    } else {
        assert(less == parts.take(i));
    }
}

proof fn given_counts(parts: Seq<Option<Seq<char>>>)
    ensures
        summary::given(parts).len() == parts.filter(|p: Option<Seq<char>>| p is Some).len(),
    decreases parts.len(),
{
    reveal(Seq::filter);
    if parts.len() > 0 {
        given_counts(parts.drop_last());
    }
}

/// Where no chunk failed, every partial summary is merged.
pub proof fn without_failures_all_are_merged(parts: Seq<Option<Seq<char>>>)
    requires
        forall|i: int| 0 <= i < parts.len() ==> (#[trigger] parts[i]) is Some,
    ensures
        summary::given(parts) == Seq::new(parts.len(), |i: int| parts[i]->0),
    decreases parts.len(),
{
    if parts.len() > 0 {
        let less = parts.drop_last();
        assert forall|i: int| 0 <= i < less.len() implies (#[trigger] less[i]) is Some by {
            assert(less[i] == parts[i]);
        }
        without_failures_all_are_merged(less);
        assert(parts.last() == parts[parts.len() - 1]);
        assert(summary::given(parts) =~= Seq::new(parts.len(), |i: int| parts[i]->0));
    }
}

/// What a model is asked to merge: one text of the user, that holds every partial summary under its
/// number, in order, and behind them what is to be done with them.
pub proof fn merging_asks_for_every_summary(layer: Seq<Seq<char>>)
    ensures
        ({
            let asked = summary::merge_requests(layer);
            let sections = Seq::new(
                layer.len(),
                |i: int|
                    "Partial summary "@ + text::decimal((i + 1) as nat) + ":\n"@ + layer[i] + "\n\n"@,
            );
            &&& asked.len() == 1
            &&& asked[0].role == Role::User
            &&& !asked[0].cache
            &&& asked[0].content == seq![
                message::ContentView::Text(
                    sections.flatten()
                        + "Combine these into one concise, comprehensive summary without duplication."@,
                ),
            ]
        }),
{
    numbered_in_sections(layer);
    assert(summary::merge_requests(layer)[0].content =~= seq![
        message::ContentView::Text(summary::merge_block(layer)),
    ]);
}

proof fn numbered_in_sections(layer: Seq<Seq<char>>)
    ensures
        summary::numbered_summaries(layer) == Seq::new(
            layer.len(),
            |i: int|
                "Partial summary "@ + text::decimal((i + 1) as nat) + ":\n"@ + layer[i] + "\n\n"@,
        ).flatten(),
    decreases layer.len(),
{
    let sections = Seq::new(
        layer.len(),
        |i: int| "Partial summary "@ + text::decimal((i + 1) as nat) + ":\n"@ + layer[i] + "\n\n"@,
    );
    if layer.len() == 0 {
        assert(sections.flatten() =~= Seq::empty());
    } else {
        let less = layer.drop_last();
        numbered_in_sections(less);
        assert(sections.drop_last() =~= Seq::new(
            less.len(),
            |i: int|
                "Partial summary "@ + text::decimal((i + 1) as nat) + ":\n"@ + less[i] + "\n\n"@,
        ));
        text_laws::flattened_one_by_one(sections);
    }
}

/// Joining two by two puts each pair into one text, in order; the last of an odd number stays as it is.
pub proof fn layers_join_pairs(layer: Seq<Seq<char>>, i: int)
    requires
        0 <= 2 * i < layer.len(),
    ensures
        i < summary::next_layer(layer).len(),
        summary::next_layer(layer)[i] == if 2 * i + 1 < layer.len() {
            layer[2 * i] + "\n\n"@ + layer[2 * i + 1]
        } else {
            layer[2 * i]
        },
    decreases layer.len(),
{
    summary::layers_shrink(layer);
    if i > 0 {
        layers_join_pairs(layer.skip(2), i - 1);
    }
}

// ---------------------------------------------------------------------------
// The run
// ---------------------------------------------------------------------------

/// Whether requests are messages of a conversation in a row, each as it is, with the prompt behind them
/// as a text of the user.
pub open spec fn asks_for(
    asked: Seq<message::RequestView>,
    all: Seq<message::RequestView>,
    prompt: Seq<char>,
    from: int,
    to: int,
) -> bool {
    &&& 0 <= from <= to <= all.len()
    &&& asked.len() == to - from + 1
    &&& asked.drop_last() == all.subrange(from, to)
    &&& asked.last().role == Role::User
    &&& asked.last().content == seq![message::ContentView::Text(prompt)]
    &&& !asked.last().cache
}

proof fn part_asks_for(
    all: Seq<message::RequestView>,
    prompt: Seq<char>,
    from: int,
    to: int,
)
    requires
        0 <= from <= to <= all.len(),
    ensures
        asks_for(summary::part_requests(all, prompt, from, to), all, prompt, from, to),
{
    let asked = summary::part_requests(all, prompt, from, to);
    assert(asked.drop_last() =~= all.subrange(from, to));
}

/// A conversation that fits, or that could not be counted, is summarised in one request with all of its
/// messages; one that does not fit is split, and the count of its first message is asked for.
pub proof fn a_conversation_is_split_only_where_it_is_too_long(
    counted: Option<u64>,
    all: Seq<message::RequestView>,
    prompt: Seq<char>,
    max_tokens: u64,
)
    ensures
        ({
            let next = summary::next_step(
                summary::PhaseView::CountAll,
                summary::SummaryEventView::Counted(counted),
                all,
                prompt,
                max_tokens,
            );
            if all.len() > 0 && counted is Some && counted->0 > max_tokens {
                &&& next matches Some(
                    (summary::PhaseView::CountChunk(plan), summary::ActionView::Count(asked)),
                )
                &&& plan.n == all.len() && plan.chunks.len() == 0 && plan.start == 0 && plan.end
                    == 0 && !plan.done
                &&& asks_for(asked, all, prompt, 0, 1)
            } else {
                &&& next matches Some(
                    (summary::PhaseView::Final, summary::ActionView::Summarize(asked)),
                )
                &&& asks_for(asked, all, prompt, 0, all.len() as int)
            }
        }),
{
    part_asks_for(all, prompt, 0, all.len() as int);
    if all.len() > 0 {
        part_asks_for(all, prompt, 0, 1);
    }
}

/// While a conversation is split, a message joins the chunk at hand exactly where the chunk with it was
/// counted and fits. A chunk that nothing fits into has one message, and the next chunk starts behind
/// the start of the one before it, so that they share messages, at most four, and leave none out.
#[verifier::rlimit(40)]
pub proof fn chunks_grow_while_they_fit(
    plan: summary::PlanView,
    counted: Option<u64>,
    all: Seq<message::RequestView>,
    prompt: Seq<char>,
    max_tokens: u64,
)
    requires
        summary::plan_ok(plan),
        !plan.done,
        plan.n == all.len(),
    ensures
        ({
            let fits = counted is Some && counted->0 <= max_tokens;
            let next = summary::next_step(
                summary::PhaseView::CountChunk(plan),
                summary::SummaryEventView::Counted(counted),
                all,
                prompt,
                max_tokens,
            );
            let closed = if fits || plan.end == plan.start {
                plan.end + 1
            } else {
                plan.end
            };
            if fits && plan.end + 1 < all.len() {
                &&& next matches Some(
                    (summary::PhaseView::CountChunk(p), summary::ActionView::Count(asked)),
                )
                &&& p.chunks == plan.chunks && p.start == plan.start && p.end == plan.end + 1
                &&& asks_for(asked, all, prompt, plan.start, plan.end + 2)
            } else if closed < all.len() {
                &&& next matches Some(
                    (summary::PhaseView::CountChunk(p), summary::ActionView::Count(asked)),
                )
                &&& p.chunks == plan.chunks.push((plan.start, closed))
                &&& p.start == p.end
                &&& plan.start < p.start <= closed <= p.start + 4
                &&& closed - plan.start > 4 ==> p.start < closed
                &&& asks_for(asked, all, prompt, p.start, p.start + 1)
            } else {
                &&& next matches Some(
                    (summary::PhaseView::Chunks, summary::ActionView::SummarizeEach(lists)),
                )
                &&& lists.len() == plan.chunks.len() + 1
                &&& forall|i: int|
                    0 <= i < plan.chunks.len() ==> asks_for(
                        #[trigger] lists[i],
                        all,
                        prompt,
                        plan.chunks[i].0,
                        plan.chunks[i].1,
                    )
                &&& asks_for(lists.last(), all, prompt, plan.start, all.len() as int)
            }
        }),
{
    let fits = summary::chunk_fits(counted, max_tokens);
    let p = summary::plan_step(plan, fits);
    summary::plan_step_is_ok(plan, fits);
    if p.done {
        let lists = summary::chunk_requests(all, prompt, p.chunks);
        assert forall|i: int| 0 <= i < p.chunks.len() implies asks_for(
            #[trigger] lists[i],
            all,
            prompt,
            p.chunks[i].0,
            p.chunks[i].1,
        ) by {
            part_asks_for(all, prompt, p.chunks[i].0, p.chunks[i].1);
        }
        assert forall|i: int| 0 <= i < plan.chunks.len() implies asks_for(
            #[trigger] lists[i],
            all,
            prompt,
            plan.chunks[i].0,
            plan.chunks[i].1,
        ) by {
            assert(p.chunks[i] == plan.chunks[i]);
        }
        assert(lists[lists.len() - 1] == lists.last());
        assert(p.chunks[lists.len() - 1] == p.chunks.last());
    } else {
        part_asks_for(all, prompt, p.start, p.end + 1);
    }
}

/// Every message of a conversation that is split goes to a model, in one of the requests at least, and
/// each of these ends with the prompt.
pub proof fn every_message_is_summarised(
    plan: summary::PlanView,
    counted: Option<u64>,
    all: Seq<message::RequestView>,
    prompt: Seq<char>,
    max_tokens: u64,
    lists: Seq<Seq<message::RequestView>>,
    k: int,
)
    requires
        summary::plan_ok(plan),
        !plan.done,
        plan.n == all.len(),
        summary::next_step(
            summary::PhaseView::CountChunk(plan),
            summary::SummaryEventView::Counted(counted),
            all,
            prompt,
            max_tokens,
        ) == Some((summary::PhaseView::Chunks, summary::ActionView::SummarizeEach(lists))),
        0 <= k < all.len(),
    ensures
        exists|i: int, j: int|
            0 <= i < lists.len() && 0 <= j < lists[i].len() - 1 && #[trigger] lists[i][j] == all[k]
                && lists[i].last().content == seq![message::ContentView::Text(prompt)],
{
    let fits = summary::chunk_fits(counted, max_tokens);
    let p = summary::plan_step(plan, fits);
    summary::plan_step_is_ok(plan, fits);
    summary::chunks_cover_all(p, k);
    let i = choose|i: int|
        0 <= i < p.chunks.len() && (#[trigger] p.chunks[i]).0 <= k < p.chunks[i].1;
    assert(lists[i] == summary::part_requests(all, prompt, p.chunks[i].0, p.chunks[i].1));
    assert(lists[i][k - p.chunks[i].0] == all[k]);
}

/// How many messages two chunks share: one for every twenty of the conversation, but at least one and at
/// most four.
pub proof fn the_overlap_grows_with_the_conversation(n: int)
    requires
        0 <= n,
    ensures
        1 <= summary::overlap_of(n) <= 4,
        summary::overlap_of(n) > 1 ==> 20 * summary::overlap_of(n) <= n,
        summary::overlap_of(n) < 4 ==> n < 20 * (summary::overlap_of(n) + 1),
{
}

/// Partial summaries are merged as they are where the request fits, could not be counted or has but
/// one of them; else they are joined two by two first.
pub proof fn layers_are_joined_only_where_they_are_too_long(
    layer: Seq<Seq<char>>,
    counted: Option<u64>,
    all: Seq<message::RequestView>,
    prompt: Seq<char>,
    max_tokens: u64,
)
    ensures
        ({
            let next = summary::next_step(
                summary::PhaseView::CountMerge(layer),
                summary::SummaryEventView::Counted(counted),
                all,
                prompt,
                max_tokens,
            );
            if counted is Some && counted->0 > max_tokens && layer.len() != 1 {
                next matches Some(
                    (summary::PhaseView::CountMerge(joined), summary::ActionView::Count(asked)),
                ) && joined.len() == (layer.len() + 1) / 2 && asked == summary::merge_requests(
                    joined,
                ) && forall|i: int|
                    0 <= i < joined.len() ==> #[trigger] joined[i] == if 2 * i + 1 < layer.len() {
                        layer[2 * i] + "\n\n"@ + layer[2 * i + 1]
                    } else {
                        layer[2 * i]
                    }
            } else {
                next == Some(
                    (
                        summary::PhaseView::Final,
                        summary::ActionView::Summarize(summary::merge_requests(layer)),
                    ),
                )
            }
        }),
{
    summary::layers_shrink(layer);
    let joined = summary::next_layer(layer);
    assert forall|i: int| 0 <= i < joined.len() implies #[trigger] joined[i] == if 2 * i + 1
        < layer.len() {
        layer[2 * i] + "\n\n"@ + layer[2 * i + 1]
    } else {
        layer[2 * i]
    } by {
        layers_join_pairs(layer, i);
    }
}

/// What the model wrote last is the summary, as it is; where it wrote none, there is none.
pub proof fn the_last_answer_is_the_summary(
    answer: Option<Seq<char>>,
    all: Seq<message::RequestView>,
    prompt: Seq<char>,
    max_tokens: u64,
)
    ensures
        ({
            let next = summary::next_step(
                summary::PhaseView::Final,
                summary::SummaryEventView::Summarized(answer),
                all,
                prompt,
                max_tokens,
            );
            &&& next matches Some((summary::PhaseView::Done, action))
            &&& answer is Some ==> action == summary::ActionView::Finish(answer->0)
            &&& answer is None ==> action == summary::ActionView::Fail(SummaryError::RequestFailed)
        }),
{
}

// ---------------------------------------------------------------------------
// First lines
// ---------------------------------------------------------------------------

/// Texts without line feeds make a line that holds all of them, in order.
pub proof fn texts_of_one_line_are_all_kept(texts: Seq<Seq<char>>)
    requires
        forall|i: int| 0 <= i < texts.len() ==> !(#[trigger] texts[i]).contains('\n'),
    ensures
        summary::single_line(texts) == texts.flatten(),
        summary::all_first_lines(texts) == texts.flatten(),
        !summary::single_line_state(texts).1,
    decreases texts.len(),
{
    if texts.len() == 0 {
        assert(texts.flatten() =~= Seq::empty());
    } else {
        let less = texts.drop_last();
        assert forall|i: int| 0 <= i < less.len() implies !(#[trigger] less[i]).contains('\n') by {
            assert(less[i] == texts[i]);
        }
        texts_of_one_line_are_all_kept(less);
        assert(texts.last() == texts[texts.len() - 1]);
        text_laws::a_line_is_its_own_line(texts.last());
        text_laws::flattened_one_by_one(texts);
        assert(summary::first_line(texts.last()) =~= texts.last());
    }
}

/// The line that texts make ends where a second line begins: with the first line of the text that has
/// one. What comes behind that text is not read.
pub proof fn the_line_ends_with_the_first_break(
    texts: Seq<Seq<char>>,
    first: Seq<char>,
    rest: Seq<char>,
    unread: Seq<Seq<char>>,
)
    requires
        forall|i: int| 0 <= i < texts.len() ==> !(#[trigger] texts[i]).contains('\n'),
        !first.contains('\n'),
        first.len() > 0 ==> first.last() != '\r',
        rest.len() > 0,
    ensures
        summary::single_line(texts.push(first + "\n"@ + rest) + unread) == texts.flatten() + first,
        summary::single_line_state(texts.push(first + "\n"@ + rest) + unread).1,
    decreases unread.len(),
{
    let broken = first + "\n"@ + rest;
    if unread.len() == 0 {
        texts_of_one_line_are_all_kept(texts);
        text_laws::a_line_and_more(first, rest);
        text_laws::lines_are_there(rest);
        assert(texts.push(broken) + unread =~= texts.push(broken));
        assert(texts.push(broken).drop_last() =~= texts);
        assert(text::lines(broken)[0] == first);
    } else {
        the_line_ends_with_the_first_break(texts, first, rest, unread.drop_last());
        assert((texts.push(broken) + unread).drop_last() =~= texts.push(broken)
            + unread.drop_last());
    }
}

} // verus!
