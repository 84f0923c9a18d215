//! How many tokens messages take: an estimate from their length, and what is made of the counts that
//! a model gives.

use vstd::prelude::*;
use vstd::utf8::*;

use crate::message;
use crate::message::{MessageContent, RequestMessage};
use crate::text;

verus! {

/// The weight of an image in the estimate.
pub const IMAGE_CHARS: usize = 7;

/// The weight of a call of a tool in the estimate.
pub const TOOL_USE_CHARS: usize = 11;

/// The weight of a tool result in the estimate.
pub const TOOL_RESULT_CHARS: usize = 14;

/// The weight of one piece of a request in the estimate; that of a text is its length in bytes.
pub open spec fn content_chars(c: message::ContentView) -> nat {
    match c {
        message::ContentView::Text(t) => encode_utf8(t).len(),
        message::ContentView::Thinking { text, signature } => encode_utf8(text).len(),
        message::ContentView::RedactedThinking(t) => encode_utf8(t).len(),
        message::ContentView::Image(_) => IMAGE_CHARS as nat,
        message::ContentView::ToolUse(_) => TOOL_USE_CHARS as nat,
        message::ContentView::ToolResult(_) => TOOL_RESULT_CHARS as nat,
    }
}

/// The weight of the pieces of a request.
pub open spec fn request_chars(content: Seq<message::ContentView>) -> nat
    decreases content.len(),
{
    if content.len() == 0 {
        0
    } else {
        request_chars(content.drop_last()) + content_chars(content.last())
    }
}

/// The weight of requests.
pub open spec fn total_chars(requests: Seq<message::RequestView>) -> nat
    decreases requests.len(),
{
    if requests.len() == 0 {
        0
    } else {
        total_chars(requests.drop_last()) + request_chars(requests.last().content)
    }
}

/// The largest count that a `usize` holds, or a smaller number as it is.
pub open spec fn capped(n: nat) -> nat {
    if n > usize::MAX {
        usize::MAX as nat
    } else {
        n
    }
}

/// The estimate for a weight: four characters make a token, and there is always one.
pub open spec fn estimate(chars: nat) -> nat {
    if capped(chars) / 4 > 1 {
        capped(chars) / 4
    } else {
        1
    }
}

fn piece_chars(c: &MessageContent) -> (n: usize)
    ensures
        n == content_chars(c@),
{
    match c {
        MessageContent::Text(t) => text::byte_len(t.as_str()),
        MessageContent::Thinking { text, signature: _ } => text::byte_len(text.as_str()),
        MessageContent::RedactedThinking(t) => text::byte_len(t.as_str()),
        MessageContent::Image(_) => IMAGE_CHARS,
        MessageContent::ToolUse(_) => TOOL_USE_CHARS,
        MessageContent::ToolResult(_) => TOOL_RESULT_CHARS,
    }
}

fn message_chars(m: &RequestMessage) -> (n: usize)
    ensures
        n == capped(request_chars(m@.content)),
{
    let ghost all = message::content_views(m.content@);
    let mut chars: usize = 0;
    for i in 0..m.content.len()
        invariant
            all == message::content_views(m.content@),
            chars == capped(request_chars(all.take(i as int))),
    {
        assert(all.take(i + 1).drop_last() =~= all.take(i as int));
        assert(all.take(i + 1).last() == m.content@[i as int]@);
        chars = chars.saturating_add(piece_chars(&m.content[i]));
    }
    assert(all.take(all.len() as int) =~= all);
    chars
}

fn estimate_of(chars: usize) -> (n: usize)
    ensures
        n == estimate(chars as nat),
{
    let quarter: usize = chars / 4;
    if quarter > 1 {
        quarter
    } else {
        1
    }
}

/// Approximates the tokens of messages from their length.
pub fn heuristic_token_count(messages: &Vec<RequestMessage>) -> (n: usize)
    ensures
        n == estimate(total_chars(message::request_views(messages@))),
{
    let ghost all = message::request_views(messages@);
    let mut chars: usize = 0;
    for i in 0..messages.len()
        invariant
            all == message::request_views(messages@),
            chars == capped(total_chars(all.take(i as int))),
    {
        assert(all.take(i + 1).drop_last() =~= all.take(i as int));
        assert(all.take(i + 1).last() == messages@[i as int]@);
        chars = chars.saturating_add(message_chars(&messages[i]));
    }
    assert(all.take(all.len() as int) =~= all);
    estimate_of(chars)
}

/// Approximates the tokens of each message from its length.
pub fn heuristic_per_message(messages: &Vec<RequestMessage>) -> (r: Vec<usize>)
    ensures
        r@.len() == messages@.len(),
        forall|i: int|
            0 <= i < r@.len() ==> #[trigger] r@[i] == estimate(
                total_chars(seq![messages@[i]@]),
            ),
{
    let mut out: Vec<usize> = Vec::new();
    for i in 0..messages.len()
        invariant
            out@.len() == i,
            forall|k: int|
                0 <= k < i ==> #[trigger] out@[k] == estimate(total_chars(seq![messages@[k]@])),
    {
        let chars = message_chars(&messages[i]);
        let ghost one = seq![messages@[i as int]@];
        assert(one.drop_last() =~= Seq::<message::RequestView>::empty());
        assert(total_chars(one) == total_chars(one.drop_last()) + request_chars(one.last().content));
        assert(total_chars(one.drop_last()) == 0);
        out.push(estimate_of(chars));
    }
    out
}

// ---------------------------------------------------------------------------
// Counts of a model
// ---------------------------------------------------------------------------

/// Why there is no count.
#[derive(Debug)]
pub enum TokenCountError {
    /// The model could not count.
    Model(String),
    /// The model counted zero tokens for messages.
    ZeroForSlice,
    /// The model counted zero tokens for the messages up to this one.
    ZeroForPrefix(usize),
    /// A batch of no counts was asked for.
    EmptyBatch,
}

impl TokenCountError {
    /// The error in words.
    pub fn message(&self) -> (r: String)
        ensures
            r@ == match self {
                TokenCountError::Model(e) => e@,
                TokenCountError::ZeroForSlice => "model returned zero tokens for non-empty slice"@,
                TokenCountError::ZeroForPrefix(i) => "model returned zero tokens for prefix "@
                    + text::decimal(*i as nat),
                TokenCountError::EmptyBatch => "batch must be > 0"@,
            },
    {
        match self {
            TokenCountError::Model(e) => e.clone(),
            TokenCountError::ZeroForSlice =>
                "model returned zero tokens for non-empty slice".to_owned(),
            TokenCountError::ZeroForPrefix(i) => {
                let mut out = "model returned zero tokens for prefix ".to_owned();
                out.append(text::count_text(*i).as_str());
                out
            },
            TokenCountError::EmptyBatch => "batch must be > 0".to_owned(),
        }
    }
}

/// The count of a slice of messages, without a fallback. `counted` is what the model answered for it;
/// an empty slice is not counted.
pub fn precise_tokens_for_slice_try(
    slice: &Vec<RequestMessage>,
    counted: &Result<u64, String>,
) -> (r: Result<usize, TokenCountError>)
    ensures
        match r {
            Ok(n) => if slice@.len() == 0 {
                n == 0
            } else {
                counted matches Ok(c) && c > 0 && n == c as usize
            },
            Err(TokenCountError::Model(e)) => slice@.len() > 0 && *counted == Err::<u64, String>(e),
            Err(TokenCountError::ZeroForSlice) => slice@.len() > 0 && *counted == Ok::<u64, String>(
                0,
            ),
            Err(_) => false,
        },
{
    if slice.len() == 0 {
        return Ok(0);
    }
    match counted {
        Err(e) => Err(TokenCountError::Model(e.clone())),
        Ok(c) => {
            if *c == 0 {
                Err(TokenCountError::ZeroForSlice)
            } else {
                Ok(*c as usize)
            }
        },
    }
}

/// The tokens of a slice of messages: what the model counted, or else the estimate.
pub open spec fn slice_tokens(
    slice: Seq<message::RequestView>,
    counted: Result<u64, Seq<char>>,
) -> int {
    if slice.len() == 0 {
        0
    } else {
        match counted {
            Ok(c) if c > 0 => c as usize as int,
            _ => estimate(total_chars(slice)) as int,
        }
    }
}

/// What the model answered, with the text of an error.
pub open spec fn answer_view(counted: Result<u64, String>) -> Result<u64, Seq<char>> {
    match counted {
        Ok(c) => Ok(c),
        Err(e) => Err(e@),
    }
}

/// The tokens of a slice of messages: what the model counted, or else the estimate.
pub fn precise_tokens_for_slice(
    slice: &Vec<RequestMessage>,
    counted: &Result<u64, String>,
) -> (n: usize)
    ensures
        n == slice_tokens(message::request_views(slice@), answer_view(*counted)),
{
    assert(message::request_views(slice@).len() == slice@.len());
    if slice.len() == 0 {
        return 0;
    }
    match counted {
        Ok(c) => {
            if *c > 0 {
                return *c as usize;
            }
        },
        Err(_) => {},
    }
    heuristic_token_count(slice)
}

/// How much each total exceeds the one before it; the first exceeds zero.
pub open spec fn differences(totals: Seq<usize>) -> Seq<usize> {
    Seq::new(
        totals.len(),
        |i: int|
            {
                let before = if i == 0 {
                    0
                } else {
                    totals[i - 1]
                };
                if totals[i] > before {
                    (totals[i] - before) as usize
                } else {
                    0
                }
            },
    )
}

/// The last of the totals, or zero.
pub open spec fn last_total(totals: Seq<usize>) -> usize {
    if totals.len() == 0 {
        0
    } else {
        totals.last()
    }
}

fn differences_of(totals: &Vec<usize>) -> (r: Vec<usize>)
    ensures
        r@ == differences(totals@),
{
    let mut per: Vec<usize> = Vec::new();
    let mut before: usize = 0;
    for i in 0..totals.len()
        invariant
            before == (if i == 0 {
                0
            } else {
                totals@[i - 1]
            }),
            per@ == differences(totals@).take(i as int),
    {
        per.push(totals[i].saturating_sub(before));
        before = totals[i];
        assert(differences(totals@).take(i + 1) =~= differences(totals@).take(i as int).push(
            differences(totals@)[i as int],
        ));
    }
    assert(differences(totals@).take(totals@.len() as int) =~= differences(totals@));
    per
}

/// The tokens of each message, from the model's counts of the prefixes, without a fallback: the first
/// prefix that could not be counted, or that counted zero, is the error.
pub fn precise_per_message_tokens_try(counted: &Vec<Result<u64, String>>) -> (r: Result<
    Vec<usize>,
    TokenCountError,
>)
    ensures
        match r {
            Ok(per) => (forall|i: int|
                0 <= i < counted@.len() ==> (#[trigger] counted@[i] matches Ok(c) && c > 0))
                && per@ == differences(
                Seq::new(counted@.len(), |i: int| counted@[i]->Ok_0 as usize),
            ),
            Err(TokenCountError::Model(e)) => exists|i: int|
                0 <= i < counted@.len() && #[trigger] counted@[i] == Err::<u64, String>(e)
                    && forall|k: int|
                    0 <= k < i ==> (#[trigger] counted@[k] matches Ok(c) && c > 0),
            Err(TokenCountError::ZeroForPrefix(i)) => i < counted@.len() && counted@[i as int]
                == Ok::<u64, String>(0) && forall|k: int|
                0 <= k < i ==> (#[trigger] counted@[k] matches Ok(c) && c > 0),
            Err(_) => false,
        },
{
    let mut totals: Vec<usize> = Vec::new();
    for i in 0..counted.len()
        invariant
            totals@.len() == i,
            forall|k: int|
                0 <= k < i ==> (#[trigger] counted@[k] matches Ok(c) && c > 0 && totals@[k]
                    == c as usize),
    {
        match &counted[i] {
            Err(e) => {
                let message = e.clone();
                assert(counted@[i as int] == Err::<u64, String>(message));
                return Err(TokenCountError::Model(message));
            },
            Ok(c) => {
                if *c == 0 {
                    return Err(TokenCountError::ZeroForPrefix(i));
                }
                totals.push(*c as usize);
            },
        }
    }
    assert(totals@ =~= Seq::new(counted@.len(), |i: int| counted@[i]->Ok_0 as usize));
    Ok(differences_of(&totals))
}

/// The tokens of each prefix of the messages.
pub open spec fn prefix_totals(
    all: Seq<message::RequestView>,
    counted: Seq<Result<u64, Seq<char>>>,
) -> Seq<usize> {
    Seq::new(all.len(), |i: int| slice_tokens(all.take(i + 1), counted[i]) as usize)
}

/// What the model answered for each prefix.
pub open spec fn answer_views(counted: Seq<Result<u64, String>>) -> Seq<Result<u64, Seq<char>>> {
    counted.map_values(|c: Result<u64, String>| answer_view(c))
}

fn totals_of(
    all: &Vec<RequestMessage>,
    counted: &Vec<Result<u64, String>>,
    from: usize,
    to: usize,
    totals: &mut Vec<usize>,
)
    requires
        counted@.len() == all@.len(),
        from <= to <= all@.len(),
        old(totals)@ == prefix_totals(
            message::request_views(all@),
            answer_views(counted@),
        ).take(from as int),
    ensures
        final(totals)@ == prefix_totals(
            message::request_views(all@),
            answer_views(counted@),
        ).take(to as int),
{
    let ghost whole = prefix_totals(message::request_views(all@), answer_views(counted@));
    for i in from..to
        invariant
            counted@.len() == all@.len(),
            to <= all@.len(),
            whole == prefix_totals(message::request_views(all@), answer_views(counted@)),
            totals@ == whole.take(i as int),
    {
        let estimated = estimate_prefix(all, i + 1);
        let mut total: usize = estimated;
        match &counted[i] {
            Ok(c) => {
                if *c > 0 {
                    total = *c as usize;
                }
            },
            Err(_) => {},
        }
        assert(message::request_views(all@).take(i + 1).len() == i + 1);
        assert(answer_views(counted@)[i as int] == answer_view(counted@[i as int]));
        assert(total == whole[i as int]);
        totals.push(total);
        assert(whole.take(i + 1) =~= whole.take(i as int).push(whole[i as int]));
    }
}

fn estimate_prefix(all: &Vec<RequestMessage>, n: usize) -> (r: usize)
    requires
        n <= all@.len(),
    ensures
        r == estimate(total_chars(message::request_views(all@).take(n as int))),
{
    let ghost views = message::request_views(all@);
    let mut chars: usize = 0;
    for i in 0..n
        invariant
            n <= all@.len(),
            views == message::request_views(all@),
            chars == capped(total_chars(views.take(i as int))),
    {
        assert(views.take(i + 1).drop_last() =~= views.take(i as int));
        assert(views.take(i + 1).last() == all@[i as int]@);
        chars = chars.saturating_add(message_chars(&all[i]));
    }
    estimate_of(chars)
}

/// The tokens of each message and of all of them, from the counts of the prefixes; a prefix that was
/// not counted is estimated.
pub fn precise_per_message_tokens(
    all: &Vec<RequestMessage>,
    counted: &Vec<Result<u64, String>>,
) -> (r: (Vec<usize>, usize))
    requires
        counted@.len() == all@.len(),
    ensures
        r.0@ == differences(
            prefix_totals(message::request_views(all@), answer_views(counted@)),
        ),
        r.1 == last_total(prefix_totals(message::request_views(all@), answer_views(counted@))),
{
    let ghost whole = prefix_totals(message::request_views(all@), answer_views(counted@));
    let mut totals: Vec<usize> = Vec::new();
    assert(whole.take(0) =~= totals@);
    totals_of(all, counted, 0, all.len(), &mut totals);
    assert(whole.take(all@.len() as int) =~= whole);
    let per = differences_of(&totals);
    let last: usize = if totals.len() > 0 {
        totals[totals.len() - 1]
    } else {
        0
    };
    (per, last)
}

/// The tokens of each message and of all of them, where the prefixes are counted `batch` at a time.
pub fn precise_per_message_tokens_batched(
    all: &Vec<RequestMessage>,
    counted: &Vec<Result<u64, String>>,
    batch: usize,
) -> (r: Result<(Vec<usize>, usize), TokenCountError>)
    requires
        counted@.len() == all@.len(),
    ensures
        match r {
            Ok((per, total)) => (all@.len() == 0 || batch > 0) && per@ == differences(
                prefix_totals(message::request_views(all@), answer_views(counted@)),
            ) && total == last_total(
                prefix_totals(message::request_views(all@), answer_views(counted@)),
            ),
            Err(e) => all@.len() > 0 && batch == 0 && e is EmptyBatch,
        },
{
    let ghost whole = prefix_totals(message::request_views(all@), answer_views(counted@));
    let mut totals: Vec<usize> = Vec::new();
    let n: usize = all.len();
    if n > 0 && batch == 0 {
        return Err(TokenCountError::EmptyBatch);
    }
    assert(whole.take(0) =~= totals@);
    let mut i: usize = 0;
    while i < n
        invariant
            n == all@.len(),
            n > 0 ==> batch > 0,
            counted@.len() == all@.len(),
            whole == prefix_totals(message::request_views(all@), answer_views(counted@)),
            i <= n,
            totals@ == whole.take(i as int),
        decreases n - i,
    {
        let end: usize = if batch < n - i {
            i + batch
        } else {
            n
        };
        totals_of(all, counted, i, end, &mut totals);
        i = end;
    }
    assert(whole.take(n as int) =~= whole);
    let per = differences_of(&totals);
    let last: usize = if totals.len() > 0 {
        totals[totals.len() - 1]
    } else {
        0
    };
    Ok((per, last))
}

// ---------------------------------------------------------------------------
// Laws
// ---------------------------------------------------------------------------

/// The sum of counts.
pub open spec fn sum(counts: Seq<usize>) -> nat
    decreases counts.len(),
{
    if counts.len() == 0 {
        0
    } else {
        sum(counts.drop_last()) + counts.last() as nat
    }
}

/// Where no prefix has fewer tokens than a shorter one, the tokens of the messages add up to the
/// tokens of the conversation.
pub proof fn differences_add_up(totals: Seq<usize>)
    requires
        forall|i: int, j: int| 0 <= i <= j < totals.len() ==> totals[i] <= totals[j],
    ensures
        sum(differences(totals)) == last_total(totals),
    decreases totals.len(),
{
    if totals.len() > 0 {
        let shorter = totals.drop_last();
        differences_add_up(shorter);
        assert(differences(totals).drop_last() =~= differences(shorter));
        if totals.len() > 1 {
            assert(shorter.last() == totals[totals.len() - 2]);
            assert(totals[totals.len() - 2] <= totals[totals.len() - 1]);
        }
    }
}

/// More text never lowers the estimate.
pub proof fn estimate_is_monotone(a: nat, b: nat)
    requires
        a <= b,
    ensures
        estimate(a) <= estimate(b),
{
}

/// The weight of requests is the sum of the weights of their halves.
pub proof fn total_chars_add_up(a: Seq<message::RequestView>, b: Seq<message::RequestView>)
    ensures
        total_chars(a + b) == total_chars(a) + total_chars(b),
    decreases b.len(),
{
    if b.len() == 0 {
        assert(a + b =~= a);
    } else {
        total_chars_add_up(a, b.drop_last());
        assert((a + b).drop_last() =~= a + b.drop_last());
    }
}

} // verus!
