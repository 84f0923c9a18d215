//! What holds of texts and their parts.

use vstd::prelude::*;
use vstd::utf8::*;

use crate::text;

verus! {

/// Parts in a row are all but the last of them in a row, and the last.
pub proof fn flattened_one_by_one(parts: Seq<Seq<char>>)
    requires
        parts.len() > 0,
    ensures
        parts.flatten() == parts.drop_last().flatten() + parts.last(),
{
    parts.lemma_flatten_and_flatten_alt_are_equivalent();
    parts.drop_last().lemma_flatten_and_flatten_alt_are_equivalent();
}

// ---------------------------------------------------------------------------
// Numbers
// ---------------------------------------------------------------------------

/// The number that a text of digits stands for.
pub open spec fn value(digits: Seq<char>) -> int {
    digits.fold_left(0, |n: int, c: char| 10 * n + (c as int - '0' as int))
}

/// A number in decimal notation stands for that number. It consists of digits, and does not begin with
/// a zero, unless it is zero.
pub proof fn decimals_stand_for_their_number(n: nat)
    ensures
        value(text::decimal(n)) == n,
        forall|i: int|
            0 <= i < text::decimal(n).len() ==> '0' <= #[trigger] text::decimal(n)[i] <= '9',
        text::decimal(n).len() >= 1,
        n > 0 ==> text::decimal(n)[0] != '0',
    decreases n,
{
    let f = |m: int, c: char| 10 * m + (c as int - '0' as int);
    reveal_with_fuel(Seq::fold_left, 2);
    if n < 10 {
        let d = text::digit(n);
        assert(seq![d].drop_last() =~= Seq::empty());
        assert(seq![d].fold_left(0, f) == f(Seq::<char>::empty().fold_left(0, f), d));
    } else {
        decimals_stand_for_their_number(n / 10);
        let more = text::decimal(n / 10).push(text::digit(n % 10));
        assert(more.drop_last() =~= text::decimal(n / 10));
        assert(more.fold_left(0, f) == f(text::decimal(n / 10).fold_left(0, f), text::digit(n % 10)));
    }
}

/// Two numbers with the same notation are the same.
pub proof fn decimals_tell_numbers_apart(a: nat, b: nat)
    requires
        text::decimal(a) == text::decimal(b),
    ensures
        a == b,
{
    decimals_stand_for_their_number(a);
    decimals_stand_for_their_number(b);
}

// ---------------------------------------------------------------------------
// Parts
// ---------------------------------------------------------------------------

/// The pieces of a text between the occurrences of a character, with that character between each two,
/// are the text, and none of them holds the character.
pub proof fn split_and_join(s: Seq<char>, sep: char)
    ensures
        text::join(text::split(s, sep), seq![sep]) == s,
        forall|i: int|
            0 <= i < text::split(s, sep).len() ==> !(#[trigger] text::split(s, sep)[i]).contains(
                sep,
            ),
        text::split(s, sep).len() >= 1,
    decreases s.len(),
{
    if s.len() > 0 {
        let less = s.drop_last();
        split_and_join(less, sep);
        let before = text::split(less, sep);
        let now = text::split(s, sep);
        assert forall|i: int| 0 <= i < now.len() implies !(#[trigger] now[i]).contains(sep) by {
            if i < before.len() - 1 {
                assert(now[i] == before[i]);
            } else if s.last() == sep && i == before.len() - 1 {
                assert(now[i] == before[i]);
            } else if s.last() != sep {
                assert(!before[before.len() - 1].contains(sep));
                assert forall|k: int| 0 <= k < now[i].len() implies now[i][k] != sep by {
                    if k < before.last().len() {
                        assert(before.last()[k] != sep) by {
                            if before.last()[k] == sep {
                                assert(before.last().contains(sep));
                            }
                        }
                    }
                }
            }
        }
        if s.last() == sep {
            assert(now.drop_last() =~= before);
            assert(text::join(now, seq![sep]) =~= s);
        } else {
            assert(now.drop_last() =~= before.drop_last());
            assert(now.last() == before.last().push(s.last()));
            assert(less.push(s.last()) =~= s);
            if before.len() == 1 {
                assert(before[0] == before.last());
                assert(now[0] == now.last());
            } else {
                let head = text::join(before.drop_last(), seq![sep]) + seq![sep];
                assert(text::join(now, seq![sep]) == head + now.last());
                assert(head + now.last() =~= (head + before.last()).push(s.last()));
            }
        }
    } else {
        assert(text::join(text::split(s, sep), seq![sep]) =~= s);
    }
}

/// Joined parts: a part alone is itself, and two rows of parts have the separator between them.
pub proof fn joined_rows(a: Seq<Seq<char>>, b: Seq<Seq<char>>, sep: Seq<char>)
    requires
        a.len() > 0,
        b.len() > 0,
    ensures
        text::join(a + b, sep) == text::join(a, sep) + sep + text::join(b, sep),
        a.len() == 1 ==> text::join(a, sep) == a[0],
    decreases b.len(),
{
    let both = a + b;
    if b.len() == 1 {
        assert(both.drop_last() =~= a);
    } else {
        joined_rows(a, b.drop_last(), sep);
        assert(both.drop_last() =~= a + b.drop_last());
        assert(text::join(both, sep) =~= text::join(a, sep) + sep + text::join(b, sep));
    }
}

/// Every part stands in the joined text as it is.
pub proof fn joined_parts_are_there(parts: Seq<Seq<char>>, sep: Seq<char>, i: int)
    requires
        0 <= i < parts.len(),
    ensures
        exists|a: Seq<char>, b: Seq<char>| text::join(parts, sep) == #[trigger] (a + parts[i] + b),
    decreases parts.len(),
{
    let all = text::join(parts, sep);
    let none = Seq::<char>::empty();
    if parts.len() == 1 {
        assert(all =~= none + parts[i] + none);
    } else if i == parts.len() - 1 {
        let a = text::join(parts.drop_last(), sep) + sep;
        assert(all =~= a + parts[i] + none);
    } else {
        joined_parts_are_there(parts.drop_last(), sep, i);
        let (a, b) = choose|a: Seq<char>, b: Seq<char>|
            text::join(parts.drop_last(), sep) == #[trigger] (a + parts.drop_last()[i] + b);
        assert(all =~= a + parts[i] + (b + sep + parts.last()));
    }
}

// ---------------------------------------------------------------------------
// Lines
// ---------------------------------------------------------------------------

/// A text without the character is one piece.
pub proof fn pieces_of_one(s: Seq<char>, sep: char)
    requires
        !s.contains(sep),
    ensures
        text::split(s, sep) == seq![s],
    decreases s.len(),
{
    if s.len() > 0 {
        let less = s.drop_last();
        assert forall|k: int| 0 <= k < less.len() implies less[k] != sep by {
            assert(s.contains(s[k]));
        }
        pieces_of_one(less, sep);
        assert(s.contains(s[s.len() - 1]));
        assert(less.push(s.last()) =~= s);
        assert(text::split(s, sep) =~= seq![s]);
    } else {
        assert(s =~= Seq::empty());
        assert(text::split(s, sep) =~= seq![s]);
    }
}

/// The pieces of two texts with the character between them are those of both.
pub proof fn split_of_both(a: Seq<char>, b: Seq<char>, sep: char)
    ensures
        text::split(a.push(sep) + b, sep) == text::split(a, sep) + text::split(b, sep),
    decreases b.len(),
{
    let whole = a.push(sep) + b;
    text::split_is_not_empty(a, sep);
    text::split_is_not_empty(b, sep);
    if b.len() == 0 {
        assert(whole =~= a.push(sep));
        assert(whole.drop_last() =~= a);
        assert(text::split(whole, sep) =~= text::split(a, sep) + text::split(b, sep));
    } else {
        split_of_both(a, b.drop_last(), sep);
        text::split_is_not_empty(b.drop_last(), sep);
        assert(whole.drop_last() =~= a.push(sep) + b.drop_last());
        let before = text::split(a, sep) + text::split(b.drop_last(), sep);
        assert(before.last() == text::split(b.drop_last(), sep).last());
        assert(text::split(whole, sep) =~= text::split(a, sep) + text::split(b, sep));
    }
}

/// A text without line feeds is one line, unless it is empty.
pub proof fn a_line_is_its_own_line(s: Seq<char>)
    requires
        !s.contains('\n'),
    ensures
        s.len() > 0 ==> text::lines(s) == seq![s],
        s.len() == 0 ==> text::lines(s) == Seq::<Seq<char>>::empty(),
{
    pieces_of_one(s, '\n');
    assert(text::lines(s) =~= if s.len() > 0 {
        seq![s]
    } else {
        Seq::<Seq<char>>::empty()
    });
}

/// A line, a line feed and more: the lines are that line and the lines of the rest.
pub proof fn a_line_and_more(first: Seq<char>, rest: Seq<char>)
    requires
        !first.contains('\n'),
        first.len() > 0 ==> first.last() != '\r',
    ensures
        text::lines(first + "\n"@ + rest) == seq![first] + text::lines(rest),
{
    line_and_more(first, rest);
    assert(text::without_return(first) == first);
}

/// A line, a carriage return, a line feed and more: the lines are that line and those of the rest.
pub proof fn a_returned_line_and_more(first: Seq<char>, rest: Seq<char>)
    requires
        !first.contains('\n'),
    ensures
        text::lines(first + "\r\n"@ + rest) == seq![first] + text::lines(rest),
{
    reveal_strlit("\n");
    reveal_strlit("\r\n");
    let ended = first.push('\r');
    assert forall|k: int| 0 <= k < ended.len() implies ended[k] != '\n' by {
        if k < first.len() {
            assert(first.contains(first[k]));
        }
    }
    line_and_more(ended, rest);
    assert(first + "\r\n"@ + rest =~= ended + "\n"@ + rest);
    assert(ended.drop_last() =~= first);
}

proof fn line_and_more(first: Seq<char>, rest: Seq<char>)
    requires
        !first.contains('\n'),
    ensures
        text::lines(first + "\n"@ + rest) == seq![text::without_return(first)] + text::lines(rest),
{
    reveal_strlit("\n");
    let whole = first + "\n"@ + rest;
    assert(whole =~= first.push('\n') + rest);
    split_of_both(first, rest, '\n');
    pieces_of_one(first, '\n');
    text::split_is_not_empty(rest, '\n');
    let tail = text::split(rest, '\n');
    let pieces = text::split(whole, '\n');
    assert(pieces =~= seq![first] + tail);
    assert(pieces.drop_last() =~= seq![first] + tail.drop_last());
    assert(text::lines(whole) =~= seq![text::without_return(first)] + text::lines(rest));
}

/// A text that is not empty has a line.
pub proof fn lines_are_there(s: Seq<char>)
    requires
        s.len() > 0,
    ensures
        text::lines(s).len() >= 1,
{
    split_and_join(s, '\n');
    let pieces = text::split(s, '\n');
    if pieces.len() == 1 {
        assert(text::join(pieces, seq!['\n']) == pieces[0]);
    }
}

// ---------------------------------------------------------------------------
// White space
// ---------------------------------------------------------------------------

/// Of the characters of ASCII, the space, the tab, the line feed and the like are white space.
pub proof fn white_space_of_ascii(c: char)
    requires
        (c as u32) < 128,
    ensures
        text::is_space(c) <==> c == ' ' || c == '\t' || c == '\n' || c == '\r' || c as u32 == 11
            || c as u32 == 12,
{
}

/// Trimming takes white space from both ends, and nothing else, until there is none.
pub proof fn trimming_takes_white_space_alone(s: Seq<char>)
    ensures
        exists|a: Seq<char>, b: Seq<char>|
            {
                &&& s == #[trigger] (a + text::trim(s) + b)
                &&& forall|i: int| 0 <= i < a.len() ==> text::is_space(#[trigger] a[i])
                &&& forall|i: int| 0 <= i < b.len() ==> text::is_space(#[trigger] b[i])
            },
        text::trim(s).len() > 0 ==> !text::is_space(text::trim(s)[0]) && !text::is_space(
            text::trim(s).last(),
        ),
{
    let from = text::trim_start(s);
    start_is_trimmed(s);
    end_is_trimmed(from);
    let a = choose|a: Seq<char>| s == #[trigger] (a + from) && all_space(a);
    let b = choose|b: Seq<char>| from == #[trigger] (text::trim_end(from) + b) && all_space(b);
    assert(s =~= a + text::trim(s) + b);
    if text::trim(s).len() > 0 {
        assert(text::trim(s)[0] == from[0]);
    }
}

spec fn all_space(s: Seq<char>) -> bool {
    forall|i: int| 0 <= i < s.len() ==> text::is_space(#[trigger] s[i])
}

proof fn start_is_trimmed(s: Seq<char>)
    ensures
        exists|a: Seq<char>| s == #[trigger] (a + text::trim_start(s)) && all_space(a),
        text::trim_start(s).len() > 0 ==> !text::is_space(text::trim_start(s)[0]),
    decreases s.len(),
{
    if s.len() > 0 && text::is_space(s[0]) {
        let less = s.drop_first();
        start_is_trimmed(less);
        let a = choose|a: Seq<char>| less == #[trigger] (a + text::trim_start(less)) && all_space(a);
        let b = seq![s[0]] + a;
        assert(text::trim_start(s) == text::trim_start(less));
        assert(s =~= seq![s[0]] + less);
        assert(seq![s[0]] + (a + text::trim_start(s)) =~= b + text::trim_start(s));
        assert(all_space(b));
    } else {
        let none = Seq::<char>::empty();
        assert(s =~= none + text::trim_start(s));
        assert(all_space(none));
    }
}

proof fn end_is_trimmed(s: Seq<char>)
    ensures
        exists|b: Seq<char>| s == #[trigger] (text::trim_end(s) + b) && all_space(b),
        text::trim_end(s).len() > 0 ==> !text::is_space(text::trim_end(s).last()),
    decreases s.len(),
{
    if s.len() > 0 && text::is_space(s.last()) {
        let less = s.drop_last();
        end_is_trimmed(less);
        let b = choose|b: Seq<char>| less == #[trigger] (text::trim_end(less) + b) && all_space(b);
        let c = b.push(s.last());
        assert(text::trim_end(s) == text::trim_end(less));
        assert(s =~= less.push(s.last()));
        assert((text::trim_end(s) + b).push(s.last()) =~= text::trim_end(s) + c);
        assert(all_space(c));
    } else {
        let none = Seq::<char>::empty();
        assert(s =~= text::trim_end(s) + none);
        assert(all_space(none));
    }
}

/// A text without white space at its ends is not changed by trimming.
pub proof fn trimmed_texts_stay(s: Seq<char>)
    requires
        s.len() > 0 ==> !text::is_space(s[0]) && !text::is_space(s.last()),
    ensures
        text::trim(s) == s,
{
}

/// The words of a text are not empty, have no white space, and hold every other character of the text,
/// in order.
pub proof fn words_hold_the_text(s: Seq<char>)
    ensures
        text::words(s).flatten() == s.filter(|c: char| !text::is_space(c)),
        forall|i: int| 0 <= i < text::words(s).len() ==> (#[trigger] text::words(s)[i]).len() > 0,
        forall|i: int, k: int|
            0 <= i < text::words(s).len() && 0 <= k < text::words(s)[i].len() ==> !text::is_space(
                #[trigger] text::words(s)[i][k],
            ),
{
    let (done, open) = text::word_state(s);
    words_so_far(s);
    if open.len() > 0 {
        flattened_one_by_one(done.push(open));
        assert(done.push(open).drop_last() =~= done);
    } else {
        assert(done.flatten() + open =~= done.flatten());
    }
}

proof fn words_so_far(s: Seq<char>)
    ensures
        ({
            let (done, open) = text::word_state(s);
            &&& done.flatten() + open == s.filter(|c: char| !text::is_space(c))
            &&& forall|i: int| 0 <= i < done.len() ==> (#[trigger] done[i]).len() > 0
            &&& forall|i: int, k: int|
                0 <= i < done.len() && 0 <= k < done[i].len() ==> !text::is_space(
                    #[trigger] done[i][k],
                )
            &&& forall|k: int| 0 <= k < open.len() ==> !text::is_space(#[trigger] open[k])
        }),
    decreases s.len(),
{
    reveal(Seq::filter);
    let f = |c: char| !text::is_space(c);
    let (done, open) = text::word_state(s);
    if s.len() == 0 {
        assert(done.flatten() + open =~= s.filter(f));
    } else {
        let less = s.drop_last();
        words_so_far(less);
        let (before, word) = text::word_state(less);
        if !text::is_space(s.last()) {
            assert(done.flatten() + open =~= (before.flatten() + word).push(s.last()));
        } else if word.len() > 0 {
            flattened_one_by_one(before.push(word));
            assert(before.push(word).drop_last() =~= before);
            assert(done.flatten() + open =~= before.flatten() + word);
        }
    }
}

/// The words of two texts with white space between them are those of both; a text without white space
/// is one word.
pub proof fn words_end_at_white_space(a: Seq<char>, space: char, b: Seq<char>)
    requires
        text::is_space(space),
    ensures
        text::words(a.push(space) + b) == text::words(a) + text::words(b),
        a.len() > 0 && (forall|i: int| 0 <= i < a.len() ==> !text::is_space(#[trigger] a[i]))
            ==> text::words(a) == seq![a],
{
    words_of_both(a, space, b);
    let (done, open) = text::word_state(b);
    let (all, last) = text::word_state(a.push(space) + b);
    assert(text::words(a.push(space) + b) =~= text::words(a) + text::words(b));
    if forall|i: int| 0 <= i < a.len() ==> !text::is_space(#[trigger] a[i]) {
        one_open_word(a);
        if a.len() > 0 {
            assert(text::words(a) =~= seq![a]);
        }
    }
}

proof fn words_of_both(a: Seq<char>, space: char, b: Seq<char>)
    requires
        text::is_space(space),
    ensures
        text::word_state(a.push(space) + b) == (
            text::words(a) + text::word_state(b).0,
            text::word_state(b).1,
        ),
    decreases b.len(),
{
    let whole = a.push(space) + b;
    if b.len() == 0 {
        assert(whole =~= a.push(space));
        assert(whole.drop_last() =~= a);
        assert(text::words(a) + text::word_state(b).0 =~= text::words(a));
    } else {
        words_of_both(a, space, b.drop_last());
        assert(whole.drop_last() =~= a.push(space) + b.drop_last());
        let (done, open) = text::word_state(b.drop_last());
        assert(text::words(a) + done.push(open) =~= (text::words(a) + done).push(open));
    }
}

proof fn one_open_word(a: Seq<char>)
    requires
        forall|i: int| 0 <= i < a.len() ==> !text::is_space(#[trigger] a[i]),
    ensures
        text::word_state(a) == (Seq::<Seq<char>>::empty(), a),
    decreases a.len(),
{
    if a.len() > 0 {
        let less = a.drop_last();
        assert forall|i: int| 0 <= i < less.len() implies !text::is_space(#[trigger] less[i]) by {
            assert(less[i] == a[i]);
        }
        one_open_word(less);
        assert(a.last() == a[a.len() - 1]);
        assert(less.push(a.last()) =~= a);
    } else {
        assert(a =~= Seq::empty());
    }
}

// ---------------------------------------------------------------------------
// Searching
// ---------------------------------------------------------------------------

/// A text starts with another where it is the other with something behind it.
pub proof fn starts_are_followed(s: Seq<char>, part: Seq<char>)
    ensures
        text::starts_with(s, part) <==> exists|b: Seq<char>| s == #[trigger] (part + b),
{
    if text::starts_with(s, part) {
        assert(s =~= part + s.skip(part.len() as int));
    }
    if exists|b: Seq<char>| s == #[trigger] (part + b) {
        let b = choose|b: Seq<char>| s == #[trigger] (part + b);
        assert(s.subrange(0, part.len() as int) =~= part);
    }
}

/// A text ends with another where it is the other with something before it.
pub proof fn ends_are_preceded(s: Seq<char>, part: Seq<char>)
    ensures
        text::ends_with(s, part) <==> exists|a: Seq<char>| s == #[trigger] (a + part),
{
    if text::ends_with(s, part) {
        assert(s =~= s.take(s.len() - part.len()) + part);
    }
    if exists|a: Seq<char>| s == #[trigger] (a + part) {
        let a = choose|a: Seq<char>| s == #[trigger] (a + part);
        assert(s.subrange(a.len() as int, s.len() as int) =~= part);
    }
}

/// A text holds another where it is the other with something around it.
pub proof fn parts_are_surrounded(s: Seq<char>, part: Seq<char>)
    ensures
        text::holds(s, part) <==> exists|a: Seq<char>, b: Seq<char>| s == #[trigger] (a + part + b),
{
    if text::holds(s, part) {
        let at = choose|at: int| text::stands_at(s, part, at);
        assert(s =~= s.take(at) + part + s.skip(at + part.len()));
    }
    if exists|a: Seq<char>, b: Seq<char>| s == #[trigger] (a + part + b) {
        let (a, b) = choose|a: Seq<char>, b: Seq<char>| s == #[trigger] (a + part + b);
        assert(s.subrange(a.len() as int, (a.len() + part.len()) as int) =~= part);
        assert(text::stands_at(s, part, a.len() as int));
    }
}

// ---------------------------------------------------------------------------
// Cutting
// ---------------------------------------------------------------------------

/// The head of a text is its start, and has as many characters as there are, up to the limit.
pub proof fn heads_are_starts(s: Seq<char>, n: int)
    requires
        0 <= n,
    ensures
        text::head(s, n).len() == if n < s.len() {
            n
        } else {
            s.len() as int
        },
        text::head(s, n) == s.take(text::head(s, n).len() as int),
{
    assert(text::head(s, n) =~= s.take(text::head(s, n).len() as int));
}

/// What is cut to a number of bytes is the longest start of the text that takes no more.
pub proof fn byte_heads_are_longest(s: Seq<char>, n: int, i: int)
    requires
        0 <= n,
        0 <= i <= s.len(),
        encode_utf8(s.take(i)).len() <= n,
    ensures
        i <= text::byte_head(s, n).len(),
        text::byte_head(s, n) == s.take(text::byte_head(s, n).len() as int),
        encode_utf8(text::byte_head(s, n)).len() <= n,
    decreases s.len(),
{
    text::byte_head_fits(s, n);
    text::byte_head_is_start(s, n);
    if !(encode_utf8(s).len() <= n || s.len() == 0) {
        if i == s.len() {
            assert(s.take(i) =~= s);
        } else {
            let less = s.drop_last();
            assert(less.take(i) =~= s.take(i));
            byte_heads_are_longest(less, n, i);
        }
    }
}

/// To replace a character is to join the pieces between its occurrences with what replaces it.
pub proof fn replacing_joins_the_pieces(s: Seq<char>, from: char, to: Seq<char>)
    ensures
        text::substitute(s, from, to) == text::join(text::split(s, from), to),
    decreases s.len(),
{
    if s.len() == 0 {
        assert(text::substitute(s, from, to) =~= text::join(text::split(s, from), to));
    } else {
        let less = s.drop_last();
        replacing_joins_the_pieces(less, from, to);
        text::split_is_not_empty(less, from);
        let before = text::split(less, from);
        let now = text::split(s, from);
        if s.last() == from {
            assert(now.drop_last() =~= before);
            assert(text::substitute(s, from, to) =~= text::join(now, to));
        } else {
            assert(now.drop_last() =~= before.drop_last());
            if before.len() == 1 {
                assert(before[0] == before.last());
                assert(now[0] == now.last());
            } else {
                let head = text::join(before.drop_last(), to) + to;
                assert(text::join(now, to) == head + now.last());
                assert(head + now.last() =~= (head + before.last()).push(s.last()));
            }
        }
    }
}

/// A text without the character stays as it is.
pub proof fn nothing_is_replaced(s: Seq<char>, from: char, to: Seq<char>)
    requires
        !s.contains(from),
    ensures
        text::substitute(s, from, to) == s,
{
    replacing_joins_the_pieces(s, from, to);
    pieces_of_one(s, from);
}

// ---------------------------------------------------------------------------
// Order
// ---------------------------------------------------------------------------

/// A text comes before another by the first character in which they differ, or where the other goes on
/// from it.
pub proof fn the_first_difference_decides(a: Seq<char>, b: Seq<char>)
    ensures
        text::before(a, b) <==> exists|k: int|
            {
                &&& 0 <= k <= a.len() && k < b.len()
                &&& #[trigger] a.take(k) == b.take(k)
                &&& k < a.len() ==> (a[k] as int) < (b[k] as int)
            },
    decreases a.len(),
{
    if b.len() > 0 && a.len() > 0 && a[0] == b[0] {
        let x = a.drop_first();
        let y = b.drop_first();
        the_first_difference_decides(x, y);
        if text::before(x, y) {
            let k = choose|k: int|
                {
                    &&& 0 <= k <= x.len() && k < y.len()
                    &&& #[trigger] x.take(k) == y.take(k)
                    &&& k < x.len() ==> (x[k] as int) < (y[k] as int)
                };
            assert(a.take(k + 1) =~= seq![a[0]] + x.take(k));
            assert(b.take(k + 1) =~= seq![a[0]] + y.take(k));
        }
        if exists|k: int|
            {
                &&& 0 <= k <= a.len() && k < b.len()
                &&& #[trigger] a.take(k) == b.take(k)
                &&& k < a.len() ==> (a[k] as int) < (b[k] as int)
            } {
            let k = choose|k: int|
                {
                    &&& 0 <= k <= a.len() && k < b.len()
                    &&& #[trigger] a.take(k) == b.take(k)
                    &&& k < a.len() ==> (a[k] as int) < (b[k] as int)
                };
            assert(k > 0);
            assert(x.take(k - 1) =~= a.take(k).drop_first());
            assert(y.take(k - 1) =~= b.take(k).drop_first());
        }
    } else if b.len() > 0 {
        assert(a.take(0) =~= b.take(0));
        assert forall|k: int|
            {
                &&& 0 <= k <= a.len() && k < b.len()
                &&& #[trigger] a.take(k) == b.take(k)
                &&& k < a.len() ==> (a[k] as int) < (b[k] as int)
            } implies text::before(a, b) by {
            if k > 0 {
                assert(a.take(k)[0] == b.take(k)[0]);
            }
        }
    }
}

} // verus!
