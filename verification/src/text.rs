//! Text as sequences of characters: the helpers that every rendered message is built from.

use vstd::prelude::*;
use vstd::utf8::*;

verus! {

/// `String::push` appends one character.
pub assume_specification[ String::push ](s: &mut String, c: char)
    ensures
        final(s)@ == old(s)@.push(c),
;

/// What the strings of a sequence hold.
pub open spec fn views(parts: Seq<String>) -> Seq<Seq<char>> {
    parts.map_values(|s: String| s@)
}

/// What an optional string holds.
pub open spec fn opt_view(s: Option<String>) -> Option<Seq<char>> {
    match s {
        Some(t) => Some(t@),
        None => None,
    }
}

/// A copy of an optional string.
pub fn copy_option(s: &Option<String>) -> (r: Option<String>)
    ensures
        opt_view(r) == opt_view(*s),
{
    match s {
        Some(t) => Some(t.clone()),
        None => None,
    }
}

/// The characters of a string, as a vector.
pub fn to_chars(s: &str) -> (r: Vec<char>)
    ensures
        r@ == s@,
{
    let mut out: Vec<char> = Vec::new();
    for c in it: s.chars()
        invariant
            out@ == s@.take(it.index()),
            it.seq() == s@,
    {
        out.push(c);
        assert(s@.take(it.index() + 1) =~= s@.take(it.index()).push(s@[it.index()]));
    }
    assert(s@.take(s@.len() as int) =~= s@);
    out
}

/// The string of the characters from `from` up to `to`.
pub fn from_range(chars: &Vec<char>, from: usize, to: usize) -> (r: String)
    requires
        from <= to <= chars@.len(),
    ensures
        r@ == chars@.subrange(from as int, to as int),
{
    let mut out = String::new();
    let mut i: usize = from;
    while i < to
        invariant
            from <= i <= to <= chars@.len(),
            out@ == chars@.subrange(from as int, i as int),
        decreases to - i,
    {
        out.push(chars[i]);
        i = i + 1;
        assert(chars@.subrange(from as int, i as int) =~= chars@.subrange(
            from as int,
            i - 1,
        ).push(chars@[i - 1]));
    }
    out
}

/// The number of bytes in the UTF-8 form of a string.
pub fn byte_len(s: &str) -> (n: usize)
    ensures
        n == encode_utf8(s@).len(),
{
    s.as_bytes().len()
}

/// Whether two strings hold the same characters.
pub fn same(a: &str, b: &str) -> (r: bool)
    ensures
        r == (a@ == b@),
{
    a.to_owned() == b.to_owned()
}

/// A copy of a list of strings.
pub fn copy_strings(parts: &Vec<String>) -> (r: Vec<String>)
    ensures
        views(r@) == views(parts@),
{
    let mut out: Vec<String> = Vec::new();
    for i in 0..parts.len()
        invariant
            views(out@) == views(parts@.take(i as int)),
    {
        out.push(parts[i].clone());
        assert(parts@.take(i + 1) =~= parts@.take(i as int).push(parts@[i as int]));
        assert(views(parts@.take(i + 1)) =~= views(parts@.take(i as int)).push(parts@[i as int]@));
        assert(views(out@) =~= views(parts@.take(i as int)).push(parts@[i as int]@));
    }
    assert(parts@.take(parts@.len() as int) =~= parts@);
    out
}

/// Whether a list of strings holds a given text.
pub fn contains_text(parts: &Vec<String>, text: &str) -> (r: bool)
    ensures
        r == views(parts@).contains(text@),
{
    for i in 0..parts.len()
        invariant
            forall|j: int| 0 <= j < i ==> views(parts@)[j] != text@,
    {
        if same(parts[i].as_str(), text) {
            assert(views(parts@)[i as int] == text@);
            return true;
        }
    }
    false
}

// ---------------------------------------------------------------------------
// Numbers
// ---------------------------------------------------------------------------

/// The character of a decimal digit.
pub open spec fn digit(d: nat) -> char {
    (48 + d) as char
}

/// A number in decimal notation, without leading zeros.
pub open spec fn decimal(n: nat) -> Seq<char>
    decreases n,
{
    if n < 10 {
        seq![digit(n)]
    } else {
        decimal(n / 10).push(digit(n % 10))
    }
}

fn digit_char(d: u8) -> (c: char)
    requires
        d < 10,
    ensures
        c == digit(d as nat),
{
    (48 + d) as char
}

fn push_decimal(out: &mut String, n: u128)
    ensures
        final(out)@ == old(out)@ + decimal(n as nat),
    decreases n,
{
    let ghost before = out@;
    if n >= 10 {
        push_decimal(out, n / 10);
    }
    out.push(digit_char((n % 10) as u8));
    assert(out@ =~= before + decimal(n as nat));
}

/// A number in decimal notation.
pub fn decimal_text(n: u128) -> (r: String)
    ensures
        r@ == decimal(n as nat),
{
    let mut out = String::new();
    push_decimal(&mut out, n);
    assert(out@ =~= decimal(n as nat));
    out
}

/// A count in decimal notation.
pub fn count_text(n: usize) -> (r: String)
    ensures
        r@ == decimal(n as nat),
{
    decimal_text(n as u128)
}

/// A decimal text is never empty.
pub proof fn decimal_is_not_empty(n: nat)
    ensures
        decimal(n).len() >= 1,
    decreases n,
{
    if n >= 10 {
        decimal_is_not_empty(n / 10);
    }
}

// ---------------------------------------------------------------------------
// White space
// ---------------------------------------------------------------------------

/// The characters with the Unicode property `White_Space`.
pub open spec fn is_space(c: char) -> bool {
    let u = c as u32;
    ||| 0x09 <= u <= 0x0d
    ||| u == 0x20
    ||| u == 0x85
    ||| u == 0xa0
    ||| u == 0x1680
    ||| 0x2000 <= u <= 0x200a
    ||| u == 0x2028
    ||| u == 0x2029
    ||| u == 0x202f
    ||| u == 0x205f
    ||| u == 0x3000
}

/// Whether a character is white space.
pub fn is_space_char(c: char) -> (r: bool)
    ensures
        r == is_space(c),
{
    let u: u32 = c as u32;
    (0x09 <= u && u <= 0x0d) || u == 0x20 || u == 0x85 || u == 0xa0 || u == 0x1680 || (0x2000 <= u
        && u <= 0x200a) || u == 0x2028 || u == 0x2029 || u == 0x202f || u == 0x205f || u == 0x3000
}

/// A text without the white space at its start.
pub open spec fn trim_start(s: Seq<char>) -> Seq<char>
    decreases s.len(),
{
    if s.len() > 0 && is_space(s[0]) {
        trim_start(s.drop_first())
    } else {
        s
    }
}

/// A text without the white space at its end.
pub open spec fn trim_end(s: Seq<char>) -> Seq<char>
    decreases s.len(),
{
    if s.len() > 0 && is_space(s.last()) {
        trim_end(s.drop_last())
    } else {
        s
    }
}

/// A text without the white space at its ends.
pub open spec fn trim(s: Seq<char>) -> Seq<char> {
    trim_end(trim_start(s))
}

/// The text without the white space at its start.
pub fn trim_start_text(s: &str) -> (r: String)
    ensures
        r@ == trim_start(s@),
{
    let chars = to_chars(s);
    let n: usize = chars.len();
    let mut lo: usize = 0;
    assert(chars@.subrange(0, n as int) =~= chars@);
    while lo < n && is_space_char(chars[lo])
        invariant
            lo <= n == chars@.len(),
            trim_start(s@) == trim_start(chars@.subrange(lo as int, n as int)),
        decreases n - lo,
    {
        assert(chars@.subrange(lo as int, n as int).drop_first() =~= chars@.subrange(
            lo + 1,
            n as int,
        ));
        lo = lo + 1;
    }
    from_range(&chars, lo, n)
}

/// The text without the white space at its end.
pub fn trim_end_text(s: &str) -> (r: String)
    ensures
        r@ == trim_end(s@),
{
    let chars = to_chars(s);
    let mut hi: usize = chars.len();
    assert(chars@.subrange(0, hi as int) =~= chars@);
    while hi > 0 && is_space_char(chars[hi - 1])
        invariant
            hi <= chars@.len(),
            trim_end(s@) == trim_end(chars@.subrange(0, hi as int)),
        decreases hi,
    {
        assert(chars@.subrange(0, hi as int).drop_last() =~= chars@.subrange(0, hi - 1));
        hi = hi - 1;
    }
    from_range(&chars, 0, hi)
}

/// The text without the white space at its ends.
pub fn trim_text(s: &str) -> (r: String)
    ensures
        r@ == trim(s@),
{
    let start = trim_start_text(s);
    trim_end_text(start.as_str())
}

/// The finished words of a text, and the word that is still open at its end.
pub open spec fn word_state(s: Seq<char>) -> (Seq<Seq<char>>, Seq<char>)
    decreases s.len(),
{
    if s.len() == 0 {
        (Seq::empty(), Seq::empty())
    } else {
        let (done, open) = word_state(s.drop_last());
        if !is_space(s.last()) {
            (done, open.push(s.last()))
        } else if open.len() > 0 {
            (done.push(open), Seq::empty())
        } else {
            (done, open)
        }
    }
}

/// The words of a text: the longest runs of characters that are not white space.
pub open spec fn words(s: Seq<char>) -> Seq<Seq<char>> {
    let (done, open) = word_state(s);
    if open.len() > 0 {
        done.push(open)
    } else {
        done
    }
}

/// The words of a text.
pub fn words_of(s: &str) -> (r: Vec<String>)
    ensures
        views(r@) == words(s@),
{
    let chars = to_chars(s);
    let mut done: Vec<String> = Vec::new();
    let mut open = String::new();
    for i in 0..chars.len()
        invariant
            chars@ == s@,
            views(done@) == word_state(s@.take(i as int)).0,
            open@ == word_state(s@.take(i as int)).1,
    {
        assert(s@.take(i + 1).drop_last() =~= s@.take(i as int));
        assert(s@.take(i + 1).last() == s@[i as int]);
        let c = chars[i];
        if !is_space_char(c) {
            open.push(c);
        } else if open.as_str().unicode_len() > 0 {
            let ghost before = done@;
            done.push(open);
            assert(views(done@) =~= views(before).push(open@));
            open = String::new();
        }
    }
    assert(s@.take(s@.len() as int) =~= s@);
    if open.as_str().unicode_len() > 0 {
        let ghost before = done@;
        done.push(open);
        assert(views(done@) =~= views(before).push(open@));
    }
    done
}

// ---------------------------------------------------------------------------
// Parts
// ---------------------------------------------------------------------------

/// The parts one after another, with `sep` between each two.
pub open spec fn join(parts: Seq<Seq<char>>, sep: Seq<char>) -> Seq<char>
    decreases parts.len(),
{
    if parts.len() == 0 {
        Seq::empty()
    } else if parts.len() == 1 {
        parts[0]
    } else {
        join(parts.drop_last(), sep) + sep + parts.last()
    }
}

/// The parts one after another, with `sep` between each two.
pub fn join_texts(parts: &Vec<String>, sep: &str) -> (r: String)
    ensures
        r@ == join(views(parts@), sep@),
{
    let mut out = String::new();
    for i in 0..parts.len()
        invariant
            out@ == join(views(parts@).take(i as int), sep@),
    {
        let ghost whole = views(parts@);
        assert(whole.take(i + 1).drop_last() =~= whole.take(i as int));
        assert(whole.take(i + 1).last() == parts@[i as int]@);
        if i > 0 {
            out.append(sep);
            out.append(parts[i].as_str());
        } else {
            out = parts[i].clone();
        }
    }
    assert(views(parts@).take(parts@.len() as int) =~= views(parts@));
    out
}

/// The pieces of a text between the occurrences of a character; there is at least one.
pub open spec fn split(s: Seq<char>, sep: char) -> Seq<Seq<char>>
    decreases s.len(),
{
    if s.len() == 0 {
        seq![Seq::<char>::empty()]
    } else {
        let before = split(s.drop_last(), sep);
        if s.last() == sep {
            before.push(Seq::empty())
        } else {
            before.drop_last().push(before.last().push(s.last()))
        }
    }
}

pub proof fn split_is_not_empty(s: Seq<char>, sep: char)
    ensures
        split(s, sep).len() >= 1,
    decreases s.len(),
{
    if s.len() > 0 {
        split_is_not_empty(s.drop_last(), sep);
    }
}

/// The pieces of a text between the occurrences of a character.
pub fn split_text(s: &str, sep: char) -> (r: Vec<String>)
    ensures
        views(r@) == split(s@, sep),
{
    let chars = to_chars(s);
    let mut done: Vec<String> = Vec::new();
    let mut open = String::new();
    assert(views(done@).push(open@) =~= split(s@.take(0), sep));
    for i in 0..chars.len()
        invariant
            chars@ == s@,
            views(done@).push(open@) == split(s@.take(i as int), sep),
    {
        assert(s@.take(i + 1).drop_last() =~= s@.take(i as int));
        assert(s@.take(i + 1).last() == s@[i as int]);
        let c = chars[i];
        let ghost before = views(done@).push(open@);
        assert(before.drop_last() =~= views(done@));
        if c == sep {
            let ghost seen = done@;
            done.push(open);
            assert(views(done@) =~= views(seen).push(open@));
            open = String::new();
        } else {
            open.push(c);
        }
    }
    assert(s@.take(s@.len() as int) =~= s@);
    let ghost seen = done@;
    done.push(open);
    assert(views(done@) =~= views(seen).push(open@));
    done
}

/// A line without a carriage return at its end.
pub open spec fn without_return(s: Seq<char>) -> Seq<char> {
    if s.len() > 0 && s.last() == '\r' {
        s.drop_last()
    } else {
        s
    }
}

/// The lines of a text. A line ends at a line feed, or at a carriage return with a line feed behind
/// it; the last line may lack its line feed, and an empty last line is none.
pub open spec fn lines(s: Seq<char>) -> Seq<Seq<char>> {
    let pieces = split(s, '\n');
    let ended = pieces.drop_last().map_values(|p: Seq<char>| without_return(p));
    if pieces.last().len() == 0 {
        ended
    } else {
        ended.push(pieces.last())
    }
}

fn strip_return(s: &str) -> (r: String)
    ensures
        r@ == without_return(s@),
{
    let chars = to_chars(s);
    let n: usize = chars.len();
    if n > 0 && chars[n - 1] == '\r' {
        let r = from_range(&chars, 0, n - 1);
        assert(r@ =~= s@.drop_last());
        r
    } else {
        s.to_owned()
    }
}

/// The lines of a text.
pub fn lines_of(s: &str) -> (r: Vec<String>)
    ensures
        views(r@) == lines(s@),
{
    let pieces = split_text(s, '\n');
    proof {
        split_is_not_empty(s@, '\n');
    }
    let n: usize = pieces.len();
    let ghost whole = split(s@, '\n');
    assert(whole.len() == n);
    let mut out: Vec<String> = Vec::new();
    for i in 0..n - 1
        invariant
            n == pieces@.len(),
            n >= 1,
            whole == views(pieces@),
            views(out@) == whole.drop_last().take(i as int).map_values(
                |p: Seq<char>| without_return(p),
            ),
    {
        let line = strip_return(pieces[i].as_str());
        let ghost before = out@;
        out.push(line);
        assert(views(out@) =~= views(before).push(line@));
        assert(whole.drop_last().take(i + 1) =~= whole.drop_last().take(i as int).push(
            whole[i as int],
        ));
        assert(whole.drop_last().take(i + 1).map_values(|p: Seq<char>| without_return(p))
            =~= whole.drop_last().take(i as int).map_values(
            |p: Seq<char>| without_return(p),
        ).push(without_return(whole[i as int])));
    }
    assert(whole.drop_last().take(n - 1) =~= whole.drop_last());
    let last = pieces[n - 1].clone();
    assert(whole.last() == last@);
    if last.as_str().unicode_len() > 0 {
        let ghost before = out@;
        out.push(last);
        assert(views(out@) =~= views(before).push(last@));
    }
    out
}

// ---------------------------------------------------------------------------
// Searching
// ---------------------------------------------------------------------------

/// Whether `part` stands in `s` at position `at`.
pub open spec fn stands_at(s: Seq<char>, part: Seq<char>, at: int) -> bool {
    0 <= at && at + part.len() <= s.len() && s.subrange(at, at + part.len()) == part
}

/// Whether a text starts with another.
pub open spec fn starts_with(s: Seq<char>, part: Seq<char>) -> bool {
    stands_at(s, part, 0)
}

/// Whether a text ends with another.
pub open spec fn ends_with(s: Seq<char>, part: Seq<char>) -> bool {
    stands_at(s, part, s.len() - part.len())
}

/// Whether a text holds another.
pub open spec fn holds(s: Seq<char>, part: Seq<char>) -> bool {
    exists|at: int| stands_at(s, part, at)
}

/// The first position at or after `from` where `part` stands in `s`.
pub open spec fn find_from(s: Seq<char>, part: Seq<char>, from: int) -> Option<int>
    decreases s.len() - from + 1,
{
    if from < 0 || from + part.len() > s.len() {
        None
    } else if stands_at(s, part, from) {
        Some(from)
    } else {
        find_from(s, part, from + 1)
    }
}

fn stands_in(s: &Vec<char>, part: &Vec<char>, at: usize) -> (r: bool)
    ensures
        r == stands_at(s@, part@, at as int),
{
    if part.len() > s.len() || at > s.len() - part.len() {
        return false;
    }
    let n: usize = s.len();
    for i in 0..part.len()
        invariant
            at + part@.len() <= n == s@.len(),
            forall|j: int| 0 <= j < i ==> s@[at + j] == part@[j],
    {
        if s[at + i] != part[i] {
            assert(s@.subrange(at as int, at + part@.len())[i as int] != part@[i as int]);
            return false;
        }
    }
    assert(s@.subrange(at as int, at + part@.len()) =~= part@);
    true
}

/// Whether a text starts with another.
pub fn text_starts_with(s: &str, part: &str) -> (r: bool)
    ensures
        r == starts_with(s@, part@),
{
    stands_in(&to_chars(s), &to_chars(part), 0)
}

/// Whether a text ends with another.
pub fn text_ends_with(s: &str, part: &str) -> (r: bool)
    ensures
        r == ends_with(s@, part@),
{
    let chars = to_chars(s);
    let tail = to_chars(part);
    if tail.len() > chars.len() {
        return false;
    }
    stands_in(&chars, &tail, chars.len() - tail.len())
}

/// The first position at or after `from` where `part` stands in `s`.
pub fn find_in(s: &Vec<char>, part: &Vec<char>, from: usize) -> (r: Option<usize>)
    ensures
        match r {
            Some(at) => find_from(s@, part@, from as int) == Some(at as int),
            None => find_from(s@, part@, from as int) is None,
        },
{
    let mut i: usize = from;
    while part.len() <= s.len() && i <= s.len() - part.len()
        invariant
            from <= i,
            find_from(s@, part@, from as int) == find_from(s@, part@, i as int),
        decreases s@.len() + 1 - i,
    {
        if stands_in(s, part, i) {
            return Some(i);
        }
        if i == s.len() {
            assert(s@.subrange(i as int, i as int) =~= part@);
            return None;
        }
        i = i + 1;
    }
    None
}

/// What is found is there, and nothing stands before it.
pub proof fn find_is_first(s: Seq<char>, part: Seq<char>, from: int)
    requires
        0 <= from,
    ensures
        match find_from(s, part, from) {
            Some(at) => from <= at && stands_at(s, part, at) && forall|i: int|
                from <= i < at ==> !stands_at(s, part, i),
            None => forall|i: int| from <= i ==> !stands_at(s, part, i),
        },
    decreases s.len() - from + 1,
{
    if from + part.len() <= s.len() && !stands_at(s, part, from) {
        find_is_first(s, part, from + 1);
    }
}

/// Whether a text holds another.
pub fn text_holds(s: &str, part: &str) -> (r: bool)
    ensures
        r == holds(s@, part@),
{
    let found = find_in(&to_chars(s), &to_chars(part), 0);
    proof {
        find_is_first(s@, part@, 0);
    }
    found.is_some()
}

// ---------------------------------------------------------------------------
// Cutting
// ---------------------------------------------------------------------------

/// The first `n` characters of a text, or all of them.
pub open spec fn head(s: Seq<char>, n: int) -> Seq<char> {
    if n < s.len() {
        s.take(n)
    } else {
        s
    }
}

/// The first `n` characters of a text, or all of them.
pub fn head_text(s: &str, n: usize) -> (r: String)
    ensures
        r@ == head(s@, n as int),
{
    let chars = to_chars(s);
    if n < chars.len() {
        let r = from_range(&chars, 0, n);
        assert(r@ =~= s@.take(n as int));
        r
    } else {
        s.to_owned()
    }
}

/// The longest start of a text that takes at most `n` bytes.
pub open spec fn byte_head(s: Seq<char>, n: int) -> Seq<char>
    decreases s.len(),
{
    if encode_utf8(s).len() <= n || s.len() == 0 {
        s
    } else {
        byte_head(s.drop_last(), n)
    }
}

/// The number of bytes of a character.
pub open spec fn char_bytes(c: char) -> nat {
    encode_scalar(c as u32).len()
}

fn char_width(c: char) -> (n: usize)
    ensures
        n == char_bytes(c),
        1 <= n <= 4,
{
    let u: u32 = c as u32;
    if u < 0x80 {
        1
    } else if u < 0x800 {
        2
    } else if u < 0x10000 {
        3
    } else {
        4
    }
}

/// The bytes of a longer start of a text are those of a shorter one and those of the next character.
pub proof fn bytes_of_next(s: Seq<char>, i: int)
    requires
        0 <= i < s.len(),
    ensures
        encode_utf8(s.take(i + 1)).len() == encode_utf8(s.take(i)).len() + char_bytes(s[i]),
    decreases i,
{
    let longer = s.take(i + 1);
    let shorter = s.take(i);
    if i == 0 {
        assert(longer.drop_first() =~= Seq::<char>::empty());
        assert(shorter =~= Seq::<char>::empty());
        assert(encode_utf8(longer.drop_first()).len() == 0);
        assert(encode_utf8(longer).len() == encode_scalar(longer[0] as u32).len());
    } else {
        let rest = s.drop_first();
        bytes_of_next(rest, i - 1);
        assert(longer.drop_first() =~= rest.take(i));
        assert(shorter.drop_first() =~= rest.take(i - 1));
        assert(rest[i - 1] == s[i]);
    }
}

/// Two texts in a row take as many bytes as both of them.
pub proof fn bytes_add_up(a: Seq<char>, b: Seq<char>)
    ensures
        encode_utf8(a + b).len() == encode_utf8(a).len() + encode_utf8(b).len(),
    decreases a.len(),
{
    if a.len() == 0 {
        assert(a + b =~= b);
    } else {
        bytes_add_up(a.drop_first(), b);
        assert((a + b).drop_first() =~= a.drop_first() + b);
    }
}

/// A longer start of a text takes no fewer bytes.
pub proof fn bytes_grow(s: Seq<char>, i: int, j: int)
    requires
        0 <= i <= j <= s.len(),
    ensures
        encode_utf8(s.take(i)).len() <= encode_utf8(s.take(j)).len(),
    decreases j - i,
{
    if i < j {
        bytes_of_next(s, j - 1);
        bytes_grow(s, i, j - 1);
    }
}

proof fn byte_head_is(s: Seq<char>, n: int, i: int)
    requires
        0 <= i <= s.len(),
        encode_utf8(s.take(i)).len() <= n,
        i < s.len() ==> encode_utf8(s.take(i + 1)).len() > n,
    ensures
        byte_head(s, n) == s.take(i),
    decreases s.len() - i,
{
    if i == s.len() {
        assert(s.take(i) =~= s);
    } else {
        bytes_grow(s, i + 1, s.len() as int);
        assert(s.take(s.len() as int) =~= s);
        let shorter = s.drop_last();
        assert(shorter.take(i) =~= s.take(i));
        if i < shorter.len() {
            assert(shorter.take(i + 1) =~= s.take(i + 1));
        }
        byte_head_is(shorter, n, i);
    }
}

/// The start of a text that takes some bytes is a start of the text.
pub proof fn byte_head_is_start(s: Seq<char>, n: int)
    ensures
        byte_head(s, n).len() <= s.len(),
        byte_head(s, n) == s.take(byte_head(s, n).len() as int),
    decreases s.len(),
{
    if encode_utf8(s).len() > n && s.len() > 0 {
        byte_head_is_start(s.drop_last(), n);
        let k = byte_head(s, n).len() as int;
        assert(s.drop_last().take(k) =~= s.take(k));
    } else {
        assert(s.take(s.len() as int) =~= s);
    }
}

/// The bytes of a start of a text lead back to it.
pub proof fn byte_head_of_start(s: Seq<char>, i: int)
    requires
        0 <= i <= s.len(),
    ensures
        byte_head(s, encode_utf8(s.take(i)).len() as int) == s.take(i),
{
    if i < s.len() {
        bytes_of_next(s, i);
    }
    byte_head_is(s, encode_utf8(s.take(i)).len() as int, i);
}

/// The longest start of a text that takes at most `n` bytes.
pub fn byte_head_text(s: &str, n: usize) -> (r: String)
    ensures
        r@ == byte_head(s@, n as int),
{
    let chars = to_chars(s);
    let len: usize = chars.len();
    let mut used: usize = 0;
    let mut i: usize = 0;
    assert(s@.take(0) =~= Seq::<char>::empty());
    while i < len
        invariant
            chars@ == s@,
            len == s@.len(),
            i <= len,
            used == encode_utf8(s@.take(i as int)).len(),
            used <= n,
        decreases len - i,
    {
        let width: usize = char_width(chars[i]);
        proof {
            bytes_of_next(s@, i as int);
        }
        if width > n - used {
            proof {
                byte_head_is(s@, n as int, i as int);
            }
            let r = from_range(&chars, 0, i);
            assert(r@ =~= s@.take(i as int));
            return r;
        }
        used = used + width;
        i = i + 1;
    }
    proof {
        byte_head_is(s@, n as int, len as int);
        assert(s@.take(len as int) =~= s@);
    }
    s.to_owned()
}

/// What is cut to a number of bytes takes no more.
pub proof fn byte_head_fits(s: Seq<char>, n: int)
    requires
        0 <= n,
    ensures
        encode_utf8(byte_head(s, n)).len() <= n,
    decreases s.len(),
{
    if encode_utf8(s).len() > n && s.len() > 0 {
        byte_head_fits(s.drop_last(), n);
    }
}

/// Each character of a text replaced by a text of its own.
pub open spec fn substitute(s: Seq<char>, from: char, to: Seq<char>) -> Seq<char>
    decreases s.len(),
{
    if s.len() == 0 {
        Seq::empty()
    } else if s.last() == from {
        substitute(s.drop_last(), from, to) + to
    } else {
        substitute(s.drop_last(), from, to).push(s.last())
    }
}

/// The text with each occurrence of `from` replaced by `to`.
pub fn substitute_text(s: &str, from: char, to: &str) -> (r: String)
    ensures
        r@ == substitute(s@, from, to@),
{
    let chars = to_chars(s);
    let mut out = String::new();
    for i in 0..chars.len()
        invariant
            chars@ == s@,
            out@ == substitute(s@.take(i as int), from, to@),
    {
        assert(s@.take(i + 1).drop_last() =~= s@.take(i as int));
        let c = chars[i];
        if c == from {
            out.append(to);
        } else {
            out.push(c);
        }
    }
    assert(s@.take(s@.len() as int) =~= s@);
    out
}

// ---------------------------------------------------------------------------
// Order
// ---------------------------------------------------------------------------

/// Whether a text comes before another: by the first character in which they differ; a text that
/// another goes on from comes first.
pub open spec fn before(a: Seq<char>, b: Seq<char>) -> bool
    decreases a.len(),
{
    if b.len() == 0 {
        false
    } else if a.len() == 0 {
        true
    } else if a[0] == b[0] {
        before(a.drop_first(), b.drop_first())
    } else {
        (a[0] as int) < (b[0] as int)
    }
}

/// Whether a text comes before another.
pub fn comes_before(a: &str, b: &str) -> (r: bool)
    ensures
        r == before(a@, b@),
{
    let x = to_chars(a);
    let y = to_chars(b);
    let mut i: usize = 0;
    assert(a@.skip(0) =~= a@);
    assert(b@.skip(0) =~= b@);
    while i < x.len() && i < y.len()
        invariant
            x@ == a@,
            y@ == b@,
            i <= x@.len(),
            i <= y@.len(),
            before(a@, b@) == before(a@.skip(i as int), b@.skip(i as int)),
        decreases x@.len() - i,
    {
        if x[i] != y[i] {
            return x[i] < y[i];
        }
        assert(a@.skip(i as int).drop_first() =~= a@.skip(i + 1));
        assert(b@.skip(i as int).drop_first() =~= b@.skip(i + 1));
        i = i + 1;
    }
    i < y.len()
}

/// No text comes before itself.
pub proof fn before_is_strict(a: Seq<char>)
    ensures
        !before(a, a),
    decreases a.len(),
{
    if a.len() > 0 {
        before_is_strict(a.drop_first());
    }
}

/// What comes before a text comes before all that the text comes before.
pub proof fn before_is_transitive(a: Seq<char>, b: Seq<char>, c: Seq<char>)
    requires
        before(a, b),
        before(b, c),
    ensures
        before(a, c),
    decreases a.len(),
{
    if a.len() > 0 && a[0] == b[0] && b[0] == c[0] {
        before_is_transitive(a.drop_first(), b.drop_first(), c.drop_first());
    }
}

/// Of two texts that differ, one comes before the other.
pub proof fn before_is_total(a: Seq<char>, b: Seq<char>)
    ensures
        a == b || before(a, b) || before(b, a),
    decreases a.len(),
{
    if a.len() == 0 || b.len() == 0 {
        if a.len() == b.len() {
            assert(a =~= b);
        }
    } else if a[0] == b[0] {
        before_is_total(a.drop_first(), b.drop_first());
        if a.drop_first() == b.drop_first() {
            assert(a =~= seq![a[0]] + a.drop_first());
            assert(b =~= seq![b[0]] + b.drop_first());
        }
    }
}

/// Whether texts stand in order, each once.
pub open spec fn in_order(texts: Seq<Seq<char>>) -> bool {
    forall|i: int, j: int| 0 <= i < j < texts.len() ==> before(#[trigger] texts[i], #[trigger] texts[j])
}

/// Texts in order that are the same texts are the same list.
pub proof fn order_is_unique(a: Seq<Seq<char>>, b: Seq<Seq<char>>)
    requires
        in_order(a),
        in_order(b),
        forall|t: Seq<char>| a.contains(t) == b.contains(t),
    ensures
        a == b,
    decreases a.len(),
{
    if a.len() == 0 {
        if b.len() > 0 {
            assert(b.contains(b[0]));
            assert(a.contains(b[0]));
        }
        assert(a =~= b);
    } else {
        assert(a.contains(a.last()));
        assert(b.contains(a.last()));
        let k = choose|k: int| 0 <= k < b.len() && b[k] == a.last();
        assert(b.contains(b.last()));
        assert(a.contains(b.last()));
        let m = choose|m: int| 0 <= m < a.len() && a[m] == b.last();
        if k < b.len() - 1 {
            assert(before(b[k], b[b.len() - 1]));
            if m < a.len() - 1 {
                assert(before(a[m], a[a.len() - 1]));
                before_is_transitive(a.last(), b.last(), a.last());
            }
            before_is_strict(a.last());
        }
        assert(a.last() == b.last());
        let x = a.drop_last();
        let y = b.drop_last();
        assert forall|t: Seq<char>| x.contains(t) == y.contains(t) by {
            if x.contains(t) {
                let i = choose|i: int| 0 <= i < x.len() && x[i] == t;
                assert(a[i] == t);
                assert(before(a[i], a[a.len() - 1]));
                before_is_strict(t);
                assert(a.contains(t));
                let j = choose|j: int| 0 <= j < b.len() && b[j] == t;
                assert(y[j] == t);
            }
            if y.contains(t) {
                let i = choose|i: int| 0 <= i < y.len() && y[i] == t;
                assert(b[i] == t);
                assert(before(b[i], b[b.len() - 1]));
                before_is_strict(t);
                assert(b.contains(t));
                let j = choose|j: int| 0 <= j < a.len() && a[j] == t;
                assert(x[j] == t);
            }
        }
        order_is_unique(x, y);
        assert(a =~= x.push(a.last()));
        assert(b =~= y.push(b.last()));
    }
}

/// One more text is there besides those before it.
pub proof fn contains_one_more(texts: Seq<Seq<char>>, i: int, t: Seq<char>)
    requires
        0 <= i < texts.len(),
    ensures
        texts.take(i + 1).contains(t) == (texts.take(i).contains(t) || texts[i] == t),
{
    let less = texts.take(i);
    let more = texts.take(i + 1);
    assert(more[i] == texts[i]);
    if less.contains(t) {
        let j = choose|j: int| 0 <= j < less.len() && less[j] == t;
        assert(more[j] == t);
    }
    if more.contains(t) {
        let j = choose|j: int| 0 <= j < more.len() && more[j] == t;
        if j < i {
            assert(less[j] == t);
        }
    }
}

/// Takes a text from texts in order. Says whether it was there.
pub fn remove_text(texts: &mut Vec<String>, gone: &str) -> (r: bool)
    requires
        in_order(views(old(texts)@)),
    ensures
        r == views(old(texts)@).contains(gone@),
        in_order(views(final(texts)@)),
        forall|t: Seq<char>| #[trigger]
            views(final(texts)@).contains(t) == (views(old(texts)@).contains(t) && t != gone@),
{
    let ghost all = views(texts@);
    let mut i: usize = 0;
    while i < texts.len()
        invariant
            all == views(texts@),
            texts@ == old(texts)@,
            in_order(all),
            i <= texts@.len(),
            forall|j: int| 0 <= j < i ==> #[trigger] all[j] != gone@,
        decreases texts@.len() - i,
    {
        assert(all[i as int] == texts@[i as int]@);
        if same(texts[i].as_str(), gone) {
            let _ = texts.remove(i);
            let ghost now = views(texts@);
            assert(now =~= all.remove(i as int));
            assert forall|j: int, k: int| 0 <= j < k < now.len() implies before(
                #[trigger] now[j],
                #[trigger] now[k],
            ) by {
                let a = if j < i {
                    j
                } else {
                    j + 1
                };
                let b = if k < i {
                    k
                } else {
                    k + 1
                };
                assert(before(all[a], all[b]));
            }
            assert forall|t: Seq<char>| #[trigger]
                now.contains(t) == (all.contains(t) && t != gone@) by {
                before_is_strict(gone@);
                if now.contains(t) {
                    let j = choose|j: int| 0 <= j < now.len() && now[j] == t;
                    if j < i {
                        assert(all[j] == t);
                        assert(before(all[j], all[i as int]));
                    } else {
                        assert(all[j + 1] == t);
                        assert(before(all[i as int], all[j + 1]));
                    }
                }
                if all.contains(t) && t != gone@ {
                    let j = choose|j: int| 0 <= j < all.len() && all[j] == t;
                    if j < i {
                        assert(now[j] == t);
                    } else {
                        assert(now[j - 1] == t);
                    }
                }
            }
            return true;
        }
        i = i + 1;
    }
    false
}

/// Puts a text at its place among texts in order. A text that is there is not put there again.
pub fn place_text(texts: &mut Vec<String>, added: &str)
    requires
        in_order(views(old(texts)@)),
    ensures
        in_order(views(final(texts)@)),
        forall|t: Seq<char>| #[trigger]
            views(final(texts)@).contains(t) == (views(old(texts)@).contains(t) || t == added@),
{
    let ghost all = views(texts@);
    let mut i: usize = 0;
    while i < texts.len() && comes_before(texts[i].as_str(), added)
        invariant
            all == views(texts@),
            texts@ == old(texts)@,
            i <= texts@.len(),
            forall|j: int| 0 <= j < i ==> before(#[trigger] all[j], added@),
        decreases texts@.len() - i,
    {
        assert(all[i as int] == texts@[i as int]@);
        i = i + 1;
    }
    if i < texts.len() {
        assert(all[i as int] == texts@[i as int]@);
        if same(texts[i].as_str(), added) {
            assert(all.contains(added@));
            return ;
        }
        proof {
            before_is_total(all[i as int], added@);
        }
    }
    texts.insert(i, added.to_owned());
    let ghost now = views(texts@);
    assert(now =~= all.insert(i as int, added@));
    assert forall|j: int, k: int| 0 <= j < k < now.len() implies before(
        #[trigger] now[j],
        #[trigger] now[k],
    ) by {
        if j == i && i + 1 < k {
            assert(before(all[i as int], all[k - 1]));
            before_is_transitive(added@, all[i as int], all[k - 1]);
        }
    }
    assert forall|t: Seq<char>| #[trigger]
        now.contains(t) == (all.contains(t) || t == added@) by {
        if all.contains(t) {
            let j = choose|j: int| 0 <= j < all.len() && all[j] == t;
            if j < i {
                assert(now[j] == t);
            } else {
                assert(now[j + 1] == t);
            }
        }
        assert(now[i as int] == added@);
        if now.contains(t) {
            let j = choose|j: int| 0 <= j < now.len() && now[j] == t;
            if j < i {
                assert(all[j] == t);
            } else if j > i {
                assert(all[j - 1] == t);
            }
        }
    }
}

// ---------------------------------------------------------------------------
// Outside calls
// ---------------------------------------------------------------------------

/// The text that `str::to_lowercase` makes of a text.
pub uninterp spec fn lowercase(s: Seq<char>) -> Seq<char>;

/// The text that the debug format of a string gives: the string in quotes, with escapes.
pub uninterp spec fn debug_form(s: Seq<char>) -> Seq<char>;

/// `str::to_lowercase`. The result is a function of the text alone.
#[verifier::external_body]
pub(crate) fn lowercase_text(s: &str) -> (r: String)
    ensures
        r@ == lowercase(s@),
{
    s.to_lowercase()
}

/// The debug format of a string. The result is a function of the string alone.
#[verifier::external_body]
pub(crate) fn debug_text(s: &str) -> (r: String)
    ensures
        r@ == debug_form(s@),
{
    format!("{:?}", s)
}

} // verus!
