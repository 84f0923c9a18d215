//! The names of the members of a JSON text, as they stand in it. A value that was read has each name
//! once; the text may have it more often.

use vstd::prelude::*;

use crate::text;

verus! {

/// How far a JSON text was looked through: how deep its brackets are nested, whether it is an object,
/// whether a string is open and since where, and whether the next string is the name of a member. The
/// names stand with their quotes.
pub ghost struct Scan {
    pub depth: int,
    pub object: bool,
    pub quoted: bool,
    pub escaped: bool,
    pub from: int,
    pub naming: bool,
    pub names: Seq<Seq<char>>,
}

/// Nothing was looked at.
pub open spec fn new_scan() -> Scan {
    Scan {
        depth: 0,
        object: false,
        quoted: false,
        escaped: false,
        from: 0,
        naming: false,
        names: Seq::empty(),
    }
}

/// The character at a position inside a string.
pub open spec fn step_in_string(s: Scan, t: Seq<char>, i: int) -> Scan {
    if s.escaped {
        Scan { escaped: false, ..s }
    } else if t[i] == '\\' {
        Scan { escaped: true, ..s }
    } else if t[i] != '"' {
        s
    } else if s.naming && s.depth == 1 {
        Scan { quoted: false, naming: false, names: s.names.push(t.subrange(s.from, i + 1)), ..s }
    } else {
        Scan { quoted: false, ..s }
    }
}

/// The character at a position was looked at. The names are those of the outermost object.
pub open spec fn scan_step(s: Scan, t: Seq<char>, i: int) -> Scan {
    let c = t[i];
    if s.quoted {
        step_in_string(s, t, i)
    } else if c == '"' {
        Scan { quoted: true, from: i, ..s }
    } else if c == '{' || c == '[' {
        if s.depth == 0 {
            Scan { depth: 1, object: c == '{', naming: c == '{', ..s }
        } else {
            Scan { depth: s.depth + 1, ..s }
        }
    } else if c == '}' || c == ']' {
        Scan { depth: s.depth - 1, ..s }
    } else if c == ',' && s.depth == 1 && s.object {
        Scan { naming: true, ..s }
    } else {
        s
    }
}

/// The first characters of a text were looked at.
pub open spec fn scanned(t: Seq<char>, n: nat) -> Scan
    decreases n,
{
    if n == 0 {
        new_scan()
    } else {
        scan_step(scanned(t, (n - 1) as nat), t, n - 1)
    }
}

/// The names of the members of a text that holds a JSON object, with their quotes and as they are
/// written; none, where it holds another value.
pub open spec fn member_names(t: Seq<char>) -> Seq<Seq<char>> {
    scanned(t, t.len()).names
}

/// The names of the members of a text that holds a JSON object, as they are written.
pub fn member_names_of(s: &str) -> (r: Vec<String>)
    ensures
        text::views(r@) == member_names(s@),
{
    let chars = text::to_chars(s);
    let mut depth: i128 = 0;
    let mut object = false;
    let mut quoted = false;
    let mut escaped = false;
    let mut from: usize = 0;
    let mut naming = false;
    let mut names: Vec<String> = Vec::new();
    assert(text::views(names@) =~= Seq::<Seq<char>>::empty());
    let len: usize = chars.len();
    for i in 0..len
        invariant
            chars@ == s@,
            len == chars@.len(),
            from <= i,
            -(i as int) <= depth <= i,
            scanned(s@, i as nat) == (Scan {
                depth: depth as int,
                object,
                quoted,
                escaped,
                from: from as int,
                naming,
                names: text::views(names@),
            }),
    {
        let c = chars[i];
        if quoted {
            if escaped {
                escaped = false;
            } else if c == '\\' {
                escaped = true;
            } else if c == '"' {
                quoted = false;
                if naming && depth == 1 {
                    naming = false;
                    let ghost seen = names@;
                    let name = text::from_range(&chars, from, i + 1);
                    names.push(name);
                    assert(text::views(names@) =~= text::views(seen).push(name@));
                }
            }
        } else if c == '"' {
            quoted = true;
            from = i;
        } else if c == '{' || c == '[' {
            if depth == 0 {
                object = c == '{';
                naming = c == '{';
            }
            depth = depth + 1;
        } else if c == '}' || c == ']' {
            depth = depth - 1;
        } else if c == ',' && depth == 1 && object {
            naming = true;
        }
    }
    names
}

// ---------------------------------------------------------------------------
// Laws
// ---------------------------------------------------------------------------

/// The names of the members stand in the text as they are, each between its quotes.
pub proof fn names_stand_in_the_text(t: Seq<char>, n: nat)
    requires
        n <= t.len(),
    ensures
        ({
            let s = scanned(t, n);
            &&& s.quoted ==> 0 <= s.from < n && t[s.from] == '"'
            &&& forall|k: int| 0 <= k < s.names.len() ==> is_quoted_part(t, #[trigger] s.names[k])
        }),
    decreases n,
{
    if n > 0 {
        names_stand_in_the_text(t, (n - 1) as nat);
        let before = scanned(t, (n - 1) as nat);
        let now = scanned(t, n);
        let i = n - 1;
        if before.quoted && !before.escaped && t[i] == '"' && before.naming && before.depth == 1 {
            let name = t.subrange(before.from, i + 1);
            assert(name[0] == t[before.from]);
            assert(name.last() == t[i]);
            assert(is_quoted_part(t, name));
        }
    }
}

/// Whether a text is a part of another that starts and ends with a quote.
pub open spec fn is_quoted_part(t: Seq<char>, part: Seq<char>) -> bool {
    &&& part.len() >= 2
    &&& part[0] == '"'
    &&& part.last() == '"'
    &&& exists|a: int, b: int| 0 <= a <= b <= t.len() && part == #[trigger] t.subrange(a, b)
}

} // verus!
