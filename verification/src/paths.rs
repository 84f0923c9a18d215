//! Paths, as systems of the Unix family read them.

use vstd::prelude::*;

use crate::text;
use crate::text_laws;

verus! {

/// The last segment of a path that names something: empty segments and `.` name nothing.
pub open spec fn last_name(segments: Seq<Seq<char>>) -> Option<Seq<char>>
    decreases segments.len(),
{
    if segments.len() == 0 {
        None
    } else if segments.last().len() == 0 || segments.last() == "."@ {
        last_name(segments.drop_last())
    } else {
        Some(segments.last())
    }
}

/// The file name of a path; a path that ends in `..` has none.
pub open spec fn file_name(path: Seq<char>) -> Option<Seq<char>> {
    match last_name(text::split(path, '/')) {
        Some(name) => if name == ".."@ {
            None
        } else {
            Some(name)
        },
        None => None,
    }
}

/// What stands behind the last dot of a name, where the name does not start with that dot.
pub open spec fn after_dot(name: Seq<char>) -> Option<Seq<char>> {
    let pieces = text::split(name, '.');
    if pieces.len() < 2 || (pieces.len() == 2 && pieces[0].len() == 0) {
        None
    } else {
        Some(pieces.last())
    }
}

/// The extension of a path's file name.
pub open spec fn extension(path: Seq<char>) -> Option<Seq<char>> {
    match file_name(path) {
        Some(name) => after_dot(name),
        None => None,
    }
}

/// The file name of a path.
pub fn file_name_of(path: &str) -> (r: Option<String>)
    ensures
        text::opt_view(r) == file_name(path@),
{
    let segments = text::split_text(path, '/');
    let ghost all = text::views(segments@);
    let mut n: usize = segments.len();
    assert(all.take(n as int) =~= all);
    while n > 0
        invariant
            all == text::views(segments@),
            n <= segments@.len(),
            last_name(all) == last_name(all.take(n as int)),
            all == text::split(path@, '/'),
        decreases n,
    {
        assert(all.take(n as int).last() == segments@[n - 1]@);
        assert(all.take(n as int).drop_last() =~= all.take(n - 1));
        let segment = segments[n - 1].clone();
        let names = segment.as_str().unicode_len() > 0 && !text::same(segment.as_str(), ".");
        if names {
            if text::same(segment.as_str(), "..") {
                return None;
            }
            return Some(segment);
        }
        n = n - 1;
    }
    None
}

/// The extension of a path's file name.
pub fn extension_of(path: &str) -> (r: Option<String>)
    ensures
        text::opt_view(r) == extension(path@),
{
    match file_name_of(path) {
        Some(name) => {
            let pieces = text::split_text(name.as_str(), '.');
            let n: usize = pieces.len();
            assert(text::views(pieces@).len() == n);
            if n < 2 {
                return None;
            }
            assert(text::views(pieces@)[0] == pieces@[0]@);
            if n == 2 && pieces[0].as_str().unicode_len() == 0 {
                return None;
            }
            assert(text::views(pieces@).last() == pieces@[n - 1]@);
            Some(pieces[n - 1].clone())
        },
        None => None,
    }
}

/// The last piece of a text is no longer than the text.
proof fn pieces_are_shorter(s: Seq<char>, sep: char, i: int)
    requires
        0 <= i < text::split(s, sep).len(),
    ensures
        text::split(s, sep)[i].len() <= s.len(),
    decreases s.len(),
{
    if s.len() > 0 {
        text::split_is_not_empty(s.drop_last(), sep);
        let before = text::split(s.drop_last(), sep);
        if i < before.len() {
            pieces_are_shorter(s.drop_last(), sep, i);
        }
    }
}

proof fn name_is_a_piece(segments: Seq<Seq<char>>)
    ensures
        last_name(segments) matches Some(name) ==> segments.contains(name),
    decreases segments.len(),
{
    if segments.len() > 0 {
        name_is_a_piece(segments.drop_last());
        match last_name(segments) {
            Some(name) => {
                if segments.last() == name {
                    assert(segments[segments.len() - 1] == name);
                } else {
                    let shorter = segments.drop_last();
                    let i = choose|i: int| 0 <= i < shorter.len() && shorter[i] == name;
                    assert(segments[i] == name);
                }
            },
            None => {},
        }
    }
}

/// An extension is no longer than its path.
pub proof fn extension_is_shorter(path: Seq<char>)
    ensures
        extension(path) matches Some(e) ==> e.len() <= path.len(),
{
    let segments = text::split(path, '/');
    name_is_a_piece(segments);
    match file_name(path) {
        Some(name) => {
            let i = choose|i: int| 0 <= i < segments.len() && segments[i] == name;
            pieces_are_shorter(path, '/', i);
            let pieces = text::split(name, '.');
            if pieces.len() > 0 {
                pieces_are_shorter(name, '.', pieces.len() - 1);
            }
        },
        None => {},
    }
}

/// A path below another. A path that starts at the root stands alone.
pub open spec fn joined(base: Seq<char>, rest: Seq<char>) -> Seq<char> {
    if rest.len() > 0 && rest[0] == '/' {
        rest
    } else if base.len() == 0 || base.last() == '/' {
        base + rest
    } else {
        base + "/"@ + rest
    }
}

/// A path below another.
pub fn join_paths(base: &str, rest: &str) -> (r: String)
    ensures
        r@ == joined(base@, rest@),
{
    if rest.unicode_len() > 0 && rest.get_char(0) == '/' {
        return rest.to_owned();
    }
    let n: usize = base.unicode_len();
    let mut out = base.to_owned();
    if n > 0 && base.get_char(n - 1) != '/' {
        out.append("/");
    }
    out.append(rest);
    out
}

// ---------------------------------------------------------------------------
// Laws
// ---------------------------------------------------------------------------

/// Whether a text can be the name of a file.
pub open spec fn is_name(name: Seq<char>) -> bool {
    name.len() > 0 && !name.contains('/') && name != "."@ && name != ".."@
}

/// The file name of a name is that name, and so is that of the name below a directory.
pub proof fn names_are_file_names(dir: Seq<char>, name: Seq<char>)
    requires
        is_name(name),
    ensures
        file_name(name) == Some(name),
        file_name(dir.push('/') + name) == Some(name),
        file_name(joined(dir, name)) == Some(name),
{
    reveal_strlit("/");
    text_laws::pieces_of_one(name, '/');
    text_laws::split_of_both(dir, name, '/');
    text::split_is_not_empty(dir, '/');
    assert(text::split(dir.push('/') + name, '/').last() == name);
    assert(name.contains(name[0]));
    if dir.len() == 0 {
        assert(joined(dir, name) =~= name);
    } else if dir.last() == '/' {
        let base = dir.drop_last();
        text_laws::split_of_both(base, name, '/');
        text::split_is_not_empty(base, '/');
        assert(joined(dir, name) =~= base.push('/') + name);
        assert(text::split(base.push('/') + name, '/').last() == name);
    } else {
        assert(joined(dir, name) =~= dir.push('/') + name);
    }
}

/// The extension of a file is what stands behind the last dot of its name; a name that has no dot, or
/// only one at its start, has none.
pub proof fn extensions_stand_behind_the_dot(dir: Seq<char>, stem: Seq<char>, ext: Seq<char>)
    requires
        stem.len() > 0,
        !stem.contains('/'),
        !ext.contains('/'),
        !ext.contains('.'),
        is_name(stem.push('.') + ext),
    ensures
        extension(stem.push('.') + ext) == Some(ext),
        extension(dir.push('/') + (stem.push('.') + ext)) == Some(ext),
        !stem.contains('.') && is_name(stem) ==> extension(dir.push('/') + stem) is None,
{
    let name = stem.push('.') + ext;
    names_are_file_names(dir, name);
    text_laws::split_of_both(stem, ext, '.');
    text_laws::pieces_of_one(ext, '.');
    text::split_is_not_empty(stem, '.');
    let pieces = text::split(name, '.');
    text_laws::split_and_join(stem, '.');
    assert(pieces.len() == text::split(stem, '.').len() + 1);
    if pieces.len() == 2 {
        assert(text::join(text::split(stem, '.'), seq!['.']) == text::split(stem, '.')[0]);
        assert(pieces[0] == stem);
    }
    if !stem.contains('.') && is_name(stem) {
        names_are_file_names(dir, stem);
        text_laws::pieces_of_one(stem, '.');
    }
}

/// A path below another starts with it and ends with what is below it, with one slash between; one that
/// starts at the root stands alone.
pub proof fn joined_paths_hold_both(base: Seq<char>, rest: Seq<char>)
    ensures
        rest.len() > 0 && rest[0] == '/' ==> joined(base, rest) == rest,
        !(rest.len() > 0 && rest[0] == '/') && base.len() > 0 && base.last() != '/' ==> joined(
            base,
            rest,
        ) == base.push('/') + rest,
        !(rest.len() > 0 && rest[0] == '/') && (base.len() == 0 || base.last() == '/') ==> joined(
            base,
            rest,
        ) == base + rest,
{
    reveal_strlit("/");
    assert(base + "/"@ + rest =~= base.push('/') + rest);
}

} // verus!
