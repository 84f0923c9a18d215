//! The file that the segments of a thread are kept in.

use vstd::prelude::*;

use crate::paths;
use crate::text;
use crate::thread::Thread;

verus! {

/// What is done with the file that the segments are kept in.
#[derive(Debug, Clone, Copy, PartialEq, Eq, Structural)]
pub enum PersistStep {
    Nothing,
    Remove,
    Write,
}

/// The file that the segments of a thread are kept in.
pub open spec fn segments_file(contexts_dir: Seq<char>, id: Seq<char>) -> Seq<char> {
    paths::joined(paths::joined(contexts_dir, "memory_segments"@), id + ".json"@)
}

/// The file that is written before it takes the place of another: the extension tells them apart.
pub open spec fn temporary_file(file: Seq<char>) -> Seq<char> {
    match paths::extension(file) {
        Some(extension) => file.take(file.len() - extension.len()) + "json.tmp"@,
        None => file + ".json.tmp"@,
    }
}

impl Thread {
    /// The file that the segments are kept in, and the one that they are written to before it takes
    /// the place of the other.
    pub fn memory_segments_files(&self, contexts_dir: &str) -> (r: (String, String))
        ensures
            r.0@ == segments_file(contexts_dir@, self@.id),
            r.1@ == temporary_file(r.0@),
    {
        let dir = paths::join_paths(contexts_dir, "memory_segments");
        let mut name = self.id.clone();
        name.append(".json");
        let path = paths::join_paths(dir.as_str(), name.as_str());
        let temporary = match paths::extension_of(path.as_str()) {
            Some(extension) => {
                proof {
                    paths::extension_is_shorter(path@);
                }
                let chars = text::to_chars(path.as_str());
                let kept: usize = chars.len() - extension.as_str().unicode_len();
                let mut out = text::from_range(&chars, 0, kept);
                assert(out@ =~= path@.take(kept as int));
                out.append("json.tmp");
                out
            },
            None => {
                let mut out = path.clone();
                out.append(".json.tmp");
                out
            },
        };
        (path, temporary)
    }

    /// Decides what is done with the file. Where there are no segments there is no file.
    pub fn persist_memory_segments(&self, file_exists: bool) -> (r: PersistStep)
        ensures
            r == if self@.segments.len() > 0 {
                PersistStep::Write
            } else if file_exists {
                PersistStep::Remove
            } else {
                PersistStep::Nothing
            },
    {
        if self.memory_segments.len() > 0 {
            PersistStep::Write
        } else if file_exists {
            PersistStep::Remove
        } else {
            PersistStep::Nothing
        }
    }
}

// ---------------------------------------------------------------------------
// Laws
// ---------------------------------------------------------------------------

/// The segments of a thread are kept in a file that is named after it, below the directory of all
/// segments; those of two threads are kept apart.
pub proof fn every_thread_has_its_file(contexts_dir: Seq<char>, id: Seq<char>, other: Seq<char>)
    requires
        id.len() > 0,
        other.len() > 0,
        !id.contains('/'),
        !other.contains('/'),
        contexts_dir.len() > 0,
        contexts_dir.last() != '/',
    ensures
        segments_file(contexts_dir, id) == contexts_dir + "/memory_segments/"@ + id + ".json"@,
        id != other ==> segments_file(contexts_dir, id) != segments_file(contexts_dir, other),
{
    file_of_thread(contexts_dir, id);
    file_of_thread(contexts_dir, other);
    let dir = contexts_dir + "/memory_segments/"@;
    let a = dir + id + ".json"@;
    let b = dir + other + ".json"@;
    if a == b {
        assert(a.len() == b.len());
        assert forall|i: int| 0 <= i < id.len() implies id[i] == other[i] by {
            assert(a[dir.len() + i] == id[i]);
            assert(b[dir.len() + i] == other[i]);
        }
        assert(id =~= other);
    }
}

proof fn file_of_thread(contexts_dir: Seq<char>, id: Seq<char>)
    requires
        id.len() > 0,
        !id.contains('/'),
        contexts_dir.len() > 0,
        contexts_dir.last() != '/',
    ensures
        segments_file(contexts_dir, id) == contexts_dir + "/memory_segments/"@ + id + ".json"@,
{
    reveal_strlit("/");
    reveal_strlit("memory_segments");
    reveal_strlit("/memory_segments/");
    reveal_strlit(".json");
    assert("/memory_segments/"@ =~= "/"@ + "memory_segments"@ + "/"@);
    assert(id.contains(id[0]));
    assert((id + ".json"@)[0] == id[0]);
    let dir = paths::joined(contexts_dir, "memory_segments"@);
    assert(dir == contexts_dir + "/"@ + "memory_segments"@);
    assert(dir.last() == "memory_segments"@.last());
    assert(paths::joined(dir, id + ".json"@) == dir + "/"@ + (id + ".json"@));
    assert(dir + "/"@ + (id + ".json"@) =~= contexts_dir + "/memory_segments/"@ + id + ".json"@);
}

/// The file that is written first has the name of the other with `.tmp` behind it: it is never that
/// file.
pub proof fn the_temporary_file_stands_beside(stem: Seq<char>)
    requires
        paths::extension(stem + ".json"@) == Some("json"@),
    ensures
        temporary_file(stem + ".json"@) == stem + ".json.tmp"@,
        temporary_file(stem + ".json"@) != stem + ".json"@,
{
    reveal_strlit(".json");
    reveal_strlit("json");
    reveal_strlit("json.tmp");
    reveal_strlit(".json.tmp");
    let file = stem + ".json"@;
    assert(temporary_file(file) =~= stem + ".json.tmp"@);
    assert(temporary_file(file).len() != file.len());
}

} // verus!
