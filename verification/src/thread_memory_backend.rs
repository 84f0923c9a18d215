//! The archive of the thread that is open, as a store of segments.

use vstd::prelude::*;

use crate::archive;
use crate::json;
use crate::json::Json;
use crate::memory;
use crate::memory::MemoryError;
use crate::message;
use crate::text;
use crate::thread;
use crate::thread::Thread;
use crate::token_usage;
use crate::tools::memory_tool;

verus! {

/// What is told of a segment.
#[derive(Debug)]
pub struct MemorySegmentMeta {
    pub id: u64,
    pub start: usize,
    pub end: usize,
    pub count: usize,
    pub chars: usize,
    pub placeholder_chars: usize,
    pub token_savings_estimate: usize,
    pub summary: String,
    pub stored_epoch_ms: u128,
}

impl View for MemorySegmentMeta {
    type V = (u64, usize, usize, usize, usize, usize, usize, Seq<char>, u128);

    open spec fn view(&self) -> (
        u64,
        usize,
        usize,
        usize,
        usize,
        usize,
        usize,
        Seq<char>,
        u128,
    ) {
        (
            self.id,
            self.start,
            self.end,
            self.count,
            self.chars,
            self.placeholder_chars,
            self.token_savings_estimate,
            self.summary@,
            self.stored_epoch_ms,
        )
    }
}

/// A segment with the Markdown form of its messages.
#[derive(Debug)]
pub struct MemorySegmentDetail {
    pub meta: MemorySegmentMeta,
    pub messages: Vec<String>,
}

/// The archive summed up.
#[derive(Debug, Clone, Copy, PartialEq, Eq, Structural)]
pub struct MemoryStats {
    pub segments: usize,
    pub messages: usize,
    pub chars: usize,
}

/// Why the archive could not be reached or changed.
#[derive(Debug)]
pub enum BackendError {
    NoActiveThread,
    EmptyRange,
    Memory(MemoryError),
    /// What is told of a segment lacks a field.
    MissingField(String),
}

impl BackendError {
    /// The error in words.
    pub fn message(&self) -> (r: String)
        ensures
            r@ == match self {
                BackendError::NoActiveThread => "No active thread available"@,
                BackendError::EmptyRange => "start must be < end_exclusive"@,
                BackendError::Memory(e) => memory::error_text(*e),
                BackendError::MissingField(name) => "missing "@ + name@,
            },
    {
        match self {
            BackendError::NoActiveThread => "No active thread available".to_owned(),
            BackendError::EmptyRange => "start must be < end_exclusive".to_owned(),
            BackendError::Memory(e) => e.message(),
            BackendError::MissingField(name) => {
                let mut out = "missing ".to_owned();
                out.append(name.as_str());
                out
            },
        }
    }
}

/// The whole number of a field.
pub open spec fn number_field(j: json::JsonView, name: Seq<char>) -> Option<u64> {
    match json::field(j, name) {
        Some(json::JsonView::Unsigned(n)) => Some(n),
        _ => None,
    }
}

/// The first of the fields that have to be there which is not.
pub open spec fn missing_field(j: json::JsonView) -> Option<Seq<char>> {
    if number_field(j, "id"@) is None {
        Some("id"@)
    } else if number_field(j, "start"@) is None {
        Some("start"@)
    } else if number_field(j, "end"@) is None {
        Some("end"@)
    } else if number_field(j, "count"@) is None {
        Some("count"@)
    } else if number_field(j, "chars"@) is None {
        Some("chars"@)
    } else if number_field(j, "placeholder_chars"@) is None {
        Some("placeholder_chars"@)
    } else {
        None
    }
}

/// A number, or zero.
pub open spec fn or_zero(n: Option<u64>) -> u64 {
    match n {
        Some(n) => n,
        None => 0,
    }
}

/// What the fields tell of a segment.
pub open spec fn meta_of_json(j: json::JsonView) -> (
    u64,
    usize,
    usize,
    usize,
    usize,
    usize,
    usize,
    Seq<char>,
    u128,
) {
    (
        number_field(j, "id"@)->0,
        number_field(j, "start"@)->0 as usize,
        number_field(j, "end"@)->0 as usize,
        number_field(j, "count"@)->0 as usize,
        number_field(j, "chars"@)->0 as usize,
        number_field(j, "placeholder_chars"@)->0 as usize,
        or_zero(number_field(j, "token_savings_estimate"@)) as usize,
        match json::text_field(j, "summary"@) {
            Some(s) => s,
            None => Seq::empty(),
        },
        or_zero(number_field(j, "stored_epoch_ms"@)) as u128,
    )
}

fn number_of(j: &Json, name: &str) -> (r: Option<u64>)
    ensures
        r == number_field(j@, name@),
{
    match j.get(name) {
        Some(v) => v.as_u64(),
        None => None,
    }
}

fn required(j: &Json, name: &str) -> (r: Result<u64, BackendError>)
    ensures
        match r {
            Ok(n) => number_field(j@, name@) == Some(n),
            Err(BackendError::MissingField(missing)) => number_field(j@, name@) is None && missing@
                == name@,
            Err(_) => false,
        },
{
    match number_of(j, name) {
        Some(n) => Ok(n),
        None => Err(BackendError::MissingField(name.to_owned())),
    }
}

fn tuple_to_meta(t: (u64, usize, usize, usize, usize, usize, usize, String, u128)) -> (r:
    MemorySegmentMeta)
    ensures
        r@ == archive::tuple_view(t),
{
    MemorySegmentMeta {
        id: t.0,
        start: t.1,
        end: t.2,
        count: t.3,
        chars: t.4,
        placeholder_chars: t.5,
        token_savings_estimate: t.6,
        summary: t.7,
        stored_epoch_ms: t.8,
    }
}

/// Reads what is told of a segment. The savings, the summary and the time may be missing.
pub fn json_to_meta(meta: &Json) -> (r: Result<MemorySegmentMeta, BackendError>)
    ensures
        match r {
            Ok(m) => missing_field(meta@) is None && m@ == meta_of_json(meta@),
            Err(BackendError::MissingField(name)) => missing_field(meta@) == Some(name@),
            Err(_) => false,
        },
{
    let id = match required(meta, "id") {
        Ok(n) => n,
        Err(e) => return Err(e),
    };
    let start = match required(meta, "start") {
        Ok(n) => n,
        Err(e) => return Err(e),
    };
    let end = match required(meta, "end") {
        Ok(n) => n,
        Err(e) => return Err(e),
    };
    let count = match required(meta, "count") {
        Ok(n) => n,
        Err(e) => return Err(e),
    };
    let chars = match required(meta, "chars") {
        Ok(n) => n,
        Err(e) => return Err(e),
    };
    let placeholder_chars = match required(meta, "placeholder_chars") {
        Ok(n) => n,
        Err(e) => return Err(e),
    };
    let savings: u64 = match number_of(meta, "token_savings_estimate") {
        Some(n) => n,
        None => 0,
    };
    let summary = match meta.get("summary") {
        Some(v) => match v.as_str() {
            Some(s) => s.clone(),
            None => String::new(),
        },
        None => String::new(),
    };
    let stored: u64 = match number_of(meta, "stored_epoch_ms") {
        Some(n) => n,
        None => 0,
    };
    Ok(
        MemorySegmentMeta {
            id,
            start: start as usize,
            end: end as usize,
            count: count as usize,
            chars: chars as usize,
            placeholder_chars: placeholder_chars as usize,
            token_savings_estimate: savings as usize,
            summary,
            stored_epoch_ms: stored as u128,
        },
    )
}

/// What is loaded of a segment can be read again: nothing is lost, but for a time beyond the range of
/// JSON numbers.
pub proof fn loaded_meta_can_be_read(s: thread::SegmentView)
    ensures
        missing_field(archive::segment_meta(s)) is None,
        s.stored_epoch_ms <= u64::MAX ==> meta_of_json(archive::segment_meta(s))
            == archive::meta_tuple(s),
        meta_of_json(archive::segment_meta(s)).0 == s.id,
{
    let j = archive::segment_meta(s);
    let fields = j->Object_0;
    literals_differ();
    reveal_with_fuel(json::field_index, 10);
    assert(json::field_index(fields, "id"@) == Some(0int));
    assert(json::field_index(fields, "start"@) == Some(1int));
    assert(json::field_index(fields, "end"@) == Some(2int));
    assert(json::field_index(fields, "count"@) == Some(3int));
    assert(json::field_index(fields, "chars"@) == Some(4int));
    assert(json::field_index(fields, "summary"@) == Some(5int));
    assert(json::field_index(fields, "stored_epoch_ms"@) == Some(6int));
    assert(json::field_index(fields, "placeholder_chars"@) == Some(7int));
    assert(json::field_index(fields, "token_savings_estimate"@) == Some(8int));
    assert(s.start as u64 as usize == s.start);
    assert(s.end as u64 as usize == s.end);
    assert(s.message_count as u64 as usize == s.message_count);
    assert(s.message_char_count as u64 as usize == s.message_char_count);
    assert(s.placeholder_char_count as u64 as usize == s.placeholder_char_count);
    assert(archive::saved_chars(s) as u64 as usize == archive::saved_chars(s));
}

proof fn literals_differ()
    ensures
        "id"@.len() == 2,
        "start"@.len() == 5 && "start"@[0] == 's',
        "end"@.len() == 3,
        "count"@.len() == 5 && "count"@[0] == 'c' && "count"@[1] == 'o',
        "chars"@.len() == 5 && "chars"@[0] == 'c' && "chars"@[1] == 'h',
        "summary"@.len() == 7,
        "stored_epoch_ms"@.len() == 15,
        "placeholder_chars"@.len() == 17,
        "token_savings_estimate"@.len() == 22,
{
    reveal_strlit("id");
    reveal_strlit("start");
    reveal_strlit("end");
    reveal_strlit("count");
    reveal_strlit("chars");
    reveal_strlit("summary");
    reveal_strlit("stored_epoch_ms");
    reveal_strlit("placeholder_chars");
    reveal_strlit("token_savings_estimate");
}

/// The archive of the thread that is open.
pub struct ThreadMemoryBackend;

/// The first segment with an identifier, as it is told.
pub open spec fn told(segments: Seq<thread::SegmentView>, id: u64) -> (
    u64,
    usize,
    usize,
    usize,
    usize,
    usize,
    usize,
    Seq<char>,
    u128,
) {
    archive::meta_tuple(memory_tool::segment_with(segments, id))
}

impl ThreadMemoryBackend {
    /// Lists segments in the order in which they were archived; a limit keeps the last ones.
    pub fn list(thread: Option<&Thread>, limit: Option<usize>) -> (r: Result<
        Vec<MemorySegmentMeta>,
        BackendError,
    >)
        ensures
            match r {
                Ok(list) => thread matches Some(t) && list@.map_values(
                    |m: MemorySegmentMeta| m@,
                ) == memory_tool::most_recent(t@.segments, limit).map_values(
                    |s: thread::SegmentView| archive::meta_tuple(s),
                ),
                Err(e) => thread is None && e is NoActiveThread,
            },
    {
        let t = match thread {
            None => return Err(BackendError::NoActiveThread),
            Some(t) => t,
        };
        let metas = t.memory_segment_metas();
        let n: usize = metas.len();
        let from: usize = match limit {
            Some(l) => if n > l {
                n - l
            } else {
                0
            },
            None => 0,
        };
        let ghost segments = t@.segments;
        assert(memory_tool::most_recent(segments, limit) =~= segments.skip(from as int));
        let mut out: Vec<MemorySegmentMeta> = Vec::new();
        for i in from..n
            invariant
                n == metas@.len(),
                n == segments.len(),
                from <= n,
                forall|k: int|
                    0 <= k < n ==> archive::tuple_view(#[trigger] metas@[k])
                        == archive::meta_tuple(segments[k]),
                out@.len() == i - from,
                forall|k: int|
                    0 <= k < i - from ==> (#[trigger] out@[k])@ == archive::meta_tuple(
                        segments[from + k],
                    ),
        {
            let m = &metas[i];
            out.push(
                tuple_to_meta((m.0, m.1, m.2, m.3, m.4, m.5, m.6, m.7.clone(), m.8)),
            );
        }
        assert(out@.map_values(|m: MemorySegmentMeta| m@) =~= memory_tool::most_recent(
            segments,
            limit,
        ).map_values(|s: thread::SegmentView| archive::meta_tuple(s)));
        Ok(out)
    }

    /// Sums the archive up.
    pub fn stats(thread: Option<&Thread>) -> (r: Result<MemoryStats, BackendError>)
        ensures
            match r {
                Ok(stats) => thread matches Some(t) && stats.segments == t@.segments.len()
                    && stats.messages == token_usage::capped(
                    memory_tool::total_messages(t@.segments),
                ) && stats.chars == token_usage::capped(memory_tool::total_chars(t@.segments)),
                Err(e) => thread is None && e is NoActiveThread,
            },
    {
        match thread {
            None => Err(BackendError::NoActiveThread),
            Some(t) => {
                let (segments, messages, chars, _placeholder_chars, _savings) = memory_tool::sums(
                    t,
                );
                Ok(MemoryStats { segments, messages, chars })
            },
        }
    }

    /// Archives a half open range.
    pub fn store(
        thread: &mut Thread,
        start: usize,
        end_exclusive: usize,
        summary: Option<&str>,
        now: u128,
    ) -> (r: Result<MemorySegmentMeta, BackendError>)
        ensures
            ({
                let custom = match summary {
                    Some(s) => Some(s@),
                    None => None,
                };
                match r {
                    Ok(meta) => start < end_exclusive && memory::store_error(
                        old(thread)@,
                        start,
                        (end_exclusive - 1) as usize,
                    ) is None && final(thread)@ == memory::stored(
                        old(thread)@,
                        start,
                        (end_exclusive - 1) as usize,
                        custom,
                        now,
                    ) && meta@ == told(final(thread)@.segments, old(thread)@.next_id),
                    Err(e) => final(thread)@ == old(thread)@ && (if start >= end_exclusive {
                        e is EmptyRange
                    } else {
                        memory::store_error(
                            old(thread)@,
                            start,
                            (end_exclusive - 1) as usize,
                        ) matches Some(cause) && e == BackendError::Memory(cause)
                    }),
                }
            }),
    {
        if start >= end_exclusive {
            return Err(BackendError::EmptyRange);
        }
        let id = match thread.store_memory_segment_with_summary(
            start,
            end_exclusive - 1,
            summary,
            now,
        ) {
            Ok(id) => id,
            Err(e) => return Err(BackendError::Memory(e)),
        };
        proof {
            memory::segment_index_is_first(thread@.segments, id);
            assert(thread@.segments.last().id == id);
        }
        let metas = thread.memory_segment_metas();
        match memory::find_segment(&thread.memory_segments, id) {
            Some(i) => {
                let m = &metas[i];
                Ok(tuple_to_meta((m.0, m.1, m.2, m.3, m.4, m.5, m.6, m.7.clone(), m.8)))
            },
            None => {
                assert(false);
                Err(BackendError::Memory(MemoryError::NoSegment { id }))
            },
        }
    }

    /// Shows a segment, and its messages where they are asked for.
    pub fn load(thread: &Thread, id: u64, include_messages: bool) -> (r: Result<
        MemorySegmentDetail,
        BackendError,
    >)
        ensures
            match r {
                Ok(detail) => memory::segment_index(thread@.segments, id) is Some && detail.meta@
                    == meta_of_json(
                    archive::segment_meta(memory_tool::segment_with(thread@.segments, id)),
                ) && text::views(detail.messages@) == (if include_messages {
                    memory_tool::segment_markdown(memory_tool::segment_with(thread@.segments, id))
                } else {
                    Seq::empty()
                }),
                Err(e) => memory::segment_index(thread@.segments, id) is None && e
                    == BackendError::Memory(MemoryError::NoSegment { id }),
            },
    {
        let (meta, messages) = match thread.load_memory_segment(id) {
            Ok(loaded) => loaded,
            Err(e) => return Err(BackendError::Memory(e)),
        };
        proof {
            loaded_meta_can_be_read(memory_tool::segment_with(thread@.segments, id));
        }
        let meta = match json_to_meta(&meta) {
            Ok(meta) => meta,
            Err(e) => return Err(e),
        };
        let messages = if include_messages {
            messages
        } else {
            let none: Vec<String> = Vec::new();
            assert(text::views(none@) =~= Seq::<Seq<char>>::empty());
            none
        };
        Ok(MemorySegmentDetail { meta, messages })
    }

    /// Puts a segment back, and shows it.
    pub fn restore(thread: &mut Thread, id: u64) -> (r: Result<MemorySegmentDetail, BackendError>)
        ensures
            final(thread)@ == memory::restored_by_id(old(thread)@, id),
            match r {
                Ok(detail) => memory::segment_index(old(thread)@.segments, id) is Some
                    && detail.meta@ == meta_of_json(
                    archive::segment_meta(memory_tool::segment_with(old(thread)@.segments, id)),
                ) && text::views(detail.messages@) == memory_tool::segment_markdown(
                    memory_tool::segment_with(old(thread)@.segments, id),
                ),
                Err(e) => memory::segment_index(old(thread)@.segments, id) is None && e
                    == BackendError::Memory(MemoryError::NoSegment { id }),
            },
    {
        if let Err(e) = thread.restore_memory_segment(id) {
            return Err(BackendError::Memory(e));
        }
        Self::load(thread, id, true)
    }

    /// Deletes a segment.
    pub fn prune(thread: &mut Thread, id: u64) -> (r: Result<(), BackendError>)
        ensures
            match memory::segment_index(old(thread)@.segments, id) {
                Some(i) => r is Ok && final(thread)@ == memory::pruned(old(thread)@, i),
                None => r == Err::<(), BackendError>(
                    BackendError::Memory(MemoryError::NoSegment { id }),
                ) && final(thread)@ == old(thread)@,
            },
    {
        match thread.prune_memory_segment(id) {
            Ok(_) => Ok(()),
            Err(e) => Err(BackendError::Memory(e)),
        }
    }
}

} // verus!
