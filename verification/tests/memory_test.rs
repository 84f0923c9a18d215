use agent_context::archive::numbered_requests_of;
use agent_context::memory::{clean_summary, shorten, MemoryError};
use agent_context::message::{
    AgentMessage, AgentMessageContent, Message, MessageContent, UserMessage, UserMessageContent,
};
use agent_context::segment_file::PersistStep;
use agent_context::thread::{CompletionMode, DbLanguageModel, Model, ModelInfo, Thread};
use agent_context::thread_memory_backend::{json_to_meta, BackendError, ThreadMemoryBackend};
use agent_context::json::Json;

fn said(id: &str, text: &str) -> Message {
    Message::User(UserMessage {
        id: id.to_string(),
        content: vec![UserMessageContent::Text(text.to_string())],
    })
}

fn answered(text: &str) -> Message {
    Message::Agent(AgentMessage {
        content: vec![AgentMessageContent::Text(text.to_string())],
        tool_results: vec![],
    })
}

fn model() -> Option<Model> {
    Some(Model {
        name: DbLanguageModel { provider: "zed.dev".to_string(), model: "large".to_string() },
        info: ModelInfo {
            max_tokens: 1000,
            max_tokens_in_burn_mode: 4000,
            supports_images: true,
        },
    })
}

fn thread_of(messages: Vec<Message>) -> Thread {
    let mut thread =
        Thread::new("write".to_string(), CompletionMode::Normal, model(), None);
    thread.messages = messages;
    thread
}

fn six() -> Thread {
    thread_of(vec![
        said("u0", "zero"),
        answered("one"),
        said("u2", "two"),
        answered("three"),
        said("u4", "four"),
        answered("five"),
    ])
}

fn texts(thread: &Thread) -> Vec<String> {
    thread.messages.iter().map(|m| m.to_markdown()).collect()
}

#[test]
fn storing_puts_a_placeholder_in_place_of_the_range() {
    let mut thread = six();
    let id = thread.store_memory_segment(1, 3, 77).unwrap();
    assert_eq!(id, 0);
    assert_eq!(thread.memory_next_id, 1);
    assert_eq!(
        texts(&thread),
        vec![
            "## User\n\nzero\n".to_string(),
            "## Assistant\n\n[memory:0] 3 msgs | first: ## Assistant\n\none\n | last: ## Assistant\n\nthree\n\n"
                .to_string(),
            "## User\n\nfour\n".to_string(),
            "## Assistant\n\nfive\n".to_string(),
        ]
    );
    let segment = &thread.memory_segments[0];
    assert_eq!((segment.start, segment.end, segment.message_count), (1, 3, 3));
    assert_eq!(segment.stored_epoch_ms, 77);
    assert_eq!(
        segment.summary,
        "3 msgs | first: ## Assistant\n\none\n | last: ## Assistant\n\nthree\n"
    );
    // "## Assistant\n\none\n", "## User\n\ntwo\n" and "## Assistant\n\nthree\n".
    assert_eq!(segment.message_char_count, 18 + 13 + 20);
    assert_eq!(segment.placeholder_char_count, "[memory:0] ".len() + segment.summary.len());
}

#[test]
fn one_message_is_summarised_as_such() {
    let mut thread = six();
    thread.store_memory_segment(2, 2, 0).unwrap();
    assert_eq!(thread.memory_segments[0].summary, "Single message: ## User\n\ntwo\n");
}

#[test]
fn restoring_gives_the_messages_back() {
    let mut thread = six();
    let before = texts(&thread);
    let id = thread.store_memory_segment(1, 3, 0).unwrap();
    assert_ne!(texts(&thread), before);
    thread.restore_memory_segment(id).unwrap();
    assert_eq!(texts(&thread), before);
    // The segment stays archived.
    assert_eq!(thread.memory_segments.len(), 1);
}

#[test]
fn pruning_drops_the_segment() {
    let mut thread = six();
    let id = thread.store_memory_segment(1, 3, 0).unwrap();
    assert!(thread.prune_memory_segment(id).is_ok());
    assert!(thread.memory_segments.is_empty());
    assert_eq!(thread.prune_memory_segment(id), Err(MemoryError::NoSegment { id }));
    assert_eq!(thread.restore_memory_segment(id), Err(MemoryError::NoSegment { id }));
    assert_eq!(
        MemoryError::NoSegment { id }.message(),
        "no memory segment with id 0"
    );
}

#[test]
fn bad_ranges_are_refused_and_change_nothing() {
    let mut thread = six();
    let before = texts(&thread);
    let e = thread.store_memory_segment(3, 2, 0).unwrap_err();
    assert_eq!(e, MemoryError::StartAfterEnd);
    assert_eq!(e.message(), "start index greater than end index");
    let e = thread.store_memory_segment(3, 6, 0).unwrap_err();
    assert_eq!(e, MemoryError::OutOfBounds { start: 3, end: 6, len: 6 });
    assert_eq!(e.message(), "range 3..=6 out of bounds (len=6)");
    assert_eq!(texts(&thread), before);

    thread.store_memory_segment(1, 2, 0).unwrap();
    assert!(thread.memory_range_overlaps(2, 4));
    let e = thread.store_memory_segment(2, 4, 0).unwrap_err();
    assert_eq!(e, MemoryError::Overlaps { start: 2, end: 4 });
    assert_eq!(e.message(), "range 2..=4 overlaps an existing archived memory segment");
}

#[test]
fn positions_out_of_bounds_are_refused() {
    let mut thread = six();
    let e = thread.set_placeholder(6, "x".to_string()).unwrap_err();
    assert_eq!(e, MemoryError::PlaceholderOutOfBounds { index: 6, len: 6 });
    let e = thread.remove_message(9).unwrap_err();
    assert_eq!(e, MemoryError::RemoveOutOfBounds { index: 9, len: 6 });
    assert!(thread.extract_messages(2, 1).is_err());
    let taken = thread.extract_messages(0, 1).unwrap();
    assert_eq!(taken.len(), 2);
    assert_eq!(thread.messages.len(), 4);
    thread.insert_messages(0, taken);
    assert_eq!(texts(&thread), texts(&six()));
}

#[test]
fn a_given_summary_is_cleaned_and_cut() {
    assert_eq!(clean_summary("  a\n\tb   c "), "a b c");
    let long = "x".repeat(97);
    let cleaned = clean_summary(&long);
    assert_eq!(cleaned.chars().count(), 97);
    assert!(cleaned.ends_with('…'));
    let fits = "y".repeat(96);
    assert_eq!(clean_summary(&fits), fits);

    let mut thread = six();
    thread.store_memory_segment_with_summary(0, 1, Some("  what\nwas said "), 5).unwrap();
    assert_eq!(thread.memory_segments[0].summary, "what was said");
    // A blank one is no summary.
    let mut thread = six();
    thread.store_memory_segment_with_summary(2, 2, Some(" \n "), 5).unwrap();
    assert_eq!(thread.memory_segments[0].summary, "Single message: ## User\n\ntwo\n");
}

#[test]
fn texts_are_shortened_by_characters_when_their_bytes_are_too_many() {
    assert_eq!(shorten("abc", 3), "abc");
    assert_eq!(shorten("abcd", 3), "abc…");
    // Two characters of two bytes each: too long in bytes, all of it shown, and marked.
    assert_eq!(shorten("éé", 3), "éé…");
}

#[test]
fn loaded_segments_set_the_next_identifier() {
    let mut thread = six();
    thread.store_memory_segment(0, 1, 0).unwrap();
    thread.store_memory_segment(2, 3, 0).unwrap();
    let segments = std::mem::take(&mut thread.memory_segments);
    let mut other = six();
    other.load_memory_segments(segments);
    assert_eq!(other.memory_segments.len(), 2);
    assert_eq!(other.memory_next_id, 2);
    let mut none = six();
    none.load_memory_segments(vec![]);
    assert_eq!(none.memory_next_id, 1);
}

#[test]
fn a_loaded_segment_is_told_as_json() {
    let mut thread = six();
    thread.store_memory_segment_with_summary(1, 2, Some("s"), 9).unwrap();
    let (meta, messages) = thread.load_memory_segment(0).unwrap();
    assert_eq!(messages, vec!["## Assistant\n\none\n", "## User\n\ntwo\n"]);
    assert_eq!(meta.get("id").and_then(|v| v.as_u64()), Some(0));
    assert_eq!(meta.get("count").and_then(|v| v.as_u64()), Some(2));
    // 31 bytes archived, and "[memory:0] s" is 12 bytes long.
    assert_eq!(meta.get("token_savings_estimate").and_then(|v| v.as_u64()), Some(19));
    assert_eq!(meta.get("stored_epoch_ms").and_then(|v| v.as_u64()), Some(9));
    assert!(thread.load_memory_segment(4).is_err());
    let meta = json_to_meta(&meta).unwrap();
    assert_eq!((meta.id, meta.start, meta.end, meta.count), (0, 1, 2, 2));
    assert_eq!(meta.summary, "s");
}

#[test]
fn metadata_without_a_field_is_refused() {
    match json_to_meta(&Json::Object(vec![])) {
        Err(BackendError::MissingField(name)) => assert_eq!(name, "id"),
        other => panic!("{:?}", other),
    }
}

#[test]
fn the_backend_works_on_half_open_ranges() {
    let mut thread = six();
    let meta = ThreadMemoryBackend::store(&mut thread, 1, 3, None, 1).unwrap();
    assert_eq!((meta.start, meta.end, meta.count), (1, 2, 2));
    match ThreadMemoryBackend::store(&mut thread, 3, 3, None, 1) {
        Err(BackendError::EmptyRange) => {}
        other => panic!("{:?}", other),
    }
    let stats = ThreadMemoryBackend::stats(Some(&thread)).unwrap();
    assert_eq!((stats.segments, stats.messages, stats.chars), (1, 2, 31));
    let listed = ThreadMemoryBackend::list(Some(&thread), None).unwrap();
    assert_eq!(listed.len(), 1);
    assert!(ThreadMemoryBackend::list(Some(&thread), Some(0)).unwrap().is_empty());
    match ThreadMemoryBackend::list(None, None) {
        Err(e @ BackendError::NoActiveThread) => assert!(!e.message().is_empty()),
        other => panic!("{:?}", other),
    }
    let detail = ThreadMemoryBackend::load(&thread, meta.id, true).unwrap();
    assert_eq!(detail.messages.len(), 2);
    let detail = ThreadMemoryBackend::load(&thread, meta.id, false).unwrap();
    assert!(detail.messages.is_empty());
    ThreadMemoryBackend::restore(&mut thread, meta.id).unwrap();
    assert_eq!(texts(&thread), texts(&six()));
    assert!(ThreadMemoryBackend::prune(&mut thread, meta.id).is_ok());
    match ThreadMemoryBackend::prune(&mut thread, meta.id) {
        Err(BackendError::Memory(MemoryError::NoSegment { id: 0 })) => {}
        other => panic!("{:?}", other),
    }
}

#[test]
fn the_archive_is_put_back_and_rebuilt() {
    let mut thread = six();
    thread.store_memory_segment_with_summary(1, 3, Some("middle"), 0).unwrap();
    let ranges = thread.restore_all_segments();
    assert_eq!(texts(&thread), texts(&six()));
    assert_eq!(ranges.len(), 1);
    thread.rearchive_segments_after_full_restore(ranges, 8);
    assert_eq!(thread.messages.len(), 4);
    assert_eq!(thread.memory_segments.len(), 1);
    assert_eq!(thread.memory_segments[0].summary, "middle");
    assert_eq!(thread.memory_segments[0].id, 1);
}

#[test]
fn ranges_archived_front_to_back_come_back_in_order() {
    let mut thread = six();
    thread.store_memory_segment(0, 1, 0).unwrap();
    thread.store_memory_segment(2, 3, 0).unwrap();
    let compact = texts(&thread);
    assert_eq!(compact.len(), 4);
    let summaries: Vec<String> =
        thread.memory_segments.iter().map(|s| s.summary.clone()).collect();
    let ranges = thread.restore_all_segments();
    assert_eq!(texts(&thread), texts(&six()));
    assert_eq!(ranges.iter().map(|r| r.start).collect::<Vec<_>>(), vec![0, 2]);
    thread.rearchive_segments_after_full_restore(ranges, 8);
    let again = texts(&thread);
    assert_eq!(again.len(), 4);
    assert_eq!((again[1].as_str(), again[3].as_str()), (compact[1].as_str(), compact[3].as_str()));
    assert!(again[0].contains(&format!("[memory:2] {}", summaries[0])));
    assert!(again[2].contains(&format!("[memory:3] {}", summaries[1])));
    let archived: Vec<Vec<String>> = thread
        .memory_segments
        .iter()
        .map(|s| s.messages.iter().map(|m| m.to_markdown()).collect())
        .collect();
    let all = texts(&six());
    assert_eq!(archived, vec![all[0..2].to_vec(), all[3..5].to_vec()]);
    for (segment, summary) in thread.memory_segments.iter().zip(&summaries) {
        assert_eq!(&segment.summary, summary);
    }
}

#[test]
fn without_a_model_the_archive_is_rebuilt_at_once() {
    let mut thread = six();
    thread.store_memory_segment(0, 1, 0).unwrap();
    thread.store_memory_segment(2, 3, 0).unwrap();
    let before: Vec<(usize, usize, String)> =
        thread.memory_segments.iter().map(|s| (s.start, s.end, s.summary.clone())).collect();
    assert!(thread.summarize_with_full_restore_and_rearchive("sum up", 5).is_none());
    let after: Vec<(usize, usize, String)> =
        thread.memory_segments.iter().map(|s| (s.start, s.end, s.summary.clone())).collect();
    assert_eq!(after, before);
    let all = texts(&six());
    let shown = texts(&thread);
    assert_eq!(shown.len(), 4);
    assert_eq!((&shown[1], &shown[3]), (&all[2], &all[5]));
}

#[test]
fn an_archive_in_an_archive_comes_back() {
    let talk = || -> Thread {
        thread_of((0..10).map(|i| said(&format!("u{}", i), &format!("m{}", i))).collect())
    };
    let mut thread = talk();
    thread.store_memory_segment_with_summary(5, 8, Some("late"), 0).unwrap();
    thread.store_memory_segment_with_summary(0, 2, Some("early"), 0).unwrap();
    // The placeholder of the first range stands at the fourth place now, and is archived itself.
    thread.store_memory_segment_with_summary(3, 3, Some("inner"), 0).unwrap();
    assert!(thread.memory_segments[2].messages[0].to_markdown().contains("[memory:0] late"));
    thread.messages.push(answered("more"));
    let compact = texts(&thread);
    let ranges = thread.restore_all_segments();
    let mut whole = texts(&talk());
    whole.push(answered("more").to_markdown());
    assert_eq!(texts(&thread), whole);
    thread.rearchive_segments_after_full_restore(ranges, 1);
    assert_eq!(texts(&thread).len(), compact.len());
    assert!(thread.memory_segments[2].messages[0].to_markdown().contains("[memory:3] late"));
}

#[test]
fn a_segment_that_is_back_is_not_put_back_again() {
    let mut thread = six();
    let first = thread.store_memory_segment_with_summary(0, 1, Some("a"), 0).unwrap();
    thread.store_memory_segment_with_summary(2, 3, Some("b"), 0).unwrap();
    // The placeholder of the second segment moves when the first comes back.
    thread.restore_memory_segment(first).unwrap();
    assert!(texts(&thread)[3].contains("[memory:1] b"));
    let ranges = thread.restore_all_segments();
    assert_eq!(texts(&thread), texts(&six()));
    assert_eq!(ranges.iter().map(|r| (r.id, r.start)).collect::<Vec<_>>(), vec![(1, 3)]);
    thread.rearchive_segments_after_full_restore(ranges, 8);
    assert_eq!(thread.messages.len(), 5);
    assert_eq!(
        thread.memory_segments.iter().map(|s| s.summary.as_str()).collect::<Vec<_>>(),
        vec!["a", "b"]
    );
}

#[test]
fn pruning_takes_a_placeholder_along_that_was_moved() {
    let mut thread = six();
    let first = thread.store_memory_segment_with_summary(2, 3, Some("a"), 0).unwrap();
    thread.store_memory_segment_with_summary(0, 1, Some("b"), 0).unwrap();
    let shown = texts(&thread);
    assert_eq!(shown.len(), 4);
    assert!(shown[1].contains("[memory:0] a"));
    thread.prune_memory_segment(first).unwrap();
    assert_eq!(texts(&thread), vec![shown[0].clone(), shown[2].clone(), shown[3].clone()]);
    assert_eq!(thread.memory_segments.len(), 1);
    // What only starts like a placeholder is not one that was moved.
    let second = thread.memory_segments[0].id;
    thread.restore_memory_segment(second).unwrap();
    thread.messages.push(answered("[memory:1] is back"));
    let before = texts(&thread);
    thread.prune_memory_segment(second).unwrap();
    assert_eq!(texts(&thread), before);
}

#[test]
fn the_time_of_a_thread_is_that_of_its_last_message() {
    let mut thread = six();
    thread.updated_at_ms = 7;
    let id = thread.store_memory_segment(0, 1, 99).unwrap();
    thread.restore_memory_segment(id).unwrap();
    thread.prune_memory_segment(id).unwrap();
    thread.flush_pending_message();
    assert_eq!(thread.to_db().updated_at_ms, 7);
    thread.pending_message = Some(AgentMessage {
        content: vec![AgentMessageContent::Text("done".to_string())],
        tool_results: vec![],
    });
    thread.flush_pending_message();
    assert!(thread.to_db().updated_at_ms > 7);
}

#[test]
fn an_unknown_segment_is_not_restored() {
    let mut thread = six();
    thread.store_memory_segment(0, 1, 0).unwrap();
    let before = texts(&thread);
    assert!(matches!(
        thread.restore_memory_segment(7),
        Err(MemoryError::NoSegment { id: 7 })
    ));
    assert_eq!(texts(&thread), before);
}

#[test]
fn a_summary_can_be_kept_as_it_is() {
    let mut thread = six();
    let id = thread.store_memory_segment_as(0, 0, "two\nlines", 0).unwrap();
    assert_eq!((id, thread.memory_segments[0].summary.as_str()), (0, "two\nlines"));
    assert!(matches!(
        thread.store_memory_segment_as(0, 0, "again", 0),
        Err(MemoryError::Overlaps { start: 0, end: 0 })
    ));
}

#[test]
fn usage_counts_the_archive_as_if_it_were_there() {
    let mut thread = six();
    let long = "w".repeat(400);
    thread.messages.push(answered(&long));
    thread.store_memory_segment_with_summary(6, 6, Some("s"), 0).unwrap();
    let (active, full) = thread.active_and_full_token_usage().unwrap();
    assert_eq!(active.max_tokens, 1000);
    let segment = &thread.memory_segments[0];
    // 400 characters at four to a token; "[memory:0] s" is twelve characters long.
    assert_eq!((segment.message_token_count, segment.placeholder_token_count), (100, 3));
    assert_eq!(full.used_tokens, active.used_tokens + 97);
    thread.precise_active_tokens = Some(500);
    let (active, full) = thread.active_and_full_token_usage().unwrap();
    assert_eq!((active.used_tokens, full.used_tokens), (500, 597));
    thread.model = None;
    assert!(thread.active_and_full_token_usage().is_none());
}

#[test]
fn requests_are_marked_with_their_position() {
    let thread = six();
    let requests = numbered_requests_of(&thread.messages);
    assert_eq!(requests.len(), 6);
    match &requests[4].content[0] {
        MessageContent::Text(mark) => assert_eq!(mark, "[@4]"),
        other => panic!("{:?}", other),
    }
}

#[test]
fn segments_are_kept_in_a_file_of_the_thread() {
    let mut thread = six();
    thread.id = "abc".to_string();
    let (file, temporary) = thread.memory_segments_files("/ctx");
    assert_eq!(file, "/ctx/memory_segments/abc.json");
    assert_eq!(temporary, "/ctx/memory_segments/abc.json.tmp");
    thread.id = "a.b".to_string();
    assert_eq!(thread.memory_segments_files("c").1, "c/memory_segments/a.b.json.tmp");
    // A name that starts with its only dot has no extension.
    thread.id = String::new();
    let (file, temporary) = thread.memory_segments_files("/ctx");
    assert_eq!(file, "/ctx/memory_segments/.json");
    assert_eq!(temporary, "/ctx/memory_segments/.json.json.tmp");
    assert_eq!(thread.persist_memory_segments(false), PersistStep::Nothing);
    assert_eq!(thread.persist_memory_segments(true), PersistStep::Remove);
    thread.store_memory_segment(0, 0, 0).unwrap();
    assert_eq!(thread.persist_memory_segments(true), PersistStep::Write);
}
