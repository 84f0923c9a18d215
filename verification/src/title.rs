//! The title of a thread, which a model writes.

use vstd::prelude::*;

use crate::archive;
use crate::archive::SegmentRange;
use crate::completion;
use crate::message;
use crate::message::{RequestMessage, Role};
use crate::thread;
use crate::thread::{Thread, TitleUpdated};

verus! {

/// What is asked for a title.
#[derive(Debug)]
pub struct TitleStart {
    /// What is asked for a summary first, and the segments to archive again when it is there. It is
    /// given only for a thread that has no summary.
    pub summary: Option<(Vec<RequestMessage>, Vec<SegmentRange>)>,
    /// What is asked for the title.
    pub requests: Vec<RequestMessage>,
}

/// A thread whose title is asked for: without a summary, its archive is put back.
pub open spec fn titled(t: thread::ThreadView) -> thread::ThreadView {
    thread::ThreadView {
        pending_title_generation: true,
        ..if t.summary is None {
            archive::fully_restored(t)
        } else {
            t
        }
    }
}

impl Thread {
    /// Starts a title, where there is a model for it.
    pub fn generate_title(&mut self, prompt: &str, summary_prompt: &str, now: u128) -> (r: Option<
        TitleStart,
    >)
        ensures
            r is Some <==> old(self)@.has_summarization_model,
            match r {
                None => final(self)@ == old(self)@,
                Some(start) => {
                    &&& final(self)@ == titled(old(self)@)
                    &&& message::request_views(start.requests@) == archive::numbered_requests(
                        final(self)@.messages,
                    ).push(completion::one_text(Role::User, prompt@))
                    &&& start.summary is Some <==> old(self)@.summary is None
                    &&& start.summary matches Some(asked) ==> {
                        &&& message::request_views(asked.0@) == archive::numbered_requests(
                            final(self)@.messages,
                        ).push(completion::one_text(Role::User, summary_prompt@))
                        &&& archive::range_views(asked.1@) == archive::opened_ranges(
                            old(self)@,
                        )
                    }
                },
            },
    {
        if !self.has_summarization_model {
            return None;
        }
        let summary = if self.summary.is_none() {
            self.summarize_with_full_restore_and_rearchive(summary_prompt, now)
        } else {
            None
        };
        let requests = self.prompted_requests(prompt);
        self.pending_title_generation = true;
        Some(TitleStart { summary, requests })
    }

    /// Ends a title: one that was written whole is kept, and it is said whether it is a new one.
    pub fn finish_title(&mut self, written: Option<String>) -> (r: Option<TitleUpdated>)
        ensures
            r is Some <==> (written matches Some(title) && old(self)@.title != Some(title@)),
            final(self)@ == (thread::ThreadView {
                title: match written {
                    Some(title) => Some(title@),
                    None => old(self)@.title,
                },
                pending_title_generation: false,
                ..old(self)@
            }),
    {
        match written {
            Some(title) => self.set_title(title),
            None => {
                self.pending_title_generation = false;
                None
            },
        }
    }
}

} // verus!
