//! Which thread is the active one.

use vstd::prelude::*;

use crate::text;

verus! {

/// The thread that is active, by its identifier, if one is.
#[derive(Debug)]
pub struct GlobalActiveThread {
    pub thread: Option<String>,
}

impl GlobalActiveThread {
    /// At first no thread is active.
    pub fn init_active_thread() -> (r: GlobalActiveThread)
        ensures
            r.thread is None,
    {
        GlobalActiveThread { thread: None }
    }

    /// Makes a thread the active one, or none. What was before is forgotten.
    pub fn set_active_thread(&mut self, thread: Option<String>)
        ensures
            text::opt_view(final(self).thread) == text::opt_view(thread),
    {
        self.thread = thread;
    }

    /// The thread that is active. There is none before one was set.
    pub fn active_thread(&self) -> (r: Option<String>)
        ensures
            text::opt_view(r) == text::opt_view(self.thread),
    {
        match &self.thread {
            Some(t) => Some(t.clone()),
            None => None,
        }
    }
}

} // verus!
