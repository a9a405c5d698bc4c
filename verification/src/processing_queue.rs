//! The queue between the message handler and the uploader.

use vstd::prelude::*;
use std::collections::VecDeque;

use crate::queue_entry::QueueEntry;

verus! {

/// Entries waiting for upload. The message handler adds at the back and the
/// uploader takes from the back, so the newest entry goes first.
pub struct ProcessingQueue {
    entries: VecDeque<QueueEntry>,
}

impl View for ProcessingQueue {
    type V = Seq<QueueEntry>;

    /// The entries, oldest first.
    closed spec fn view(&self) -> Seq<QueueEntry> {
        self.entries@
    }
}

impl ProcessingQueue {
    /// An empty queue.
    pub fn new() -> (q: Self)
        ensures
            q@ == Seq::<QueueEntry>::empty(),
    {
        ProcessingQueue { entries: VecDeque::new() }
    }

    /// The number of waiting entries.
    pub fn len(&self) -> (n: usize)
        ensures
            n == self@.len(),
    {
        self.entries.len()
    }

    /// Whether no entry is waiting.
    pub fn is_empty(&self) -> (b: bool)
        ensures
            b == (self@.len() == 0),
    {
        self.entries.len() == 0
    }

    /// Adds `entry` at the back.
    pub fn push_back(&mut self, entry: QueueEntry)
        ensures
            final(self)@ == old(self)@.push(entry),
    {
        self.entries.push_back(entry);
    }

    /// Takes the entry at the back (the newest), if any.
    pub fn pop_back(&mut self) -> (r: Option<QueueEntry>)
        ensures
            old(self)@.len() == 0 ==> r is None && final(self)@ == old(self)@,
            old(self)@.len() > 0 ==> r == Some(old(self)@.last()) && final(self)@ == old(self)@.drop_last(),
    {
        self.entries.pop_back()
    }
}

/// What the uploader takes next is what the handler added last: adding an
/// entry and then taking one gives that entry back and leaves the queue as
/// it was.
pub proof fn lemma_push_then_pop(q: Seq<QueueEntry>, e: QueueEntry)
    ensures
        q.push(e).len() > 0,
        q.push(e).last() == e,
        q.push(e).drop_last() == q,
{
    assert(q.push(e).drop_last() =~= q);
}

} // verus!
