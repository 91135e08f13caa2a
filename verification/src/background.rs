//! The background work queue. One dedicated host thread drains it in order;
//! this module owns the queue's discipline: jobs enter at the back and leave
//! at the front (first in, first out), a closed queue accepts nothing more,
//! and closing loses nothing already queued. Executing a job — network fetch
//! and image decode — is the host thread's work; it takes jobs out one at a
//! time and never sees them reordered.

use vstd::prelude::*;

verus! {

/// One unit of deferred work, described as plain data: the worker thread
/// performs the fetch it names and hands the result back to the overlay.
#[derive(Debug, Clone, PartialEq, Eq)]
pub enum WorkItem {
    /// Fetch every named catalog page and replace the whole catalog with
    /// what arrived.
    RefreshSets { ids: Vec<String>, use_global: bool },
    /// Fetch one catalog page and append it.
    AddSet { id: String },
    /// Fetch and decode one animated emote image.
    FetchGif { identifier: String, url: String },
}

/// A work queue not yet attached to its worker thread.
pub struct Worker {
    queue: Vec<WorkItem>,
}

/// The live work queue: jobs wait here in arrival order until the worker
/// thread takes them.
pub struct RunningWorker {
    queue: Vec<WorkItem>,
    open: bool,
}

impl Worker {
    /// A fresh, empty queue.
    pub fn new() -> (r: Worker)
        ensures
            r.queue() =~= Seq::<WorkItem>::empty(),
    {
        Worker { queue: Vec::new() }
    }

    /// Hands the queue to its worker: open, with whatever was queued before
    /// the thread started.
    pub fn run(self) -> (r: RunningWorker)
        ensures
            r.queue() == self.queue(),
            r.is_open(),
    {
        RunningWorker { queue: self.queue, open: true }
    }

    pub closed spec fn queue(&self) -> Seq<WorkItem> {
        self.queue@
    }
}

impl RunningWorker {
    pub closed spec fn queue(&self) -> Seq<WorkItem> {
        self.queue@
    }

    pub closed spec fn is_open(&self) -> bool {
        self.open
    }

    /// Enqueues one job: appended at the back while the queue is open, and
    /// never blocking. A closed queue rejects it, leaving the queue as it
    /// was.
    pub fn spawn(&mut self, job: WorkItem)
        ensures
            old(self).is_open() ==> final(self).queue() == old(self).queue().push(job),
            !old(self).is_open() ==> final(self).queue() == old(self).queue(),
            final(self).is_open() == old(self).is_open(),
    {
        if self.open {
            self.queue.push(job);
        }
    }

    /// Takes the oldest waiting job, if any: jobs leave in exactly the order
    /// they entered.
    pub fn take_next(&mut self) -> (r: Option<WorkItem>)
        ensures
            final(self).is_open() == old(self).is_open(),
            old(self).queue().len() == 0 ==> r is None && final(self).queue() == old(self).queue(),
            old(self).queue().len() > 0 ==> r == Some(old(self).queue()[0]) && final(self).queue()
                == old(self).queue().drop_first(),
    {
        if self.queue.len() > 0 {
            let job = self.queue.remove(0);
            proof {
                assert(self.queue@ =~= old(self).queue@.drop_first());
            }
            Some(job)
        } else {
            None
        }
    }

    /// Closes the queue: no further job is accepted, and nothing already
    /// queued is lost — the worker still drains what is there.
    pub fn close(&mut self)
        ensures
            final(self).queue() == old(self).queue(),
            !final(self).is_open(),
    {
        self.open = false;
    }

    /// Consumed at teardown, after the host has drained the queue and joined
    /// the worker thread.
    pub fn join(self) {
    }
}

} // verus!
