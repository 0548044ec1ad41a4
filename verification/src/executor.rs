//! The cooperative scheduler's bookkeeping, verified apart from the actual
//! polling: a worker's active set only grows by claiming a submitted task and
//! only shrinks by dropping one that reported completion, so a claimed task
//! that never completes is never lost. The polling loop itself — futures,
//! wakers, the sleep — lives with the runtime around this crate.

use vstd::prelude::*;

verus! {

/// One schedulable unit of work, named by the id the runtime tracks it under.
pub struct Task {
    pub id: usize,
}

impl Task {
    /// Wraps a unit of work.
    pub fn new(id: usize) -> (r: Self)
        ensures
            r.id == id,
    {
        Task { id }
    }
}

/// A worker's readiness flag: set by any waker, cleared when the worker
/// starts a polling round. A worker whose flag is clear sleeps briefly
/// instead of spinning.
pub struct Running {
    pub inner: bool,
}

impl Running {
    /// A fresh flag, set so the first round runs at once.
    pub fn new() -> (r: Self)
        ensures
            r.inner,
    {
        Running { inner: true }
    }

    /// Clears the flag at the start of a polling round.
    pub fn reset(&mut self)
        ensures
            !final(self).inner,
    {
        self.inner = false;
    }

    /// Whether any waker fired since the last round.
    pub fn read(&self) -> (r: bool)
        ensures
            r == self.inner,
    {
        self.inner
    }

    /// Sets the flag: some task can make progress.
    pub fn wake(&mut self)
        ensures
            final(self).inner,
    {
        self.inner = true;
    }
}

/// One worker's share of the scheduler's state: the tasks it has claimed and
/// whether the submission queue is still open.
pub struct Worker {
    pub tasks: Vec<Task>,
    pub can_receive_tasks: bool,
}

impl Worker {
    /// A fresh worker: nothing claimed, queue open.
    pub fn new() -> (r: Self)
        ensures
            r.tasks@ == Seq::<Task>::empty(),
            r.can_receive_tasks,
    {
        Worker { tasks: Vec::new(), can_receive_tasks: true }
    }

    /// Claims one submitted task: it joins the active set and nothing leaves.
    pub fn claim(&mut self, task: Task)
        ensures
            final(self).tasks@ == old(self).tasks@.push(task),
            final(self).can_receive_tasks == old(self).can_receive_tasks,
    {
        self.tasks.push(task);
    }

    /// Records that the submission queue closed: no further task will come,
    /// and none already claimed is lost.
    pub fn queue_closed(&mut self)
        ensures
            !final(self).can_receive_tasks,
            final(self).tasks@ == old(self).tasks@,
    {
        self.can_receive_tasks = false;
    }

    /// Drops the task at one position after it reported completion; the last
    /// task moves into the hole, every other task stays.
    pub fn finish(&mut self, i: usize)
        requires
            i < old(self).tasks@.len(),
        ensures
            final(self).tasks@ == old(self).tasks@.update(
                i as int,
                old(self).tasks@.last(),
            ).drop_last(),
            final(self).can_receive_tasks == old(self).can_receive_tasks,
    {
        self.tasks.swap_remove(i);
    }

    /// Whether this worker still has work or may yet receive some; a worker
    /// for which this is false ends its loop.
    pub fn alive(&self) -> (r: bool)
        ensures
            r == (self.can_receive_tasks || self.tasks@.len() > 0),
    {
        self.can_receive_tasks || self.tasks.len() > 0
    }
}

} // verus!
