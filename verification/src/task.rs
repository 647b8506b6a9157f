//! Which task runs next: the bookkeeping of a cooperative executor.

use vstd::prelude::*;

verus! {

/// Names a task.
#[derive(Clone, Copy, Debug, PartialEq, Eq, Structural)]
pub struct TaskId(pub u64);

/// The tasks that are alive and, of those, the ones that are ready to be
/// polled, in the order in which they became ready.
pub struct Executor {
    pub tasks: Vec<TaskId>,
    pub queue: Vec<TaskId>,
    pub next_id: u64,
}

/// Whether no value occurs twice.
pub open spec fn distinct(ids: Seq<TaskId>) -> bool {
    forall|i: int, j: int| 0 <= i < j < ids.len() ==> ids[i] != ids[j]
}

impl Executor {
    /// No task is listed twice, no task is queued twice, every queued task
    /// is alive, and every task's number is one that was given out.
    pub open spec fn wf(&self) -> bool {
        &&& distinct(self.tasks@)
        &&& distinct(self.queue@)
        &&& forall|i: int| 0 <= i < self.queue@.len() ==> self.tasks@.contains(self.queue@[i])
        &&& forall|i: int| 0 <= i < self.tasks@.len() ==> self.tasks@[i].0 < self.next_id
    }

    /// An executor without tasks.
    pub fn new() -> (executor: Self)
        ensures
            executor.wf(),
            executor.tasks@ == Seq::<TaskId>::empty(),
            executor.queue@ == Seq::<TaskId>::empty(),
            executor.next_id == 0,
    {
        Executor { tasks: Vec::new(), queue: Vec::new(), next_id: 0 }
    }

    fn position(ids: &Vec<TaskId>, id: TaskId) -> (at: Option<usize>)
        ensures
            match at {
                Some(i) => i < ids@.len() && ids@[i as int] == id,
                None => !ids@.contains(id),
            },
    {
        let mut i: usize = 0;
        while i < ids.len()
            invariant
                i <= ids@.len(),
                forall|k: int| 0 <= k < i ==> ids@[k] != id,
            decreases ids@.len() - i,
        {
            if ids[i].0 == id.0 {
                return Some(i);
            }
            i = i + 1;
        }
        None
    }

    /// Takes a new task in: it gets a number that no task had before, and
    /// it is ready, behind the tasks that are ready already. Nothing is
    /// taken in once the numbers are used up.
    pub fn spawn(&mut self) -> (id: Option<TaskId>)
        requires
            old(self).wf(),
        ensures
            final(self).wf(),
            match id {
                Some(id) => {
                    &&& old(self).next_id < u64::MAX
                    &&& id == TaskId(old(self).next_id)
                    &&& final(self).next_id == old(self).next_id + 1
                    &&& final(self).tasks@ == old(self).tasks@.push(id)
                    &&& final(self).queue@ == old(self).queue@.push(id)
                },
                None => old(self).next_id == u64::MAX && *final(self) == *old(self),
            },
    {
        if self.next_id == u64::MAX {
            return None;
        }
        let id = TaskId(self.next_id);
        self.next_id = self.next_id + 1;
        proof {
            assert(!old(self).tasks@.contains(id)) by {
                if old(self).tasks@.contains(id) {
                    let i = choose|i: int| 0 <= i < old(self).tasks@.len() && old(self).tasks@[i] == id;
                    assert(old(self).tasks@[i].0 < old(self).next_id);
                }
            }
            assert(!old(self).queue@.contains(id)) by {
                if old(self).queue@.contains(id) {
                    let i = choose|i: int| 0 <= i < old(self).queue@.len() && old(self).queue@[i] == id;
                    assert(old(self).tasks@.contains(old(self).queue@[i]));
                }
            }
        }
        self.tasks.push(id);
        self.queue.push(id);
        proof {
            assert forall|i: int| 0 <= i < self.queue@.len() implies self.tasks@.contains(
                self.queue@[i],
            ) by {
                if i < old(self).queue@.len() {
                    let q = old(self).queue@[i];
                    assert(old(self).tasks@.contains(q));
                    let k = choose|k: int| 0 <= k < old(self).tasks@.len() && old(self).tasks@[k] == q;
                    assert(self.tasks@[k] == q);
                } else {
                    assert(self.tasks@[self.tasks@.len() - 1] == id);
                }
            }
        }
        Some(id)
    }

    /// Whether a wake-up makes the task ready: it is alive and not ready
    /// yet.
    pub open spec fn wakes(&self, id: TaskId) -> bool {
        self.tasks@.contains(id) && !self.queue@.contains(id)
    }

    /// Wakes a task: it becomes ready, behind the tasks that are ready
    /// already. A task that is ready stays where it is in the queue, and a
    /// task that is not alive is not woken.
    pub fn wake(&mut self, id: TaskId) -> (woken: bool)
        requires
            old(self).wf(),
        ensures
            final(self).wf(),
            woken == old(self).wakes(id),
            final(self).tasks == old(self).tasks,
            final(self).next_id == old(self).next_id,
            final(self).queue@ == if woken {
                old(self).queue@.push(id)
            } else {
                old(self).queue@
            },
    {
        if Self::position(&self.tasks, id).is_none() {
            return false;
        }
        if Self::position(&self.queue, id).is_some() {
            return false;
        }
        self.queue.push(id);
        true
    }

    /// Takes the task that is to be polled next: the one that has been
    /// ready longest.
    pub fn run_ready(&mut self) -> (id: Option<TaskId>)
        requires
            old(self).wf(),
        ensures
            final(self).wf(),
            final(self).tasks == old(self).tasks,
            final(self).next_id == old(self).next_id,
            match id {
                Some(id) => old(self).queue@.len() > 0 && id == old(self).queue@[0]
                    && final(self).queue@ == old(self).queue@.skip(1),
                None => old(self).queue@.len() == 0 && final(self).queue@ == old(self).queue@,
            },
    {
        if self.queue.len() == 0 {
            return None;
        }
        let id = self.queue.remove(0);
        assert(self.queue@ =~= old(self).queue@.skip(1));
        Some(id)
    }

    /// Drops a task that has run to its end: it is no longer alive, and no
    /// longer ready if a wake-up made it so while it ran. The other tasks
    /// keep their order.
    pub fn finish(&mut self, id: TaskId)
        requires
            old(self).wf(),
        ensures
            final(self).wf(),
            final(self).next_id == old(self).next_id,
            final(self).tasks@ == old(self).tasks@.filter(|t: TaskId| t != id),
            final(self).queue@ == old(self).queue@.filter(|t: TaskId| t != id),
    {
        Self::remove_from(&mut self.tasks, id);
        Self::remove_from(&mut self.queue, id);
        proof {
            let keep = |t: TaskId| t != id;
            lemma_filter_keeps_order(old(self).tasks@, id);
            lemma_filter_keeps_order(old(self).queue@, id);
            assert forall|i: int| 0 <= i < self.queue@.len() implies self.tasks@.contains(
                self.queue@[i],
            ) by {
                let q = self.queue@[i];
                assert(self.queue@.contains(q));
                assert(old(self).queue@.contains(q) && q != id);
                let k = choose|k: int| 0 <= k < old(self).queue@.len() && old(self).queue@[k] == q;
                assert(old(self).tasks@.contains(old(self).queue@[k]));
            }
            assert forall|i: int| 0 <= i < self.tasks@.len() implies self.tasks@[i].0
                < self.next_id by {
                let t = self.tasks@[i];
                assert(self.tasks@.contains(t));
                assert(old(self).tasks@.contains(t));
                let k = choose|k: int| 0 <= k < old(self).tasks@.len() && old(self).tasks@[k] == t;
                assert(old(self).tasks@[k].0 < old(self).next_id);
            }
        }
    }

    fn remove_from(ids: &mut Vec<TaskId>, id: TaskId)
        ensures
            final(ids)@ == old(ids)@.filter(|t: TaskId| t != id),
    {
        let ghost keep = |t: TaskId| t != id;
        let mut kept: Vec<TaskId> = Vec::new();
        let mut i: usize = 0;
        assert(ids@.take(0) =~= Seq::<TaskId>::empty());
        while i < ids.len()
            invariant
                i <= ids@.len(),
                *ids == *old(ids),
                keep == |t: TaskId| t != id,
                kept@ == ids@.take(i as int).filter(keep),
            decreases ids@.len() - i,
        {
            let t = ids[i];
            proof {
                assert(ids@.take(i + 1) =~= ids@.take(i as int).push(t));
                assert(ids@.take(i + 1).drop_last() =~= ids@.take(i as int));
                reveal(Seq::filter);
            }
            if t.0 != id.0 {
                kept.push(t);
            }
            i = i + 1;
        }
        assert(ids@.take(ids@.len() as int) =~= ids@);
        *ids = kept;
    }
}

/// What is left after a task is dropped has no value twice and holds the
/// values that were there before, but for the task.
proof fn lemma_filter_keeps_order(ids: Seq<TaskId>, id: TaskId)
    requires
        distinct(ids),
    ensures
        distinct(ids.filter(|t: TaskId| t != id)),
        forall|t: TaskId|
            ids.filter(|t: TaskId| t != id).contains(t) <==> (ids.contains(t) && t != id),
    decreases ids.len(),
{
    let keep = |t: TaskId| t != id;
    reveal(Seq::filter);
    if ids.len() > 0 {
        let front = ids.drop_last();
        lemma_filter_keeps_order(front, id);
        let kept = front.filter(keep);
        assert forall|t: TaskId| ids.filter(keep).contains(t) <==> (ids.contains(t) && t
            != id) by {
            if ids.contains(t) && t != id {
                let k = choose|k: int| 0 <= k < ids.len() && ids[k] == t;
                if k < front.len() {
                    assert(front[k] == t);
                    assert(front.contains(t));
                    assert(kept.contains(t));
                    let m = choose|m: int| 0 <= m < kept.len() && kept[m] == t;
                    assert(ids.filter(keep)[m] == t);
                } else {
                    assert(ids.filter(keep) == kept.push(ids.last()));
                    assert(ids.filter(keep)[kept.len() as int] == t);
                }
            }
            if ids.filter(keep).contains(t) {
                let m = choose|m: int| 0 <= m < ids.filter(keep).len() && ids.filter(keep)[m] == t;
                if m < kept.len() {
                    assert(kept[m] == t);
                    assert(kept.contains(t));
                    assert(front.contains(t));
                    let k = choose|k: int| 0 <= k < front.len() && front[k] == t;
                    assert(ids[k] == t);
                } else {
                    assert(t == ids.last());
                    assert(ids[ids.len() - 1] == t);
                }
            }
        }
        if keep(ids.last()) {
            assert(!kept.contains(ids.last())) by {
                if kept.contains(ids.last()) {
                    assert(front.contains(ids.last()));
                    let k = choose|k: int| 0 <= k < front.len() && front[k] == ids.last();
                    assert(ids[k] == ids[ids.len() - 1]);
                }
            }
        }
    }
}

} // verus!
