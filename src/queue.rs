//! The queue of sync tasks and the batching of its tasks by timeline.

use vstd::prelude::*;

use std::collections::VecDeque;
use std::ops::ControlFlow;

use crate::task::{add_task, empty_batch, BatchModel, SyncTask, SyncTaskBatch, TaskModel};
use crate::timeline::{SyncId, TimelineId};

verus! {

/// The tasks waiting for the sync loop, first in, first out.
pub struct SyncQueue {
    tasks: VecDeque<(SyncId, SyncTask)>,
    closed: bool,
}

/// The value of a queued task.
pub open spec fn entry_view(e: (SyncId, SyncTask)) -> (SyncId, TaskModel) {
    (e.0, e.1@)
}

/// The identifiers of a sequence of batches.
pub open spec fn batch_ids(b: Seq<(SyncId, BatchModel)>) -> Seq<SyncId> {
    b.map_values(|e: (SyncId, BatchModel)| e.0)
}

/// The values of a sequence of batches.
pub open spec fn batches_view(b: Seq<(SyncId, SyncTaskBatch)>) -> Seq<(SyncId, BatchModel)> {
    b.map_values(|e: (SyncId, SyncTaskBatch)| (e.0, e.1@))
}

/// Batches `b` with task `t` of timeline `id` added: merged into the batch
/// of `id`, or in a new batch at the end.
pub open spec fn batch_with(b: Seq<(SyncId, BatchModel)>, id: SyncId, t: TaskModel) -> Seq<
    (SyncId, BatchModel),
> {
    if batch_ids(b).contains(id) {
        let k = batch_ids(b).index_of(id);
        b.update(k, (id, add_task(b[k].1, t)))
    } else {
        b.push((id, add_task(empty_batch(), t)))
    }
}

/// The batches that the tasks `s` make, in the order in which their
/// timelines first appear.
pub open spec fn batches_of(s: Seq<(SyncId, TaskModel)>) -> Seq<(SyncId, BatchModel)>
    decreases s.len(),
{
    if s.len() == 0 {
        Seq::empty()
    } else {
        batch_with(batches_of(s.drop_last()), s.last().0, s.last().1)
    }
}

/// The batches that `r` continues with, if it does.
pub open spec fn batch_list(r: ControlFlow<(), Vec<(SyncId, SyncTaskBatch)>>) -> Option<
    Seq<(SyncId, BatchModel)>,
> {
    match r {
        ControlFlow::Continue(v) => Some(batches_view(v@)),
        ControlFlow::Break(_) => None,
    }
}

/// The timelines that the tasks `s` are for.
pub open spec fn timelines_of(s: Seq<(SyncId, TaskModel)>) -> Set<TimelineId> {
    s.map_values(|e: (SyncId, TaskModel)| e.0.timeline_id).to_set()
}

proof fn lemma_batch_with_unique(b: Seq<(SyncId, BatchModel)>, id: SyncId, t: TaskModel)
    requires
        batch_ids(b).no_duplicates(),
    ensures
        batch_ids(batch_with(b, id, t)).no_duplicates(),
        batch_ids(batch_with(b, id, t)).contains(id),
        batch_with(b, id, t).len() >= b.len(),
{
    let ids = batch_ids(b);
    let b2 = batch_with(b, id, t);
    let ids2 = batch_ids(b2);
    if ids.contains(id) {
        let k = ids.index_of(id);
        assert(ids2 =~= ids.update(k, id));
        assert(ids2[k] == id);
    } else {
        assert(ids2 =~= ids.push(id));
        assert forall|a: int, c: int|
            0 <= a < ids2.len() && 0 <= c < ids2.len() && a != c implies ids2[a] != ids2[c] by {
            if a == ids.len() {
                assert(ids2[c] == ids[c]);
            } else if c == ids.len() {
                assert(ids2[a] == ids[a]);
            }
        }
        assert(ids2[ids.len() as int] == id);
    }
}

proof fn lemma_batches_unique(s: Seq<(SyncId, TaskModel)>)
    ensures
        batch_ids(batches_of(s)).no_duplicates(),
    decreases s.len(),
{
    if s.len() == 0 {
        assert(batch_ids(batches_of(s)) =~= Seq::<SyncId>::empty());
    } else {
        lemma_batches_unique(s.drop_last());
        lemma_batch_with_unique(batches_of(s.drop_last()), s.last().0, s.last().1);
    }
}

proof fn lemma_timelines_push(s: Seq<(SyncId, TaskModel)>, e: (SyncId, TaskModel))
    ensures
        timelines_of(s.push(e)) == timelines_of(s).insert(e.0.timeline_id),
{
    let f = |x: (SyncId, TaskModel)| x.0.timeline_id;
    assert(s.push(e).map_values(f) =~= s.map_values(f).push(e.0.timeline_id));
    s.map_values(f).lemma_push_to_set_commute(e.0.timeline_id);
}

/// Adds `task` of `id` to `batches`.
fn add_to_batches(batches: &mut Vec<(SyncId, SyncTaskBatch)>, id: SyncId, task: SyncTask)
    requires
        batch_ids(batches_view(old(batches)@)).no_duplicates(),
    ensures
        batches_view(final(batches)@) == batch_with(batches_view(old(batches)@), id, task@),
{
    let ghost b = batches_view(batches@);
    let ghost t = task@;
    let mut i: usize = 0;
    while i < batches.len()
        invariant
            0 <= i <= batches@.len(),
            b == batches_view(batches@),
            t == task@,
            b == batches_view(old(batches)@),
            batch_ids(b).no_duplicates(),
            forall|j: int| 0 <= j < i ==> batches@[j].0 != id,
        decreases batches@.len() - i,
    {
        if batches[i].0 == id {
            proof {
                assert(batch_ids(b)[i as int] == id);
                assert(batch_ids(b).contains(id));
                let k = batch_ids(b).index_of(id);
                assert(batch_ids(b)[k] == id);
                assert(k == i);
            }
            let ghost old_seq = batches@;
            let removed = batches.remove(i);
            let found_id = removed.0;
            let mut batch = removed.1;
            proof {
                assert(batch@ == b[i as int].1);
            }
            batch.add(task);
            let ghost merged = batch@;
            batches.insert(i, (found_id, batch));
            proof {
                assert(batches@ =~= old_seq.update(i as int, (found_id, batch)));
                assert(b[i as int].1 == old_seq[i as int].1@);
                assert(merged == add_task(b[i as int].1, t));
                assert forall|j: int| 0 <= j < b.len() implies batches_view(batches@)[j]
                    == batch_with(b, id, t)[j] by {
                    if j != i {
                        assert(batches@[j] == old_seq[j]);
                        assert(b[j] == (old_seq[j].0, old_seq[j].1@));
                    }
                }
                assert(batch_with(b, id, t) == b.update(i as int, (id, add_task(b[i as int].1, t))));
                assert(batches_view(batches@) =~= batch_with(b, id, t));
            }
            return;
        }
        i = i + 1;
    }
    proof {
        if batch_ids(b).contains(id) {
            let k = batch_ids(b).index_of(id);
            assert(batches@[k].0 == id);
        }
    }
    batches.push((id, SyncTaskBatch::new(task)));
    proof {
        assert(batches_view(batches@) =~= batch_with(b, id, t));
    }
}

impl SyncQueue {
    /// The tasks waiting, oldest first.
    pub closed spec fn pending(&self) -> Seq<(SyncId, TaskModel)> {
        self.tasks@.map_values(|e: (SyncId, SyncTask)| entry_view(e))
    }

    /// Whether the queue takes no more tasks.
    pub closed spec fn is_closed(&self) -> bool {
        self.closed
    }

    /// An empty queue that takes tasks.
    pub fn new() -> (r: SyncQueue)
        ensures
            r.pending() == Seq::<(SyncId, TaskModel)>::empty(),
            !r.is_closed(),
    {
        let r = SyncQueue { tasks: VecDeque::new(), closed: false };
        proof {
            assert(r.pending() =~= Seq::<(SyncId, TaskModel)>::empty());
        }
        r
    }

    /// Number of tasks waiting.
    pub fn len(&self) -> (r: usize)
        ensures
            r == self.pending().len(),
    {
        self.tasks.len()
    }

    /// Stops the queue from taking tasks; those waiting stay.
    pub fn close(&mut self)
        ensures
            final(self).pending() == old(self).pending(),
            final(self).is_closed(),
    {
        self.closed = true;
    }

    /// Appends a task, unless the queue was closed; returns whether it was
    /// appended.
    pub fn push(&mut self, sync_id: SyncId, new_task: SyncTask) -> (r: bool)
        ensures
            r == !old(self).is_closed(),
            final(self).is_closed() == old(self).is_closed(),
            r ==> final(self).pending() == old(self).pending().push((sync_id, new_task@)),
            !r ==> final(self).pending() == old(self).pending(),
    {
        if self.closed {
            return false;
        }
        let ghost t = new_task@;
        self.tasks.push_back((sync_id, new_task));
        proof {
            assert(self.pending() =~= old(self).pending().push((sync_id, t)));
        }
        true
    }

    /// Takes the oldest task, if any.
    pub fn next_task(&mut self) -> (r: Option<(SyncId, SyncTask)>)
        ensures
            final(self).is_closed() == old(self).is_closed(),
            old(self).pending().len() == 0 ==> r is None && final(self).pending() == old(
                self,
            ).pending(),
            old(self).pending().len() > 0 ==> r is Some && entry_view(r.unwrap()) == old(
                self,
            ).pending()[0] && final(self).pending() == old(self).pending().skip(1),
    {
        let r = self.tasks.pop_front();
        proof {
            if r is Some {
                assert(self.pending() =~= old(self).pending().skip(1));
            }
        }
        r
    }

    /// Takes the oldest tasks and merges them by timeline. Tasks are taken
    /// while fewer than `max_timelines_to_sync` distinct timelines were
    /// taken and any task is waiting. With no task waiting, the batch is
    /// empty where the queue is open, and `Break` tells a closed queue.
    pub fn next_task_batch(&mut self, max_timelines_to_sync: usize) -> (r: ControlFlow<
        (),
        Vec<(SyncId, SyncTaskBatch)>,
    >)
        requires
            max_timelines_to_sync > 0,
        ensures
            final(self).is_closed() == old(self).is_closed(),
            old(self).pending().len() == 0 ==> final(self).pending() == old(self).pending() && (
            if old(self).is_closed() {
                r == ControlFlow::<(), Vec<(SyncId, SyncTaskBatch)>>::Break(())
            } else {
                batch_list(r) == Some(Seq::<(SyncId, BatchModel)>::empty())
            }),
            old(self).pending().len() > 0 ==> {
                let k = old(self).pending().len() - final(self).pending().len();
                let taken = old(self).pending().take(k);
                &&& 1 <= k <= old(self).pending().len()
                &&& final(self).pending() == old(self).pending().skip(k)
                &&& batch_list(r) == Some(batches_of(taken))
                &&& (k == old(self).pending().len() || timelines_of(taken).len()
                    >= max_timelines_to_sync)
                &&& forall|j: int|
                    1 <= j < k ==> #[trigger] timelines_of(old(self).pending().take(j)).len()
                        < max_timelines_to_sync
            },
    {
        let ghost start = self.pending();
        let queued = self.len();
        let (first_sync_id, first_task) = match self.next_task() {
            Some(first) => first,
            None => {
                if self.closed {
                    return ControlFlow::Break(());
                }
                let none: Vec<(SyncId, SyncTaskBatch)> = Vec::new();
                proof {
                    assert(batches_view(none@) =~= Seq::<(SyncId, BatchModel)>::empty());
                }
                return ControlFlow::Continue(none);
            },
        };
        let mut batched_timelines: Vec<TimelineId> = Vec::new();
        batched_timelines.push(first_sync_id.timeline_id);
        let mut tasks: Vec<(SyncId, SyncTaskBatch)> = Vec::new();
        proof {
            assert(start.take(1) =~= Seq::<(SyncId, TaskModel)>::empty().push(start[0]));
            assert(start.take(1).drop_last() =~= Seq::<(SyncId, TaskModel)>::empty());
            assert(batches_view(tasks@) =~= Seq::<(SyncId, BatchModel)>::empty());
            assert(batch_ids(Seq::<(SyncId, BatchModel)>::empty()) =~= Seq::<SyncId>::empty());
            lemma_timelines_push(Seq::<(SyncId, TaskModel)>::empty(), start[0]);
            assert(timelines_of(Seq::<(SyncId, TaskModel)>::empty()) =~= Set::<
                TimelineId,
            >::empty());
            assert(batched_timelines@ =~= seq![first_sync_id.timeline_id]);
            assert(batched_timelines@.to_set() =~= timelines_of(start.take(1))) by {
                assert(seq![first_sync_id.timeline_id].to_set() =~= set![
                    first_sync_id.timeline_id,
                ]) by {
                    assert(seq![first_sync_id.timeline_id][0] == first_sync_id.timeline_id);
                    assert(seq![first_sync_id.timeline_id].contains(first_sync_id.timeline_id));
                }
            }
        }
        add_to_batches(&mut tasks, first_sync_id, first_task);
        proof {
            assert(start.take(1).last() == start[0]);
            assert(batches_of(start.take(1)) == batch_with(
                batches_of(start.take(1).drop_last()),
                start[0].0,
                start[0].1,
            ));
        }
        let mut taken: usize = 1;
        loop
            invariant
                1 <= taken <= start.len(),
                start.len() == queued,
                self.pending() == start.skip(taken as int),
                self.is_closed() == old(self).is_closed(),
                batches_view(tasks@) == batches_of(start.take(taken as int)),
                batched_timelines@.no_duplicates(),
                batched_timelines@.to_set() == timelines_of(start.take(taken as int)),
                forall|j: int|
                    1 <= j < taken ==> #[trigger] timelines_of(start.take(j)).len()
                        < max_timelines_to_sync,
            ensures
                1 <= taken <= start.len(),
                self.pending() == start.skip(taken as int),
                self.is_closed() == old(self).is_closed(),
                batches_view(tasks@) == batches_of(start.take(taken as int)),
                taken == start.len() || timelines_of(start.take(taken as int)).len()
                    >= max_timelines_to_sync,
                forall|j: int|
                    1 <= j < taken ==> #[trigger] timelines_of(start.take(j)).len()
                        < max_timelines_to_sync,
            decreases start.len() - taken,
        {
            proof {
                batched_timelines@.unique_seq_to_set();
            }
            if batched_timelines.len() >= max_timelines_to_sync {
                break;
            }
            match self.next_task() {
                Some((sync_id, new_task)) => {
                    proof {
                        assert(start.skip(taken as int).len() > 0);
                        let e = start[taken as int];
                        assert(start.take(taken + 1) =~= start.take(taken as int).push(e));
                        assert(start.take(taken + 1).drop_last() =~= start.take(taken as int));
                        assert(self.pending() =~= start.skip(taken + 1));
                        lemma_batches_unique(start.take(taken as int));
                        lemma_timelines_push(start.take(taken as int), e);
                    }
                    add_to_batches(&mut tasks, sync_id, new_task);
                    let mut seen = false;
                    let mut i: usize = 0;
                    while i < batched_timelines.len()
                        invariant
                            0 <= i <= batched_timelines@.len(),
                            seen == exists|j: int|
                                0 <= j < i && batched_timelines@[j] == sync_id.timeline_id,
                        decreases batched_timelines@.len() - i,
                    {
                        if batched_timelines[i] == sync_id.timeline_id {
                            seen = true;
                        }
                        i = i + 1;
                    }
                    let ghost before = batched_timelines@;
                    if !seen {
                        batched_timelines.push(sync_id.timeline_id);
                        proof {
                            assert forall|a: int, c: int|
                                0 <= a < batched_timelines@.len() && 0 <= c
                                    < batched_timelines@.len() && a != c implies batched_timelines@[a]
                                != batched_timelines@[c] by {
                                if a == before.len() {
                                    assert(batched_timelines@[c] == before[c]);
                                } else if c == before.len() {
                                    assert(batched_timelines@[a] == before[a]);
                                }
                            }
                            before.lemma_push_to_set_commute(sync_id.timeline_id);
                        }
                    } else {
                        proof {
                            let j = choose|j: int|
                                0 <= j < i && batched_timelines@[j] == sync_id.timeline_id;
                            assert(before.contains(sync_id.timeline_id));
                            assert(before.to_set().insert(sync_id.timeline_id) =~= before.to_set());
                        }
                    }
                    taken = taken + 1;
                },
                None => {
                    break;
                },
            }
        }
        proof {
            assert(start.take(start.len() as int) =~= start);
        }
        ControlFlow::Continue(tasks)
    }
}

} // verus!
