//! The deferred task scheduler: a single time-ordered queue of pending
//! structural operations, drained once per tick.
//!
//! Tasks execute in non-decreasing not-before order; among tasks with equal
//! not-before instants, the enqueue order is preserved.  Each task carries a
//! serial number assigned at enqueue time, strictly increasing over the life
//! of the queue, so the tie-breaking order is exactly the enqueue order.

use crate::registry::OverlaySelector;
use vstd::prelude::*;

verus! {

/// A deferred structural operation.  A create task carries the factory
/// payload that builds the overlay when the task finally runs; a drop task
/// carries only the selector of the doomed overlay.
#[derive(Debug)]
pub enum TaskType<F> {
    CreateOverlay(OverlaySelector, F),
    DropOverlay(OverlaySelector),
}

/// A scheduled task: the operation, the earliest instant (in milliseconds)
/// at which it may run, its enqueue serial number, and the frame epoch at
/// enqueue time.  The epoch lets a drop task recognize entities created no
/// earlier than itself and spare them.
#[derive(Debug)]
pub struct Task<F> {
    pub not_before: u64,
    pub serial: u64,
    pub epoch: u64,
    pub kind: TaskType<F>,
}

/// Strict scheduling order: earlier instant first, enqueue order on ties.
pub open spec fn task_before<F>(a: Task<F>, b: Task<F>) -> bool {
    ||| a.not_before < b.not_before
    ||| (a.not_before == b.not_before && a.serial < b.serial)
}

/// The queue is sorted by instant, stable on ties.
pub open spec fn queue_ordered<F>(s: Seq<Task<F>>) -> bool {
    forall|i: int, j: int| 0 <= i < j < s.len() ==> task_before(s[i], s[j])
}

pub open spec fn serials_below<F>(s: Seq<Task<F>>, bound: u64) -> bool {
    forall|i: int| 0 <= i < s.len() ==> s[i].serial < bound
}

/// Number of leading tasks whose not-before instant is at most `t`; in a
/// sorted queue this is both the insertion point for a new task at `t` and
/// the number of tasks ready to drain at `t`.
pub open spec fn split_point<F>(s: Seq<Task<F>>, t: u64) -> int
    decreases s.len(),
{
    if s.len() == 0 {
        0
    } else if s[0].not_before <= t {
        1 + split_point(s.drop_first(), t)
    } else {
        0
    }
}

/// In a sorted queue, `split_point` separates the tasks at or before `t`
/// from those strictly after it.
pub proof fn lemma_split_point<F>(s: Seq<Task<F>>, t: u64)
    requires
        queue_ordered(s),
    ensures
        0 <= split_point(s, t) <= s.len(),
        forall|j: int| 0 <= j < split_point(s, t) ==> s[j].not_before <= t,
        forall|j: int| split_point(s, t) <= j < s.len() ==> s[j].not_before > t,
    decreases s.len(),
{
    if s.len() != 0 {
        let u = s.drop_first();
        assert(forall|i: int| 0 <= i < u.len() ==> u[i] == s[i + 1]);
        assert forall|i: int, j: int| 0 <= i < j < u.len() implies task_before(u[i], u[j]) by {
            assert(u[i] == s[i + 1] && u[j] == s[j + 1]);
        }
        lemma_split_point(u, t);
        if s[0].not_before > t {
            assert forall|j: int| 0 <= j < s.len() implies s[j].not_before > t by {
                if j > 0 {
                    assert(task_before(s[0], s[j]));
                }
            }
        } else {
            assert forall|j: int|
                0 <= j < split_point(s, t) && j < s.len() implies s[j].not_before <= t by {
                if j > 0 {
                    assert(u[j - 1] == s[j]);
                    assert(u[j - 1].not_before <= t);
                }
            }
            assert forall|j: int|
                split_point(s, t) <= j < s.len() implies s[j].not_before > t by {
                assert(u[j - 1] == s[j]);
                assert(u[j - 1].not_before > t);
            }
        }
    }
}

/// The process-wide queue of deferred tasks.
#[derive(Debug)]
pub struct TaskContainer<F> {
    tasks: Vec<Task<F>>,
    next_serial: u64,
    epoch: u64,
}

impl<F> View for TaskContainer<F> {
    type V = Seq<Task<F>>;

    closed spec fn view(&self) -> Seq<Task<F>> {
        self.tasks@
    }
}

impl<F> TaskContainer<F> {
    /// The scheduling invariant: sorted, stable on ties, serials fresh.
    pub open spec fn wf(&self) -> bool {
        &&& queue_ordered(self@)
        &&& serials_below(self@, self.spec_next_serial())
    }

    /// The serial number the next enqueued task will carry.
    pub closed spec fn spec_next_serial(&self) -> u64 {
        self.next_serial
    }

    /// The current frame epoch, advanced once per tick by the main loop.
    pub closed spec fn spec_epoch(&self) -> u64 {
        self.epoch
    }

    pub fn epoch(&self) -> (e: u64)
        ensures
            e == self.spec_epoch(),
    {
        self.epoch
    }

    /// Enters the next frame: tasks enqueued from now on carry the new
    /// epoch, so they treat everything created up to here as old.
    pub fn advance_epoch(&mut self)
        requires
            old(self).spec_epoch() < u64::MAX,
        ensures
            final(self)@ == old(self)@,
            final(self).spec_next_serial() == old(self).spec_next_serial(),
            final(self).spec_epoch() == old(self).spec_epoch() + 1,
            old(self).wf() ==> final(self).wf(),
    {
        self.epoch = self.epoch + 1;
    }

    /// An empty queue at the first frame.
    pub fn new() -> (r: Self)
        ensures
            r@ =~= Seq::<Task<F>>::empty(),
            r.wf(),
            r.spec_next_serial() == 0,
            r.spec_epoch() == 0,
    {
        TaskContainer { tasks: Vec::new(), next_serial: 0, epoch: 0 }
    }

    pub fn len(&self) -> (n: usize)
        ensures
            n == self@.len(),
    {
        self.tasks.len()
    }

    /// Inserts a task in time order, after every task whose instant is at
    /// most `instant` and before every later one, so that tasks enqueued
    /// for the same instant drain first-in first-out.
    #[verifier::loop_isolation(false)]
    pub fn enqueue_at(&mut self, kind: TaskType<F>, instant: u64)
        requires
            old(self).wf(),
            old(self).spec_next_serial() < u64::MAX,
        ensures
            final(self).wf(),
            final(self)@ == old(self)@.insert(
                split_point(old(self)@, instant),
                Task {
                    not_before: instant,
                    serial: old(self).spec_next_serial(),
                    epoch: old(self).spec_epoch(),
                    kind,
                },
            ),
            final(self).spec_next_serial() == old(self).spec_next_serial() + 1,
            final(self).spec_epoch() == old(self).spec_epoch(),
    {
        proof {
            lemma_split_point(self@, instant);
        }
        let ghost s0 = self@;
        let ghost ip = split_point(s0, instant);
        let n = self.tasks.len();
        let mut i: usize = 0;
        while i < n && self.tasks[i].not_before <= instant
            invariant
                0 <= i <= n,
                n == self@.len(),
                self@ == s0,
                forall|j: int| 0 <= j < i ==> self@[j].not_before <= instant,
            decreases n - i,
        {
            i = i + 1;
        }
        proof {
            if i < n {
                assert(s0[i as int].not_before > instant);
            }
            if (i as int) < ip {
                assert(s0[i as int].not_before <= instant);
            }
            if ip < (i as int) {
                assert(s0[ip].not_before > instant);
                assert(s0[ip].not_before <= instant);
            }
            assert(i as int == ip);
        }
        let task = Task { not_before: instant, serial: self.next_serial, epoch: self.epoch, kind };
        self.tasks.insert(i, task);
        self.next_serial = self.next_serial + 1;
        proof {
            let s1 = self@;
            assert(s1 == s0.insert(
                ip,
                Task {
                    not_before: instant,
                    serial: old(self).next_serial,
                    epoch: old(self).epoch,
                    kind,
                },
            ));
            assert forall|a: int, b: int| 0 <= a < b < s1.len() implies task_before(s1[a], s1[b]) by {
                if a < ip && b < ip {
                } else if a < ip && b == ip {
                    assert(s1[a] == s0[a] && s0[a].not_before <= instant);
                    assert(s0[a].serial < old(self).next_serial);
                } else if a < ip && b > ip {
                    assert(s1[a] == s0[a] && s1[b] == s0[b - 1]);
                } else if a == ip {
                    assert(s1[b] == s0[b - 1] && s0[b - 1].not_before > instant);
                } else {
                    assert(s1[a] == s0[a - 1] && s1[b] == s0[b - 1]);
                }
            }
        }
    }

    /// Enqueues a task to run as soon as possible, at the current instant.
    pub fn enqueue_now(&mut self, kind: TaskType<F>, now: u64)
        requires
            old(self).wf(),
            old(self).spec_next_serial() < u64::MAX,
        ensures
            final(self).wf(),
            final(self)@ == old(self)@.insert(
                split_point(old(self)@, now),
                Task {
                    not_before: now,
                    serial: old(self).spec_next_serial(),
                    epoch: old(self).spec_epoch(),
                    kind,
                },
            ),
            final(self).spec_next_serial() == old(self).spec_next_serial() + 1,
            final(self).spec_epoch() == old(self).spec_epoch(),
    {
        self.enqueue_at(kind, now)
    }

    /// Removes and returns, in order, every task whose not-before instant
    /// has elapsed; the returned tasks are exactly the ready prefix of the
    /// queue, so they come out in instant order, first-in first-out on
    /// ties.
    #[verifier::loop_isolation(false)]
    pub fn drain_ready(&mut self, now: u64) -> (ready: Vec<Task<F>>)
        requires
            old(self).wf(),
        ensures
            final(self).wf(),
            ready@ == old(self)@.take(split_point(old(self)@, now)),
            final(self)@ == old(self)@.skip(split_point(old(self)@, now)),
            final(self).spec_next_serial() == old(self).spec_next_serial(),
            final(self).spec_epoch() == old(self).spec_epoch(),
            queue_ordered(ready@),
            forall|j: int| 0 <= j < ready@.len() ==> ready@[j].not_before <= now,
            forall|j: int| 0 <= j < final(self)@.len() ==> final(self)@[j].not_before > now,
    {
        proof {
            lemma_split_point(self@, now);
        }
        let ghost s0 = self@;
        let ghost sp = split_point(s0, now);
        let mut ready: Vec<Task<F>> = Vec::new();
        while self.tasks.len() > 0 && self.tasks[0].not_before <= now
            invariant
                ready@.len() <= sp <= s0.len(),
                ready@ =~= s0.take(ready@.len() as int),
                self@ =~= s0.skip(ready@.len() as int),
                self.next_serial == old(self).spec_next_serial(),
                self.epoch == old(self).spec_epoch(),
                ready@.len() < sp ==> self@.len() > 0 && self@[0].not_before <= now,
            decreases self@.len(),
        {
            proof {
                if ready@.len() == sp {
                    assert(self@[0] == s0[sp]);
                    assert(s0[sp].not_before > now);
                }
            }
            let t = self.tasks.remove(0);
            ready.push(t);
            proof {
                assert(ready@ =~= s0.take(ready@.len() as int));
                assert(self@ =~= s0.skip(ready@.len() as int));
            }
        }
        proof {
            if ready@.len() < sp {
                assert(self@.len() > 0 && self@[0].not_before <= now);
            }
            assert(ready@.len() == sp);
            assert forall|a: int, b: int| 0 <= a < b < ready@.len() implies task_before(
                ready@[a],
                ready@[b],
            ) by {
                assert(ready@[a] == s0[a] && ready@[b] == s0[b]);
            }
            assert forall|a: int, b: int| 0 <= a < b < self@.len() implies task_before(
                self@[a],
                self@[b],
            ) by {
                assert(self@[a] == s0[a + sp] && self@[b] == s0[b + sp]);
            }
            assert forall|j: int| 0 <= j < self@.len() implies self@[j].serial
                < self.next_serial by {
                assert(self@[j] == s0[j + sp]);
            }
            assert forall|j: int| 0 <= j < self@.len() implies self@[j].not_before > now by {
                assert(self@[j] == s0[j + sp]);
            }
        }
        ready
    }
}

/// Time ordering: however tasks were enqueued, a sorted queue (and hence
/// any drained prefix) presents them in non-decreasing not-before order.
pub proof fn lemma_drain_time_ordered<F>(s: Seq<Task<F>>, i: int, j: int)
    requires
        queue_ordered(s),
        0 <= i < j < s.len(),
    ensures
        s[i].not_before <= s[j].not_before,
{
    assert(task_before(s[i], s[j]));
}

/// FIFO on ties: two tasks with equal not-before instants stand in enqueue
/// order, since serial numbers are assigned in enqueue order.
pub proof fn lemma_drain_fifo_on_ties<F>(s: Seq<Task<F>>, i: int, j: int)
    requires
        queue_ordered(s),
        0 <= i < j < s.len(),
        s[i].not_before == s[j].not_before,
    ensures
        s[i].serial < s[j].serial,
{
    assert(task_before(s[i], s[j]));
}

} // verus!
