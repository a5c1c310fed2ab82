use std::cmp::Ordering;

use vstd::prelude::*;

use crate::capability::CapabilitySet;
use crate::clock::Timestamp;
use crate::table::{lemma_entry_in_map, lemma_key_has_entry, IdTable};
use crate::task::{TaskAttempt, TaskId};

verus! {

/// Scheduling priority. Higher values are dequeued first.
#[derive(Debug, Clone, Copy, PartialEq, Eq, Structural, PartialOrd, Ord, Hash)]
pub struct Priority(pub i32);

impl Priority {
    pub fn low() -> (p: Self)
        ensures
            p.0 == -10,
    {
        Priority(-10)
    }

    pub fn normal() -> (p: Self)
        ensures
            p.0 == 0,
    {
        Priority(0)
    }

    pub fn high() -> (p: Self)
        ensures
            p.0 == 10,
    {
        Priority(10)
    }
}

/// A unit of deferred work: a task request plus scheduling metadata.
#[derive(Debug, PartialEq, Eq)]
pub struct TaskEnvelope {
    pub task_id: TaskId,
    pub name: String,
    pub payload: Vec<u8>,
    pub attempt: TaskAttempt,
    pub priority: Priority,
    pub enqueued_at: Timestamp,
    pub deadline: Option<Timestamp>,
    pub required: CapabilitySet,
    pub cancellable: bool,
}

/// What a [`TaskEnvelope`] holds, as plain values.
pub struct EnvelopeView {
    pub task_id: TaskId,
    pub name: Seq<char>,
    pub payload: Seq<u8>,
    pub attempt: TaskAttempt,
    pub priority: Priority,
    pub enqueued_at: Timestamp,
    pub deadline: Option<Timestamp>,
    pub required: Set<Seq<char>>,
    pub cancellable: bool,
}

impl View for TaskEnvelope {
    type V = EnvelopeView;

    open spec fn view(&self) -> EnvelopeView {
        EnvelopeView {
            task_id: self.task_id,
            name: self.name@,
            payload: self.payload@,
            attempt: self.attempt,
            priority: self.priority,
            enqueued_at: self.enqueued_at,
            deadline: self.deadline,
            required: self.required@,
            cancellable: self.cancellable,
        }
    }
}

/// `a` is dequeued before `b`: higher priority first, then earlier arrival,
/// then the smaller task identifier.
pub open spec fn ranks_above(a: EnvelopeView, b: EnvelopeView) -> bool {
    ||| a.priority.0 > b.priority.0
    ||| (a.priority.0 == b.priority.0 && a.enqueued_at.0 < b.enqueued_at.0)
    ||| (a.priority.0 == b.priority.0 && a.enqueued_at.0 == b.enqueued_at.0 && a.task_id.0 < b.task_id.0)
}

/// How `a` compares with `b` in dequeue order (`Greater` is dequeued first).
pub open spec fn order_of(a: EnvelopeView, b: EnvelopeView) -> Ordering {
    if ranks_above(a, b) {
        Ordering::Greater
    } else if ranks_above(b, a) {
        Ordering::Less
    } else {
        Ordering::Equal
    }
}

impl TaskEnvelope {
    /// A first attempt at normal priority, enqueued at time zero, with no
    /// deadline, no required capabilities, and not cancellable.
    pub fn new(task_id: TaskId, name: String, payload: Vec<u8>) -> (e: Self)
        ensures
            e.task_id == task_id,
            e.name == name,
            e.payload == payload,
            e.attempt.0 == 1,
            e.priority.0 == 0,
            e.enqueued_at.0 == 0,
            e.deadline is None,
            e.required.wf(),
            e.required@ == Set::<Seq<char>>::empty(),
            !e.cancellable,
    {
        TaskEnvelope {
            task_id,
            name,
            payload,
            attempt: TaskAttempt::first(),
            priority: Priority::normal(),
            enqueued_at: Timestamp::zero(),
            deadline: None,
            required: CapabilitySet::new(),
            cancellable: false,
        }
    }

    /// Dequeue order: `Greater` means `self` is dequeued before `other`.
    pub fn cmp(&self, other: &Self) -> (o: Ordering)
        ensures
            o == order_of(self@, other@),
    {
        if self.priority.0 != other.priority.0 {
            if self.priority.0 > other.priority.0 {
                Ordering::Greater
            } else {
                Ordering::Less
            }
        } else if self.enqueued_at.0 != other.enqueued_at.0 {
            if self.enqueued_at.0 < other.enqueued_at.0 {
                Ordering::Greater
            } else {
                Ordering::Less
            }
        } else if self.task_id.0 != other.task_id.0 {
            if self.task_id.0 < other.task_id.0 {
                Ordering::Greater
            } else {
                Ordering::Less
            }
        } else {
            Ordering::Equal
        }
    }

    fn dequeued_before(&self, other: &Self) -> (b: bool)
        ensures
            b == ranks_above(self@, other@),
    {
        self.priority.0 > other.priority.0 || (self.priority.0 == other.priority.0
            && self.enqueued_at.0 < other.enqueued_at.0) || (self.priority.0 == other.priority.0
            && self.enqueued_at.0 == other.enqueued_at.0 && self.task_id.0 < other.task_id.0)
    }

    pub fn partial_cmp(&self, other: &Self) -> (o: Option<Ordering>)
        ensures
            o == Some(order_of(self@, other@)),
    {
        Some(self.cmp(other))
    }

}

impl Clone for TaskEnvelope {
    fn clone(&self) -> (e: Self)
        ensures
            e@ == self@,
            e.required.wf() == self.required.wf(),
    {
        let payload = self.payload.clone();
        assert(payload@ =~= self.payload@);
        TaskEnvelope {
            task_id: self.task_id,
            name: self.name.clone(),
            payload,
            attempt: self.attempt,
            priority: self.priority,
            enqueued_at: self.enqueued_at,
            deadline: self.deadline,
            required: self.required.clone(),
            cancellable: self.cancellable,
        }
    }
}

#[derive(Debug, Clone, Copy, PartialEq, Eq, Structural)]
pub enum QueueError {
    Empty,
    Full,
    Duplicate(TaskId),
    NotFound(TaskId),
}

/// `e` is the envelope of `m` that is dequeued first: nothing in `m` ranks above it.
pub open spec fn is_next(m: Map<u128, EnvelopeView>, e: EnvelopeView) -> bool {
    &&& m.contains_key(e.task_id.0)
    &&& m[e.task_id.0] == e
    &&& forall|k: u128| #[trigger] m.contains_key(k) ==> !ranks_above(m[k], e)
}

/// Whether `push` accepts `e`, and if not, why.
pub open spec fn push_outcome(
    ready: Map<u128, EnvelopeView>,
    inflight: Map<u128, EnvelopeView>,
    capacity: Option<usize>,
    e: EnvelopeView,
) -> Result<(), QueueError> {
    if capacity is Some && ready.len() >= capacity->0 {
        Err(QueueError::Full)
    } else if inflight.contains_key(e.task_id.0) || ready.contains_key(e.task_id.0) {
        Err(QueueError::Duplicate(e.task_id))
    } else {
        Ok(())
    }
}

/// Abstract work queue used to hold pending [`TaskEnvelope`]s.
pub trait TaskQueue {
    spec fn wf(&self) -> bool;

    /// The number of envelopes waiting to be popped.
    spec fn count(&self) -> nat;

    fn push(&mut self, envelope: TaskEnvelope) -> (r: Result<(), QueueError>)
        requires
            old(self).wf(),
        ensures
            final(self).wf(),
    ;

    /// Removes and returns the highest-priority envelope, marking it in-flight.
    fn pop(&mut self) -> (r: Option<TaskEnvelope>)
        requires
            old(self).wf(),
        ensures
            final(self).wf(),
    ;

    fn peek(&self) -> Option<TaskEnvelope>
        requires
            self.wf(),
    ;

    /// Marks an in-flight envelope as completed.
    fn ack(&mut self, task_id: TaskId) -> (r: Result<(), QueueError>)
        requires
            old(self).wf(),
        ensures
            final(self).wf(),
    ;

    /// Returns an in-flight envelope to the queue, or drops it if `requeue` is false.
    fn nack(&mut self, task_id: TaskId, requeue: bool) -> (r: Result<(), QueueError>)
        requires
            old(self).wf(),
        ensures
            final(self).wf(),
    ;

    /// Removes a pending (not yet popped) envelope.
    fn cancel(&mut self, task_id: TaskId) -> (r: Result<(), QueueError>)
        requires
            old(self).wf(),
        ensures
            final(self).wf(),
    ;

    fn len(&self) -> (n: usize)
        requires
            self.wf(),
        ensures
            n == self.count(),
    ;

    fn is_empty(&self) -> (b: bool)
        requires
            self.wf(),
        ensures
            b == (self.count() == 0),
    {
        self.len() == 0
    }
}

/// The views of a table of envelopes, by task identifier.
pub open spec fn envelope_views(m: Map<u128, TaskEnvelope>) -> Map<u128, EnvelopeView> {
    m.map_values(|e: TaskEnvelope| e@)
}

/// The abstract state of a task queue: the envelopes waiting to be popped and
/// those popped but not yet acknowledged, both by task identifier, and the
/// capacity bound, if any.
pub struct QueueModel {
    pub pending: Map<u128, EnvelopeView>,
    pub in_flight: Map<u128, EnvelopeView>,
    pub limit: Option<usize>,
}

impl QueueModel {
    /// Both maps are finite, each envelope is filed under its own task
    /// identifier, and no identifier is both pending and in flight.
    pub open spec fn wf(self) -> bool {
        &&& self.pending.dom().finite()
        &&& self.in_flight.dom().finite()
        &&& forall|k: u128| #[trigger] self.pending.contains_key(k) ==> self.pending[k].task_id.0 == k
        &&& forall|k: u128| #[trigger] self.in_flight.contains_key(k) ==> self.in_flight[k].task_id.0 == k
        &&& forall|k: u128| #[trigger] self.pending.contains_key(k) ==> !self.in_flight.contains_key(k)
    }

    /// The envelope dequeued next, if any is pending.
    pub open spec fn next(self) -> Option<EnvelopeView> {
        if exists|e: EnvelopeView| is_next(self.pending, e) {
            Some(choose|e: EnvelopeView| is_next(self.pending, e))
        } else {
            None
        }
    }

    /// The state after `push(e)`, and its result.
    pub open spec fn push(self, e: EnvelopeView) -> (QueueModel, Result<(), QueueError>) {
        let r = push_outcome(self.pending, self.in_flight, self.limit, e);
        if r is Ok {
            (QueueModel { pending: self.pending.insert(e.task_id.0, e), ..self }, r)
        } else {
            (self, r)
        }
    }

    /// The state after `pop()`, and the envelope it returns.
    pub open spec fn pop(self) -> (QueueModel, Option<EnvelopeView>) {
        match self.next() {
            Some(e) => (
                QueueModel {
                    pending: self.pending.remove(e.task_id.0),
                    in_flight: self.in_flight.insert(e.task_id.0, e),
                    ..self
                },
                Some(e),
            ),
            None => (self, None),
        }
    }

    /// The state after `ack(id)`, and its result.
    pub open spec fn ack(self, id: TaskId) -> (QueueModel, Result<(), QueueError>) {
        if self.in_flight.contains_key(id.0) {
            (QueueModel { in_flight: self.in_flight.remove(id.0), ..self }, Ok(()))
        } else {
            (self, Err(QueueError::NotFound(id)))
        }
    }

    /// The state after `nack(id, requeue)`, and its result.
    pub open spec fn nack(self, id: TaskId, requeue: bool) -> (QueueModel, Result<(), QueueError>) {
        if self.in_flight.contains_key(id.0) {
            (
                QueueModel {
                    pending: if requeue {
                        self.pending.insert(id.0, self.in_flight[id.0])
                    } else {
                        self.pending
                    },
                    in_flight: self.in_flight.remove(id.0),
                    ..self
                },
                Ok(()),
            )
        } else {
            (self, Err(QueueError::NotFound(id)))
        }
    }

    /// The state after `cancel(id)`, and its result.
    pub open spec fn cancel(self, id: TaskId) -> (QueueModel, Result<(), QueueError>) {
        if self.pending.contains_key(id.0) {
            (QueueModel { pending: self.pending.remove(id.0), ..self }, Ok(()))
        } else {
            (self, Err(QueueError::NotFound(id)))
        }
    }
}

/// In a well-formed state the next envelope is the unique one that nothing
/// pending outranks, and there is one exactly when something is pending.
pub proof fn lemma_next(m: QueueModel, e: EnvelopeView)
    requires
        m.wf(),
    ensures
        m.next() is None <==> m.pending.len() == 0,
        m.next() is Some ==> is_next(m.pending, m.next()->0),
        is_next(m.pending, e) ==> m.next() == Some(e),
{
    if is_next(m.pending, e) {
        let c = choose|x: EnvelopeView| is_next(m.pending, x);
        assert(m.pending.contains_key(c.task_id.0) && m.pending.contains_key(e.task_id.0));
        assert(!ranks_above(m.pending[c.task_id.0], e));
        assert(!ranks_above(m.pending[e.task_id.0], c));
    }
    if m.pending.len() == 0 {
        if exists|x: EnvelopeView| is_next(m.pending, x) {
            let x = choose|x: EnvelopeView| is_next(m.pending, x);
            assert(m.pending.dom().contains(x.task_id.0));
            vstd::set::axiom_set_contains_len(m.pending.dom(), x.task_id.0);
        }
    } else {
        lemma_max_exists(m);
    }
}

/// A finite, non-empty, well-formed set of pending envelopes has one that
/// nothing outranks.
proof fn lemma_max_exists(m: QueueModel)
    requires
        m.wf(),
        m.pending.len() > 0,
    ensures
        exists|e: EnvelopeView| is_next(m.pending, e),
    decreases m.pending.len(),
{
    let k = m.pending.dom().choose();
    vstd::set_lib::lemma_set_empty_equivalency_len(m.pending.dom());
    assert(m.pending.contains_key(k));
    let rest = QueueModel { pending: m.pending.remove(k), ..m };
    assert(rest.pending.dom() =~= m.pending.dom().remove(k));
    if rest.pending.len() == 0 {
        let e = m.pending[k];
        assert forall|j: u128| #[trigger] m.pending.contains_key(j) implies !ranks_above(m.pending[j], e) by {
            if j != k {
                assert(rest.pending.dom().contains(j));
                vstd::set::axiom_set_contains_len(rest.pending.dom(), j);
            }
        }
        assert(is_next(m.pending, e));
    } else {
        lemma_max_exists(rest);
        let b = choose|x: EnvelopeView| is_next(rest.pending, x);
        let c = m.pending[k];
        if ranks_above(c, b) {
            assert forall|j: u128| #[trigger] m.pending.contains_key(j) implies !ranks_above(m.pending[j], c) by {
                if j != k {
                    assert(rest.pending.contains_key(j));
                    assert(!ranks_above(rest.pending[j], b));
                }
            }
            assert(is_next(m.pending, c));
        } else {
            assert forall|j: u128| #[trigger] m.pending.contains_key(j) implies !ranks_above(m.pending[j], b) by {
                if j != k {
                    assert(rest.pending.contains_key(j));
                }
            }
            assert(is_next(m.pending, b));
        }
    }
}

/// In-process priority queue with an in-flight set for ack/nack semantics.
pub struct InMemoryTaskQueue {
    capacity: Option<usize>,
    ready: IdTable<TaskEnvelope>,
    inflight: IdTable<TaskEnvelope>,
}

impl InMemoryTaskQueue {
    /// The envelopes waiting to be popped, by task identifier.
    pub closed spec fn pending(&self) -> Map<u128, EnvelopeView> {
        envelope_views(self.ready@)
    }

    /// The envelopes popped and not yet acknowledged, by task identifier.
    pub closed spec fn in_flight(&self) -> Map<u128, EnvelopeView> {
        envelope_views(self.inflight@)
    }

    /// The most envelopes `push` lets wait at once, if bounded.
    pub closed spec fn limit(&self) -> Option<usize> {
        self.capacity
    }

    /// The queue's abstract state.
    pub open spec fn model(&self) -> QueueModel {
        QueueModel { pending: self.pending(), in_flight: self.in_flight(), limit: self.limit() }
    }

    pub fn new() -> (q: Self)
        ensures
            q.wf(),
            q.limit() is None,
            q.pending() == Map::<u128, EnvelopeView>::empty(),
            q.in_flight() == Map::<u128, EnvelopeView>::empty(),
    {
        InMemoryTaskQueue::unbounded()
    }

    pub fn unbounded() -> (q: Self)
        ensures
            q.wf(),
            q.limit() is None,
            q.pending() == Map::<u128, EnvelopeView>::empty(),
            q.in_flight() == Map::<u128, EnvelopeView>::empty(),
    {
        let q = InMemoryTaskQueue { capacity: None, ready: IdTable::new(), inflight: IdTable::new() };
        assert(q.pending() =~= Map::<u128, EnvelopeView>::empty());
        assert(q.in_flight() =~= Map::<u128, EnvelopeView>::empty());
        q
    }

    pub fn bounded(capacity: usize) -> (q: Self)
        ensures
            q.wf(),
            q.limit() == Some(capacity),
            q.pending() == Map::<u128, EnvelopeView>::empty(),
            q.in_flight() == Map::<u128, EnvelopeView>::empty(),
    {
        let q = InMemoryTaskQueue { capacity: Some(capacity), ready: IdTable::new(), inflight: IdTable::new() };
        assert(q.pending() =~= Map::<u128, EnvelopeView>::empty());
        assert(q.in_flight() =~= Map::<u128, EnvelopeView>::empty());
        q
    }

    /// The number of envelopes in flight.
    pub fn inflight(&self) -> (n: usize)
        requires
            self.wf(),
        ensures
            n == self.in_flight().len(),
    {
        assert(self.in_flight().dom() =~= self.inflight@.dom());
        self.inflight.len()
    }

    /// The position in the ready table of the envelope dequeued first.
    fn next_position(&self) -> (r: Option<usize>)
        requires
            self.wf(),
        ensures
            r is None <==> self.ready@.len() == 0,
            r matches Some(b) ==> b < self.ready.seq().len() && is_next(
                self.pending(),
                self.ready.seq()[b as int].1@,
            ),
    {
        let n = self.ready.len();
        if n == 0 {
            return None;
        }
        let mut best: usize = 0;
        let mut i: usize = 1;
        while i < n
            invariant
                self.wf(),
                n == self.ready.seq().len(),
                best < i <= n,
                forall|j: int| 0 <= j < i ==> !ranks_above(
                    #[trigger] self.ready.seq()[j].1@,
                    self.ready.seq()[best as int].1@,
                ),
            decreases n - i,
        {
            let candidate = self.ready.entry(i);
            let current = self.ready.entry(best);
            if candidate.1.dequeued_before(&current.1) {
                best = i;
            }
            i = i + 1;
        }
        proof {
            self.ready.lemma_table();
            let s = self.ready.seq();
            let b = s[best as int];
            lemma_entry_in_map(s, best as int);
            assert forall|k: u128| #[trigger] self.pending().contains_key(k) implies !ranks_above(
                self.pending()[k],
                b.1@,
            ) by {
                let j = lemma_key_has_entry(s, k);
                lemma_entry_in_map(s, j);
            }
        }
        Some(best)
    }
}

impl Default for InMemoryTaskQueue {
    fn default() -> (q: Self)
        ensures
            q.wf(),
            q.limit() is None,
            q.pending() == Map::<u128, EnvelopeView>::empty(),
            q.in_flight() == Map::<u128, EnvelopeView>::empty(),
    {
        InMemoryTaskQueue::new()
    }
}

impl TaskQueue for InMemoryTaskQueue {
    /// Both tables are well formed, every envelope is filed under its own
    /// task identifier, and no identifier is both pending and in flight.
    closed spec fn wf(&self) -> bool {
        &&& self.ready.wf()
        &&& self.inflight.wf()
        &&& forall|k: u128| #[trigger] self.ready@.contains_key(k) ==> self.ready@[k].task_id.0 == k
        &&& forall|k: u128| #[trigger] self.inflight@.contains_key(k) ==> self.inflight@[k].task_id.0 == k
        &&& forall|k: u128| #[trigger] self.ready@.contains_key(k) ==> !self.inflight@.contains_key(k)
    }

    open spec fn count(&self) -> nat {
        self.pending().len()
    }

    fn push(&mut self, envelope: TaskEnvelope) -> (r: Result<(), QueueError>)
        ensures
            r == push_outcome(old(self).pending(), old(self).in_flight(), old(self).limit(), envelope@),
            final(self).limit() == old(self).limit(),
            final(self).in_flight() == old(self).in_flight(),
            final(self).pending() == (if r is Ok {
                old(self).pending().insert(envelope.task_id.0, envelope@)
            } else {
                old(self).pending()
            }),
            (final(self).model(), r) == old(self).model().push(envelope@),
    {
        proof {
            assert(self.pending().dom() =~= self.ready@.dom());
            assert(self.in_flight().dom() =~= self.inflight@.dom());
        }
        match self.capacity {
            Some(capacity) => {
                if self.ready.len() >= capacity {
                    return Err(QueueError::Full);
                }
            },
            None => {},
        }
        let id = envelope.task_id;
        if self.inflight.contains_key(id.0) || self.ready.contains_key(id.0) {
            return Err(QueueError::Duplicate(id));
        }
        let ghost view = envelope@;
        self.ready.insert(id.0, envelope);
        assert(self.pending() =~= old(self).pending().insert(id.0, view));
        Ok(())
    }

    fn pop(&mut self) -> (r: Option<TaskEnvelope>)
        ensures
            final(self).limit() == old(self).limit(),
            r is None <==> old(self).pending().len() == 0,
            r is None ==> final(self).pending() == old(self).pending() && final(self).in_flight() == old(
                self,
            ).in_flight(),
            r matches Some(e) ==> {
                &&& is_next(old(self).pending(), e@)
                &&& final(self).pending() == old(self).pending().remove(e.task_id.0)
                &&& final(self).in_flight() == old(self).in_flight().insert(e.task_id.0, e@)
            },
            final(self).model() == old(self).model().pop().0,
            old(self).model().pop().1 == (match r {
                Some(e) => Some(e@),
                None => None::<EnvelopeView>,
            }),
    {
        proof {
            assert(self.pending().dom() =~= self.ready@.dom());
            law_queue_model_wf(self);
        }
        match self.next_position() {
            None => None,
            Some(b) => {
                let id = self.ready.entry(b).0;
                proof {
                    self.ready.lemma_table();
                    lemma_entry_in_map(self.ready.seq(), b as int);
                }
                let taken = self.ready.remove(id);
                match taken {
                    Some(envelope) => {
                        let ghost view = envelope@;
                        self.inflight.insert(id, envelope.clone());
                        assert(self.pending() =~= old(self).pending().remove(id));
                        assert(self.in_flight() =~= old(self).in_flight().insert(id, view));
                        Some(envelope)
                    },
                    None => None,
                }
            },
        }
    }

    fn peek(&self) -> (r: Option<TaskEnvelope>)
        ensures
            r is None <==> self.pending().len() == 0,
            r matches Some(e) ==> is_next(self.pending(), e@),
    {
        proof {
            assert(self.pending().dom() =~= self.ready@.dom());
        }
        match self.next_position() {
            None => None,
            Some(b) => Some(self.ready.entry(b).1.clone()),
        }
    }

    fn ack(&mut self, task_id: TaskId) -> (r: Result<(), QueueError>)
        ensures
            r == (if old(self).in_flight().contains_key(task_id.0) {
                Ok::<(), QueueError>(())
            } else {
                Err(QueueError::NotFound(task_id))
            }),
            final(self).limit() == old(self).limit(),
            final(self).pending() == old(self).pending(),
            final(self).in_flight() == old(self).in_flight().remove(task_id.0),
            (final(self).model(), r) == old(self).model().ack(task_id),
    {
        let removed = self.inflight.remove(task_id.0);
        assert(self.in_flight() =~= old(self).in_flight().remove(task_id.0));
        proof {
            if !old(self).in_flight().contains_key(task_id.0) {
                assert(old(self).in_flight().remove(task_id.0) =~= old(self).in_flight());
            }
        }
        match removed {
            Some(_) => Ok(()),
            None => Err(QueueError::NotFound(task_id)),
        }
    }

    fn nack(&mut self, task_id: TaskId, requeue: bool) -> (r: Result<(), QueueError>)
        ensures
            r == (if old(self).in_flight().contains_key(task_id.0) {
                Ok::<(), QueueError>(())
            } else {
                Err(QueueError::NotFound(task_id))
            }),
            final(self).limit() == old(self).limit(),
            final(self).in_flight() == old(self).in_flight().remove(task_id.0),
            final(self).pending() == (if r is Ok && requeue {
                old(self).pending().insert(task_id.0, old(self).in_flight()[task_id.0])
            } else {
                old(self).pending()
            }),
            (final(self).model(), r) == old(self).model().nack(task_id, requeue),
    {
        proof {
            if !old(self).in_flight().contains_key(task_id.0) {
                assert(old(self).in_flight().remove(task_id.0) =~= old(self).in_flight());
            }
        }
        let removed = self.inflight.remove(task_id.0);
        assert(self.in_flight() =~= old(self).in_flight().remove(task_id.0));
        match removed {
            Some(envelope) => {
                if requeue {
                    let ghost view = envelope@;
                    self.ready.insert(task_id.0, envelope);
                    assert(self.pending() =~= old(self).pending().insert(task_id.0, view));
                }
                Ok(())
            },
            None => Err(QueueError::NotFound(task_id)),
        }
    }

    fn cancel(&mut self, task_id: TaskId) -> (r: Result<(), QueueError>)
        ensures
            r == (if old(self).pending().contains_key(task_id.0) {
                Ok::<(), QueueError>(())
            } else {
                Err(QueueError::NotFound(task_id))
            }),
            final(self).limit() == old(self).limit(),
            final(self).in_flight() == old(self).in_flight(),
            final(self).pending() == old(self).pending().remove(task_id.0),
            (final(self).model(), r) == old(self).model().cancel(task_id),
    {
        proof {
            if !old(self).pending().contains_key(task_id.0) {
                assert(old(self).pending().remove(task_id.0) =~= old(self).pending());
            }
        }
        let removed = self.ready.remove(task_id.0);
        assert(self.pending() =~= old(self).pending().remove(task_id.0));
        match removed {
            Some(_) => Ok(()),
            None => Err(QueueError::NotFound(task_id)),
        }
    }

    fn len(&self) -> (n: usize)
        ensures
            n == self.pending().len(),
    {
        assert(self.pending().dom() =~= self.ready@.dom());
        self.ready.len()
    }
}

/// Holds envelopes that exhausted their retries or were rejected, in arrival order.
pub struct DeadLetterQueue {
    items: Vec<TaskEnvelope>,
}

/// The views of a sequence of envelopes.
pub open spec fn envelope_seq(v: Seq<TaskEnvelope>) -> Seq<EnvelopeView> {
    v.map_values(|e: TaskEnvelope| e@)
}

impl DeadLetterQueue {
    /// The held envelopes, oldest first.
    pub closed spec fn held(&self) -> Seq<EnvelopeView> {
        envelope_seq(self.items@)
    }

    pub fn new() -> (q: Self)
        ensures
            q.held() == Seq::<EnvelopeView>::empty(),
    {
        let q = DeadLetterQueue { items: Vec::new() };
        assert(q.held() =~= Seq::<EnvelopeView>::empty());
        q
    }

    pub fn push(&mut self, envelope: TaskEnvelope)
        ensures
            final(self).held() == old(self).held().push(envelope@),
    {
        let ghost view = envelope@;
        self.items.push(envelope);
        assert(self.held() =~= old(self).held().push(view));
    }

    /// Takes every held envelope, oldest first, leaving the queue empty.
    pub fn drain(&mut self) -> (r: Vec<TaskEnvelope>)
        ensures
            envelope_seq(r@) == old(self).held(),
            final(self).held() == Seq::<EnvelopeView>::empty(),
    {
        let mut taken: Vec<TaskEnvelope> = Vec::new();
        std::mem::swap(&mut taken, &mut self.items);
        assert(self.held() =~= Seq::<EnvelopeView>::empty());
        taken
    }

    pub fn len(&self) -> (n: usize)
        ensures
            n == self.held().len(),
    {
        self.items.len()
    }

    pub fn is_empty(&self) -> (b: bool)
        ensures
            b == (self.held().len() == 0),
    {
        self.items.len() == 0
    }
}

impl Default for DeadLetterQueue {
    fn default() -> (q: Self)
        ensures
            q.held() == Seq::<EnvelopeView>::empty(),
    {
        DeadLetterQueue::new()
    }
}

/// At most one envelope of a queue is the next to be dequeued: `pop` and
/// `peek` have a single answer.
pub proof fn law_next_is_unique(q: &InMemoryTaskQueue, a: EnvelopeView, b: EnvelopeView)
    requires
        q.wf(),
        is_next(q.pending(), a),
        is_next(q.pending(), b),
    ensures
        a == b,
{
    let m = q.pending();
    assert(q.ready@.contains_key(a.task_id.0));
    assert(q.ready@.contains_key(b.task_id.0));
    assert(m.contains_key(a.task_id.0) && m.contains_key(b.task_id.0));
    assert(!ranks_above(m[a.task_id.0], b));
    assert(!ranks_above(m[b.task_id.0], a));
}

/// The next envelope has the highest priority among the pending ones, and
/// among those of equal priority it arrived first.
pub proof fn law_priority_then_arrival(q: &InMemoryTaskQueue, next: EnvelopeView, k: u128)
    requires
        q.wf(),
        is_next(q.pending(), next),
        q.pending().contains_key(k),
    ensures
        q.pending()[k].priority.0 <= next.priority.0,
        q.pending()[k].priority.0 == next.priority.0 ==> next.enqueued_at.0 <= q.pending()[k].enqueued_at.0,
{
}

/// A pending envelope is never also in flight.
pub proof fn law_pending_and_in_flight_disjoint(q: &InMemoryTaskQueue, k: u128)
    requires
        q.wf(),
    ensures
        !(q.pending().contains_key(k) && q.in_flight().contains_key(k)),
{
}

/// A well-formed queue's abstract state is well formed: both maps are
/// finite, envelopes are filed under their own identifiers, and nothing is
/// both pending and in flight.
pub proof fn law_queue_model_wf(q: &InMemoryTaskQueue)
    requires
        q.wf(),
    ensures
        q.model().wf(),
{
    q.ready.lemma_table();
    q.inflight.lemma_table();
    crate::table::lemma_map_len(q.ready.seq());
    crate::table::lemma_map_len(q.inflight.seq());
    assert(q.pending().dom() =~= q.ready@.dom());
    assert(q.in_flight().dom() =~= q.inflight@.dom());
}

/// Every operation keeps the state well formed and keeps the capacity bound.
pub proof fn law_operations_keep_wf(m: QueueModel, e: EnvelopeView, id: TaskId, requeue: bool)
    requires
        m.wf(),
    ensures
        m.push(e).0.wf() && m.push(e).0.limit == m.limit,
        m.pop().0.wf() && m.pop().0.limit == m.limit,
        m.ack(id).0.wf() && m.ack(id).0.limit == m.limit,
        m.nack(id, requeue).0.wf() && m.nack(id, requeue).0.limit == m.limit,
        m.cancel(id).0.wf() && m.cancel(id).0.limit == m.limit,
{
    lemma_next(m, e);
    if m.push(e).1 is Ok {
        assert(m.push(e).0.pending.dom() =~= m.pending.dom().insert(e.task_id.0));
    }
    if let Some(n) = m.next() {
        assert(m.pop().0.pending.dom() =~= m.pending.dom().remove(n.task_id.0));
        assert(m.pop().0.in_flight.dom() =~= m.in_flight.dom().insert(n.task_id.0));
    }
    if m.in_flight.contains_key(id.0) {
        assert(m.ack(id).0.in_flight.dom() =~= m.in_flight.dom().remove(id.0));
        if requeue {
            assert(m.nack(id, requeue).0.pending.dom() =~= m.pending.dom().insert(id.0));
        }
    }
    if m.pending.contains_key(id.0) {
        assert(m.cancel(id).0.pending.dom() =~= m.pending.dom().remove(id.0));
    }
}

/// Cancelling an envelope right after a successful push of it succeeds and
/// gives back the state from before the push.
pub proof fn law_push_then_cancel(m: QueueModel, e: EnvelopeView)
    requires
        m.wf(),
        m.push(e).1 is Ok,
    ensures
        m.push(e).0.cancel(e.task_id) == (m, Ok::<(), QueueError>(())),
{
    assert(m.push(e).0.pending.remove(e.task_id.0) =~= m.pending);
}

/// After a pop, a requeueing `nack` of the popped envelope succeeds and gives
/// back the state from before the pop; an `ack` of it succeeds and leaves the
/// in-flight envelopes as they were before the pop, with the envelope gone.
pub proof fn law_pop_then_nack_or_ack(m: QueueModel)
    requires
        m.wf(),
        m.pop().1 is Some,
    ensures
        m.pop().0.nack(m.pop().1->0.task_id, true) == (m, Ok::<(), QueueError>(())),
        m.pop().0.ack(m.pop().1->0.task_id) == (
            QueueModel { pending: m.pending.remove(m.pop().1->0.task_id.0), ..m },
            Ok::<(), QueueError>(()),
        ),
{
    let e = m.pop().1->0;
    lemma_next(m, e);
    assert(m.pending.contains_key(e.task_id.0) && m.pending[e.task_id.0] == e);
    assert(m.pop().0.in_flight.insert(e.task_id.0, e).remove(e.task_id.0) =~= m.in_flight);
    assert(m.pending.remove(e.task_id.0).insert(e.task_id.0, e) =~= m.pending);
    assert(m.in_flight.insert(e.task_id.0, e).remove(e.task_id.0) =~= m.in_flight);
}

/// How each successful operation changes the numbers of pending (`len`) and
/// in-flight (`inflight`) envelopes; a failed operation changes nothing.  So
/// pending plus in flight grows by one per accepted push and shrinks by one
/// per successful ack, dropping nack and cancel.
pub proof fn law_counts(m: QueueModel, e: EnvelopeView, id: TaskId, requeue: bool)
    requires
        m.wf(),
    ensures
        m.push(e).1 is Ok ==> m.push(e).0.pending.len() == m.pending.len() + 1 && m.push(e).0.in_flight
            == m.in_flight,
        m.push(e).1 is Err ==> m.push(e).0 == m,
        m.pop().1 is Some ==> m.pop().0.pending.len() + 1 == m.pending.len() && m.pop().0.in_flight.len()
            == m.in_flight.len() + 1,
        m.pop().1 is None ==> m.pop().0 == m,
        m.ack(id).1 is Ok ==> m.ack(id).0.pending == m.pending && m.ack(id).0.in_flight.len() + 1
            == m.in_flight.len(),
        m.nack(id, requeue).1 is Ok ==> m.nack(id, requeue).0.in_flight.len() + 1 == m.in_flight.len()
            && m.nack(id, requeue).0.pending.len() == m.pending.len() + (if requeue { 1int } else { 0int }),
        m.cancel(id).1 is Ok ==> m.cancel(id).0.pending.len() + 1 == m.pending.len() && m.cancel(id).0.in_flight
            == m.in_flight,
        m.ack(id).1 is Err ==> m.ack(id).0 == m,
        m.nack(id, requeue).1 is Err ==> m.nack(id, requeue).0 == m,
        m.cancel(id).1 is Err ==> m.cancel(id).0 == m,
{
    lemma_next(m, e);
    if let Some(n) = m.next() {
        assert(m.pending.contains_key(n.task_id.0));
        assert(!m.in_flight.contains_key(n.task_id.0));
    }
    if m.in_flight.contains_key(id.0) {
        assert(!m.pending.contains_key(id.0));
    }
}

/// Without a capacity bound `push` never reports `Full`; with a bound `c` it
/// reports `Full` exactly when `c` or more envelopes are pending, so a
/// successful push never takes the pending count above `c` from at most `c`.
/// Every operation keeps the bound (see `law_operations_keep_wf`), so this
/// holds over all later calls.
pub proof fn law_capacity(m: QueueModel, e: EnvelopeView)
    requires
        m.wf(),
    ensures
        m.limit is None ==> m.push(e).1 != Err::<(), QueueError>(QueueError::Full),
        m.limit is Some ==> (m.push(e).1 == Err::<(), QueueError>(QueueError::Full) <==> m.pending.len()
            >= m.limit->0),
        m.limit is Some && m.pending.len() <= m.limit->0 ==> m.push(e).0.pending.len() <= m.limit->0,
{
    if m.push(e).1 is Ok {
        assert(m.push(e).0.pending.dom() =~= m.pending.dom().insert(e.task_id.0));
    }
}


/// One call on a task queue, by its arguments.
pub enum QueueCall {
    Push(EnvelopeView),
    Pop,
    Ack(TaskId),
    Nack(TaskId, bool),
    Cancel(TaskId),
}

impl QueueModel {
    /// The state after `call`.
    pub open spec fn after(self, call: QueueCall) -> QueueModel {
        match call {
            QueueCall::Push(e) => self.push(e).0,
            QueueCall::Pop => self.pop().0,
            QueueCall::Ack(id) => self.ack(id).0,
            QueueCall::Nack(id, requeue) => self.nack(id, requeue).0,
            QueueCall::Cancel(id) => self.cancel(id).0,
        }
    }

    /// What `call` adds to the number of envelopes held, pending or in
    /// flight: one for an accepted push, minus one for a successful ack, a
    /// successful dropping nack or a successful cancel, nothing otherwise.
    pub open spec fn held_change(self, call: QueueCall) -> int {
        match call {
            QueueCall::Push(e) => if self.push(e).1 is Ok { 1 } else { 0 },
            QueueCall::Pop => 0,
            QueueCall::Ack(id) => if self.ack(id).1 is Ok { -1 } else { 0 },
            QueueCall::Nack(id, requeue) => if self.nack(id, requeue).1 is Ok && !requeue { -1 } else { 0 },
            QueueCall::Cancel(id) => if self.cancel(id).1 is Ok { -1 } else { 0 },
        }
    }

    /// The state after the calls, in order.
    pub open spec fn run(self, calls: Seq<QueueCall>) -> QueueModel
        decreases calls.len(),
    {
        if calls.len() == 0 {
            self
        } else {
            self.run(calls.drop_last()).after(calls.last())
        }
    }

    /// The sum of `held_change` over the calls, each taken in the state it
    /// is made in.
    pub open spec fn held_change_run(self, calls: Seq<QueueCall>) -> int
        decreases calls.len(),
    {
        if calls.len() == 0 {
            0
        } else {
            self.held_change_run(calls.drop_last()) + self.run(calls.drop_last()).held_change(calls.last())
        }
    }

    /// No call in the sequence is a requeueing nack, the one call that puts an
    /// envelope back without looking at the bound.
    pub open spec fn no_requeue(calls: Seq<QueueCall>) -> bool {
        forall|i: int| 0 <= i < calls.len() ==> !(#[trigger] calls[i] matches QueueCall::Nack(_, true))
    }

    /// The queue with nothing pending or in flight.
    pub open spec fn empty(limit: Option<usize>) -> QueueModel {
        QueueModel { pending: Map::empty(), in_flight: Map::empty(), limit }
    }
}

/// Over any sequence of calls the state stays well formed and keeps its
/// bound, and the number of envelopes held, pending plus in flight, changes
/// by exactly the accepted pushes less the successful acks, dropping nacks
/// and cancels.  With a bound, the pending count never rises above it while
/// no requeueing nack is made.
pub proof fn law_run(m: QueueModel, calls: Seq<QueueCall>)
    requires
        m.wf(),
    ensures
        m.run(calls).wf(),
        m.run(calls).limit == m.limit,
        m.run(calls).pending.len() + m.run(calls).in_flight.len() == m.pending.len() + m.in_flight.len()
            + m.held_change_run(calls),
        m.limit is Some && m.pending.len() <= m.limit->0 && QueueModel::no_requeue(calls) ==> m.run(
            calls,
        ).pending.len() <= m.limit->0,
    decreases calls.len(),
{
    if calls.len() > 0 {
        let prev = m.run(calls.drop_last());
        law_run(m, calls.drop_last());
        if QueueModel::no_requeue(calls) {
            assert forall|i: int| 0 <= i < calls.drop_last().len() implies !(
            #[trigger] calls.drop_last()[i] matches QueueCall::Nack(_, true)) by {
                assert(calls.drop_last()[i] == calls[i]);
            }
            assert(!(calls[calls.len() - 1] matches QueueCall::Nack(_, true)));
        }
        match calls.last() {
            QueueCall::Push(e) => {
                law_operations_keep_wf(prev, e, TaskId(0), false);
                law_counts(prev, e, TaskId(0), false);
                law_capacity(prev, e);
            },
            QueueCall::Pop => {
                law_operations_keep_wf(prev, arbitrary(), TaskId(0), false);
                law_counts(prev, arbitrary(), TaskId(0), false);
            },
            QueueCall::Ack(id) => {
                law_operations_keep_wf(prev, arbitrary(), id, false);
                law_counts(prev, arbitrary(), id, false);
            },
            QueueCall::Nack(id, requeue) => {
                law_operations_keep_wf(prev, arbitrary(), id, requeue);
                law_counts(prev, arbitrary(), id, requeue);
            },
            QueueCall::Cancel(id) => {
                law_operations_keep_wf(prev, arbitrary(), id, false);
                law_counts(prev, arbitrary(), id, false);
            },
        }
    }
}

/// A queue made by `new()` or `unbounded()` holds, after any sequence of
/// calls, exactly the accepted pushes less the successful acks, dropping
/// nacks and cancels, and its `push` never reports `Full`.  A queue made by
/// `bounded(c)` reports `Full` on `push` exactly when `c` or more are
/// pending, and never has more than `c` pending while no requeueing nack is
/// made (a requeueing nack puts an envelope back whatever the bound).
pub proof fn law_fresh_queue(limit: Option<usize>, calls: Seq<QueueCall>, e: EnvelopeView)
    ensures
        QueueModel::empty(limit).run(calls).pending.len() + QueueModel::empty(limit).run(calls).in_flight.len()
            == QueueModel::empty(limit).held_change_run(calls),
        limit is None ==> QueueModel::empty(limit).run(calls).push(e).1 != Err::<(), QueueError>(
            QueueError::Full,
        ),
        limit is Some && QueueModel::no_requeue(calls) ==> QueueModel::empty(limit).run(calls).pending.len()
            <= limit->0,
        limit is Some ==> (QueueModel::empty(limit).run(calls).push(e).1 == Err::<(), QueueError>(
            QueueError::Full,
        ) <==> QueueModel::empty(limit).run(calls).pending.len() >= limit->0),
{
    let m = QueueModel::empty(limit);
    assert(m.pending.dom() =~= Set::<u128>::empty());
    assert(m.in_flight.dom() =~= Set::<u128>::empty());
    assert(m.wf());
    law_run(m, calls);
    law_capacity(m.run(calls), e);
}


/// What each call does, in terms of the pending and in-flight envelopes.
/// `push` reports `Full` when a bound is reached, then `Duplicate` when the
/// identifier is pending or in flight, and otherwise adds the envelope to the
/// pending ones.  `pop` gives nothing exactly when nothing is pending, and
/// otherwise moves to the in-flight ones the pending envelope of highest
/// priority, earliest arrival among equal priorities, and smallest identifier
/// among equal arrivals.  `ack` removes an in-flight envelope, `nack` removes
/// it and, when asked to, puts it back among the pending ones, and `cancel`
/// removes a pending envelope; each reports `NotFound` and changes nothing
/// when there is no such envelope.
pub proof fn law_queue_calls(m: QueueModel, e: EnvelopeView, id: TaskId, requeue: bool)
    requires
        m.wf(),
    ensures
        (m.limit matches Some(c) && m.pending.len() >= c) ==> m.push(e) == (m, Err::<(), QueueError>(
            QueueError::Full,
        )),
        !(m.limit matches Some(c) && m.pending.len() >= c) && (m.pending.contains_key(e.task_id.0)
            || m.in_flight.contains_key(e.task_id.0)) ==> m.push(e) == (m, Err::<(), QueueError>(
            QueueError::Duplicate(e.task_id),
        )),
        !(m.limit matches Some(c) && m.pending.len() >= c) && !m.pending.contains_key(e.task_id.0)
            && !m.in_flight.contains_key(e.task_id.0) ==> m.push(e) == (
            QueueModel { pending: m.pending.insert(e.task_id.0, e), ..m },
            Ok::<(), QueueError>(()),
        ),
        m.pending.len() == 0 ==> m.pop() == (m, None::<EnvelopeView>),
        m.pending.len() > 0 ==> (m.pop().1 matches Some(x) && m.pending.contains_key(x.task_id.0)
            && m.pending[x.task_id.0] == x && m.pop().0 == (QueueModel {
            pending: m.pending.remove(x.task_id.0),
            in_flight: m.in_flight.insert(x.task_id.0, x),
            ..m
        }) && forall|k: u128| #[trigger]
            m.pending.contains_key(k) ==> {
                ||| m.pending[k].priority.0 < x.priority.0
                ||| (m.pending[k].priority.0 == x.priority.0 && x.enqueued_at.0 < m.pending[k].enqueued_at.0)
                ||| (m.pending[k].priority.0 == x.priority.0 && x.enqueued_at.0 == m.pending[k].enqueued_at.0
                    && x.task_id.0 <= k)
            }),
        m.in_flight.contains_key(id.0) ==> m.ack(id) == (
            QueueModel { in_flight: m.in_flight.remove(id.0), ..m },
            Ok::<(), QueueError>(()),
        ),
        !m.in_flight.contains_key(id.0) ==> m.ack(id) == (m, Err::<(), QueueError>(QueueError::NotFound(id))),
        m.in_flight.contains_key(id.0) && requeue ==> m.nack(id, requeue) == (
            QueueModel {
                pending: m.pending.insert(id.0, m.in_flight[id.0]),
                in_flight: m.in_flight.remove(id.0),
                ..m
            },
            Ok::<(), QueueError>(()),
        ),
        m.in_flight.contains_key(id.0) && !requeue ==> m.nack(id, requeue) == (
            QueueModel { in_flight: m.in_flight.remove(id.0), ..m },
            Ok::<(), QueueError>(()),
        ),
        !m.in_flight.contains_key(id.0) ==> m.nack(id, requeue) == (m, Err::<(), QueueError>(
            QueueError::NotFound(id),
        )),
        m.pending.contains_key(id.0) ==> m.cancel(id) == (
            QueueModel { pending: m.pending.remove(id.0), ..m },
            Ok::<(), QueueError>(()),
        ),
        !m.pending.contains_key(id.0) ==> m.cancel(id) == (m, Err::<(), QueueError>(
            QueueError::NotFound(id),
        )),
{
    lemma_next(m, e);
    if m.pending.len() > 0 {
        let x = m.next()->0;
        assert forall|k: u128| #[trigger] m.pending.contains_key(k) implies {
            ||| m.pending[k].priority.0 < x.priority.0
            ||| (m.pending[k].priority.0 == x.priority.0 && x.enqueued_at.0 < m.pending[k].enqueued_at.0)
            ||| (m.pending[k].priority.0 == x.priority.0 && x.enqueued_at.0 == m.pending[k].enqueued_at.0
                && x.task_id.0 <= k)
        } by {
            assert(!ranks_above(m.pending[k], x));
            assert(m.pending[k].task_id.0 == k);
        }
    }
}


/// Envelope comparison follows dequeue order: `Greater` for higher priority,
/// then for earlier arrival, then for a smaller identifier; swapping the two
/// sides swaps `Greater` and `Less`; `Equal` exactly when priority, arrival
/// and identifier all agree.
pub proof fn law_envelope_order(a: EnvelopeView, b: EnvelopeView)
    ensures
        order_of(a, b) == Ordering::Greater <==> (a.priority.0 > b.priority.0 || (a.priority.0 == b.priority.0
            && a.enqueued_at.0 < b.enqueued_at.0) || (a.priority.0 == b.priority.0 && a.enqueued_at.0
            == b.enqueued_at.0 && a.task_id.0 < b.task_id.0)),
        order_of(a, b) == Ordering::Greater <==> order_of(b, a) == Ordering::Less,
        order_of(a, b) == Ordering::Equal <==> (a.priority.0 == b.priority.0 && a.enqueued_at.0
            == b.enqueued_at.0 && a.task_id.0 == b.task_id.0),
{
}

} // verus!
