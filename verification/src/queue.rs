use vstd::prelude::*;
use crate::effects::SlotId;

verus! {

/// A change to a slot: a new value, or an update to apply to the current one.
#[derive(Debug)]
pub enum Op<V, U> {
    Assign(V),
    Update(U),
}

/// A change waiting to be applied to a slot.
#[derive(Debug)]
pub struct Commit<V, U> {
    pub slot_id: SlotId,
    pub op: Op<V, U>,
}

/// The changes made since the last frame, in order.
pub struct Queue<V, U> {
    pending: Vec<Commit<V, U>>,
}

impl<V, U> Queue<V, U> {
    pub closed spec fn view(&self) -> Seq<Commit<V, U>> {
        self.pending@
    }

    /// An empty queue.
    pub fn new() -> (r: Queue<V, U>)
        ensures
            r.view() == Seq::<Commit<V, U>>::empty(),
    {
        Queue { pending: Vec::new() }
    }

    /// Queues setting `slot_id` to `value`.
    pub fn push(&mut self, slot_id: SlotId, value: V)
        ensures
            final(self).view() == old(self).view().push(Commit { slot_id, op: Op::Assign(value) }),
    {
        self.pending.push(Commit { slot_id, op: Op::Assign(value) });
    }

    /// Queues the update `f` of `slot_id`.
    pub fn push_update(&mut self, slot_id: SlotId, f: U)
        ensures
            final(self).view() == old(self).view().push(Commit { slot_id, op: Op::Update(f) }),
    {
        self.pending.push(Commit { slot_id, op: Op::Update(f) });
    }

    /// Queues `commits`, in order, after those already queued.
    pub fn extend(&mut self, commits: Vec<Commit<V, U>>)
        ensures
            final(self).view() == old(self).view() + commits@,
    {
        if commits.len() == 0 {
            assert(old(self).view() + commits@ =~= old(self).view());
            return;
        }
        let mut commits = commits;
        self.pending.append(&mut commits);
    }

    /// Takes every queued change, in order, leaving the queue empty.
    pub fn drain(&mut self) -> (r: Vec<Commit<V, U>>)
        ensures
            r@ == old(self).view(),
            final(self).view() == Seq::<Commit<V, U>>::empty(),
    {
        let mut taken: Vec<Commit<V, U>> = Vec::new();
        std::mem::swap(&mut taken, &mut self.pending);
        taken
    }
}

} // verus!
