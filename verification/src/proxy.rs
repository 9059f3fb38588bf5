use vstd::prelude::*;
use crate::effects::{Effects, EffectId, SlotId};
use crate::queue::{Commit, Op, Queue};
use std::collections::HashMap;
use std::marker::PhantomData;

verus! {

broadcast use vstd::std_specs::hash::group_hash_axioms;

/// The current values of the slots of one type.
pub struct Slots<T> {
    values: HashMap<SlotId, T>,
}

impl<T> Slots<T> {
    pub closed spec fn view(&self) -> Map<SlotId, T> {
        self.values@
    }

    /// No slot yet.
    pub fn new() -> (r: Slots<T>)
        ensures
            r.view() == Map::<SlotId, T>::empty(),
    {
        Slots { values: HashMap::new() }
    }

    /// Allocates `slot_id` holding `value` (or gives it that value).
    pub fn allocate(&mut self, slot_id: SlotId, value: T)
        ensures
            final(self).view() == old(self).view().insert(slot_id, value),
    {
        self.values.insert(slot_id, value);
    }

    /// The current value of `slot_id`.
    pub fn read(&self, slot_id: SlotId) -> (r: &T)
        requires
            self.view().contains_key(slot_id),
        ensures
            *r == self.view()[slot_id],
    {
        self.values.get(&slot_id).unwrap()
    }
}

impl<T> Slots<T> {
    /// Applies one change: an assignment gives the slot its value (allocating
    /// it where needed); an update of an allocated slot replaces its value by
    /// what the update makes of it; an update of a slot not allocated is
    /// dropped. The result is the slot written, if any.
    pub fn apply_one<U: FnOnce(T) -> T>(&mut self, commit: Commit<T, U>) -> (written: Option<SlotId>)
        requires
            update_ready(old(self).view(), commit),
        ensures
            step_spec(old(self).view(), commit, final(self).view()),
            written == written_spec(old(self).view(), commit),
    {
        let slot_id = commit.slot_id;
        match commit.op {
            Op::Assign(v) => {
                self.values.insert(slot_id, v);
                Some(slot_id)
            },
            Op::Update(f) => match self.values.remove(&slot_id) {
                Some(current) => {
                    let next = f(current);
                    self.values.insert(slot_id, next);
                    proof {
                        assert(self.view().dom() =~= old(self).view().dom());
                    }
                    Some(slot_id)
                },
                None => {
                    proof {
                        assert(self.view() =~= old(self).view());
                    }
                    None
                },
            },
        }
    }

    /// Applies `commits` in order (see [`Slots::apply_one`]) and gives the
    /// slots written, in order. Each update must accept any value.
    pub fn apply<U: FnOnce(T) -> T>(&mut self, commits: Vec<Commit<T, U>>) -> (dirty: Vec<SlotId>)
        requires
            forall|i: int| 0 <= i < commits@.len() ==> updates_total(#[trigger] commits@[i]),
        ensures
            exists|states: Seq<Map<SlotId, T>>| {
                &&& states.len() == commits@.len() + 1
                &&& states[0] == old(self).view()
                &&& states.last() == final(self).view()
                &&& forall|i: int| 0 <= i < commits@.len() ==> step_spec(#[trigger] states[i], commits@[i], states[i + 1])
                &&& dirty@ == written_seq(states, commits@)
            },
    {
        let ghost all = commits@;
        let ghost mut states: Seq<Map<SlotId, T>> = seq![self.view()];
        let mut rest = commits;
        let total = rest.len();
        assert(all.len() == total);
        let mut dirty: Vec<SlotId> = Vec::new();
        let mut done: usize = 0;
        proof {
            assert(all.subrange(0, 0) =~= Seq::<Commit<T, U>>::empty());
        }
        while rest.len() > 0
            invariant
                done + rest@.len() == all.len(),
                all.len() <= usize::MAX,
                rest@ == all.subrange(done as int, all.len() as int),
                forall|i: int| 0 <= i < all.len() ==> updates_total(#[trigger] all[i]),
                states.len() == done + 1,
                states[0] == old(self).view(),
                states.last() == self.view(),
                forall|i: int| 0 <= i < done ==> step_spec(#[trigger] states[i], all[i], states[i + 1]),
                dirty@ == written_seq(states, all.subrange(0, done as int)),
            decreases rest.len(),
        {
            let commit = rest.remove(0);
            proof {
                assert(commit == all[done as int]);
                assert(rest@ =~= all.subrange(done + 1, all.len() as int));
                assert(updates_total(all[done as int]));
            }
            let ghost before = self.view();
            let w = self.apply_one(commit);
            if let Some(s) = w {
                dirty.push(s);
            }
            proof {
                let old_states = states;
                states = states.push(self.view());
                let pre = all.subrange(0, done as int);
                let post = all.subrange(0, done + 1);
                assert(post.drop_last() =~= pre);
                assert(post.last() == all[done as int]);
                lemma_written_seq_prefix(old_states, states, pre);
                assert(written_seq(states, post) == written_seq(states, pre) + opt_slot(written_spec(states[done as int], all[done as int])));
                assert(dirty@ =~= written_seq(states, post));
                assert forall|i: int| 0 <= i < done + 1 implies step_spec(#[trigger] states[i], all[i], states[i + 1]) by {
                    if i < done {
                        assert(states[i] == old_states[i] && states[i + 1] == old_states[i + 1]);
                    }
                }
            }
            done = done + 1;
        }
        proof {
            assert(all.subrange(0, done as int) =~= all);
        }
        dirty
    }
}

/// Where `c` is an update of an allocated slot, it accepts that slot's value.
pub open spec fn update_ready<T, U: FnOnce(T) -> T>(m: Map<SlotId, T>, c: Commit<T, U>) -> bool {
    match c.op {
        Op::Update(f) => m.contains_key(c.slot_id) ==> f.requires((m[c.slot_id],)),
        Op::Assign(_) => true,
    }
}

/// Where `c` is an update, it accepts any value.
pub open spec fn updates_total<T, U: FnOnce(T) -> T>(c: Commit<T, U>) -> bool {
    match c.op {
        Op::Update(f) => forall|t: T| f.requires((t,)),
        Op::Assign(_) => true,
    }
}

/// `after` is `before` with `c` applied: an assignment sets the slot; an
/// update of an allocated slot sets it to a value the update may make of the
/// old one; an update of a slot not allocated changes nothing.
pub open spec fn step_spec<T, U: FnOnce(T) -> T>(before: Map<SlotId, T>, c: Commit<T, U>, after: Map<SlotId, T>) -> bool {
    match c.op {
        Op::Assign(v) => after == before.insert(c.slot_id, v),
        Op::Update(f) => if before.contains_key(c.slot_id) {
            &&& after.dom() == before.dom()
            &&& f.ensures((before[c.slot_id],), after[c.slot_id])
            &&& forall|k: SlotId| k != c.slot_id && #[trigger] before.contains_key(k) ==> after[k] == before[k]
        } else {
            after == before
        },
    }
}

/// The slot that `c` writes, applied to `before`.
pub open spec fn written_spec<T, U>(before: Map<SlotId, T>, c: Commit<T, U>) -> Option<SlotId> {
    match c.op {
        Op::Assign(_) => Some(c.slot_id),
        Op::Update(_) => if before.contains_key(c.slot_id) { Some(c.slot_id) } else { None },
    }
}

/// The slot as a sequence of at most one.
pub open spec fn opt_slot(s: Option<SlotId>) -> Seq<SlotId> {
    match s {
        Some(x) => seq![x],
        None => Seq::empty(),
    }
}

/// The slots written by `cs`, applied from the states `states`, in order.
pub open spec fn written_seq<T, U>(states: Seq<Map<SlotId, T>>, cs: Seq<Commit<T, U>>) -> Seq<SlotId>
    decreases cs.len(),
{
    if cs.len() == 0 {
        Seq::empty()
    } else {
        written_seq(states, cs.drop_last()) + opt_slot(written_spec(states[cs.len() - 1], cs.last()))
    }
}

proof fn lemma_written_seq_prefix<T, U>(a: Seq<Map<SlotId, T>>, b: Seq<Map<SlotId, T>>, cs: Seq<Commit<T, U>>)
    requires
        cs.len() <= a.len(),
        a.len() <= b.len(),
        forall|i: int| 0 <= i < a.len() ==> a[i] == b[i],
    ensures
        written_seq(a, cs) == written_seq(b, cs),
    decreases cs.len(),
{
    if cs.len() > 0 {
        lemma_written_seq_prefix(a, b, cs.drop_last());
        assert(a[cs.len() - 1] == b[cs.len() - 1]);
    }
}

/// A read gives back what was written: after an assignment of `v` to `slot`
/// is applied, the slot holds `v` and every other slot is as it was.
pub proof fn law_read_after_write<T, U: FnOnce(T) -> T>(before: Map<SlotId, T>, slot: SlotId, v: T, after: Map<SlotId, T>, other: SlotId)
    requires
        step_spec(before, Commit { slot_id: slot, op: Op::<T, U>::Assign(v) }, after),
        other != slot,
    ensures
        after.contains_key(slot),
        after[slot] == v,
        after.contains_key(other) == before.contains_key(other),
        before.contains_key(other) ==> after[other] == before[other],
{
}

/// An applied update of an allocated slot leaves there what the update made
/// of the value it held.
pub proof fn law_update_applies<T, U: FnOnce(T) -> T>(before: Map<SlotId, T>, slot: SlotId, f: U, after: Map<SlotId, T>)
    requires
        before.contains_key(slot),
        step_spec(before, Commit { slot_id: slot, op: Op::<T, U>::Update(f) }, after),
    ensures
        after.contains_key(slot),
        f.ensures((before[slot],), after[slot]),
{
}

/// Toggling a flag twice, each toggle applied before the next reads it,
/// gives back the value it began with.
pub proof fn law_toggle_twice_restores<U: FnOnce(bool) -> bool>(m0: Map<SlotId, bool>, slot: SlotId, m1: Map<SlotId, bool>, m2: Map<SlotId, bool>)
    requires
        m0.contains_key(slot),
        step_spec(m0, Commit { slot_id: slot, op: Op::<bool, U>::Assign(!m0[slot]) }, m1),
        step_spec(m1, Commit { slot_id: slot, op: Op::<bool, U>::Assign(!m1[slot]) }, m2),
    ensures
        m2[slot] == m0[slot],
        m2.dom() == m0.dom(),
{
    assert(m2.dom() =~= m0.dom());
}


/// A typed handle to a state slot.
pub struct Proxy<T> {
    slot_id: SlotId,
    _marker: PhantomData<T>,
}

impl<T> Proxy<T> {
    pub closed spec fn slot(&self) -> SlotId {
        self.slot_id
    }

    pub fn new(slot_id: SlotId) -> (r: Proxy<T>)
        ensures
            r.slot() == slot_id,
    {
        Proxy { slot_id, _marker: PhantomData }
    }

    pub fn id(&self) -> (r: SlotId)
        ensures
            r == self.slot(),
    {
        self.slot_id
    }

    /// The current value, read without being tracked.
    pub fn peek<'a>(&self, slots: &'a Slots<T>) -> (r: &'a T)
        requires
            slots.view().contains_key(self.slot()),
        ensures
            *r == slots.view()[self.slot()],
    {
        slots.read(self.slot_id)
    }

    /// Queues setting the slot to `value`.
    pub fn set<U>(&self, queue: &mut Queue<T, U>, value: T)
        ensures
            final(queue).view() == old(queue).view().push(Commit { slot_id: self.slot(), op: Op::Assign(value) }),
    {
        queue.push(self.slot_id, value);
    }

    /// Queues the update `f` of the slot.
    pub fn update<U>(&self, queue: &mut Queue<T, U>, f: U)
        ensures
            final(queue).view() == old(queue).view().push(Commit { slot_id: self.slot(), op: Op::Update(f) }),
    {
        queue.push_update(self.slot_id, f);
    }

    /// `f` applied to the current value, read without being tracked.
    pub fn with<R, F: FnOnce(&T) -> R>(&self, slots: &Slots<T>, f: F) -> (r: R)
        requires
            slots.view().contains_key(self.slot()),
            f.requires((&slots.view()[self.slot()],)),
        ensures
            f.ensures((&slots.view()[self.slot()],), r),
    {
        f(slots.read(self.slot_id))
    }

    /// `f` applied to the current value, the read recorded for the running
    /// effect `current` (see [`Effects::track_read`]).
    pub fn with_tracked<R, F: FnOnce(&T) -> R, C>(
        &self,
        slots: &Slots<T>,
        effects: &mut Effects<C>,
        current: Option<EffectId>,
        f: F,
    ) -> (r: R)
        requires
            old(effects).wf(),
            slots.view().contains_key(self.slot()),
            f.requires((&slots.view()[self.slot()],)),
        ensures
            f.ensures((&slots.view()[self.slot()],), r),
            final(effects).wf(),
            final(effects).callbacks() == old(effects).callbacks(),
            match current {
                Some(e) => old(effects).reads().contains_key(e) ==> final(effects).reads()[e].contains(self.slot())
                    && final(effects).subscribers()[self.slot()].contains(e),
                None => final(effects).reads() == old(effects).reads() && final(effects).subscribers() == old(effects).subscribers(),
            },
    {
        effects.track_read(current, self.slot_id);
        f(slots.read(self.slot_id))
    }
}

impl Proxy<bool> {
    /// Queues setting the slot to the opposite of its current value.
    pub fn toggle<U>(&self, slots: &Slots<bool>, queue: &mut Queue<bool, U>)
        requires
            slots.view().contains_key(self.slot()),
        ensures
            final(queue).view() == old(queue).view().push(Commit { slot_id: self.slot(), op: Op::Assign(!slots.view()[self.slot()]) }),
    {
        let current = *self.peek(slots);
        self.set(queue, !current);
    }
}

impl<T> From<State<T>> for Proxy<T> {
    /// The proxy of the state's slot.
    fn from(state: State<T>) -> (r: Proxy<T>) {
        state.proxy
    }
}

impl<T> vstd::std_specs::convert::FromSpecImpl<State<T>> for Proxy<T> {
    open spec fn obeys_from_spec() -> bool {
        true
    }

    closed spec fn from_spec(state: State<T>) -> Proxy<T> {
        state.proxy
    }
}

/// The proxy that a state converts into names the state's slot.
pub proof fn law_proxy_from_state<T>(state: State<T>)
    ensures
        <Proxy<T> as vstd::std_specs::convert::FromSpec<State<T>>>::from_spec(state).slot() == state.slot(),
{
}

/// The state of a store: a handle to its slot.
pub struct State<T> {
    proxy: Proxy<T>,
}

impl<T> State<T> {
    pub closed spec fn slot(&self) -> SlotId {
        self.proxy.slot()
    }

    pub fn new(slot_id: SlotId) -> (r: State<T>)
        ensures
            r.slot() == slot_id,
    {
        State { proxy: Proxy::new(slot_id) }
    }

    pub fn id(&self) -> (r: SlotId)
        ensures
            r == self.slot(),
    {
        self.proxy.id()
    }

    /// The proxy of the same slot.
    pub fn proxy(&self) -> (r: Proxy<T>)
        ensures
            r.slot() == self.slot(),
    {
        Proxy::new(self.proxy.id())
    }

    /// The current value, read without being tracked.
    pub fn peek<'a>(&self, slots: &'a Slots<T>) -> (r: &'a T)
        requires
            slots.view().contains_key(self.slot()),
        ensures
            *r == slots.view()[self.slot()],
    {
        self.proxy.peek(slots)
    }

    /// Queues setting the slot to `value`.
    pub fn set<U>(&self, queue: &mut Queue<T, U>, value: T)
        ensures
            final(queue).view() == old(queue).view().push(Commit { slot_id: self.slot(), op: Op::Assign(value) }),
    {
        self.proxy.set(queue, value)
    }

    /// Queues the update `f` of the slot.
    pub fn update<U>(&self, queue: &mut Queue<T, U>, f: U)
        ensures
            final(queue).view() == old(queue).view().push(Commit { slot_id: self.slot(), op: Op::Update(f) }),
    {
        self.proxy.update(queue, f)
    }

    /// `f` applied to the current value, read without being tracked.
    pub fn with<R, F: FnOnce(&T) -> R>(&self, slots: &Slots<T>, f: F) -> (r: R)
        requires
            slots.view().contains_key(self.slot()),
            f.requires((&slots.view()[self.slot()],)),
        ensures
            f.ensures((&slots.view()[self.slot()],), r),
    {
        self.proxy.with(slots, f)
    }

    /// `f` applied to the current value, the read recorded for the running
    /// effect `current`.
    pub fn with_tracked<R, F: FnOnce(&T) -> R, C>(
        &self,
        slots: &Slots<T>,
        effects: &mut Effects<C>,
        current: Option<EffectId>,
        f: F,
    ) -> (r: R)
        requires
            old(effects).wf(),
            slots.view().contains_key(self.slot()),
            f.requires((&slots.view()[self.slot()],)),
        ensures
            f.ensures((&slots.view()[self.slot()],), r),
            final(effects).wf(),
            final(effects).callbacks() == old(effects).callbacks(),
            match current {
                Some(e) => old(effects).reads().contains_key(e) ==> final(effects).reads()[e].contains(self.slot())
                    && final(effects).subscribers()[self.slot()].contains(e),
                None => final(effects).reads() == old(effects).reads() && final(effects).subscribers() == old(effects).subscribers(),
            },
    {
        self.proxy.with_tracked(slots, effects, current, f)
    }
}

impl State<bool> {
    /// Queues setting the slot to the opposite of its current value.
    pub fn toggle<U>(&self, slots: &Slots<bool>, queue: &mut Queue<bool, U>)
        requires
            slots.view().contains_key(self.slot()),
        ensures
            final(queue).view() == old(queue).view().push(Commit { slot_id: self.slot(), op: Op::Assign(!slots.view()[self.slot()]) }),
    {
        self.proxy.toggle(slots, queue)
    }
}

/// A state being declared, with its first value.
pub struct StateInit<T> {
    pub initial: T,
}

/// Declares a state that starts at `initial`.
pub fn state<T>(initial: T) -> (r: StateInit<T>)
    ensures
        r.initial == initial,
{
    StateInit { initial }
}

impl<T> StateInit<T> {
    /// Installs the state on `slot_id`: the slot is allocated holding the
    /// first value, and the handle names it.
    pub fn install(self, slots: &mut Slots<T>, slot_id: SlotId) -> (r: State<T>)
        ensures
            r.slot() == slot_id,
            final(slots).view() == old(slots).view().insert(slot_id, self.initial),
    {
        slots.allocate(slot_id, self.initial);
        State::new(slot_id)
    }
}

/// A memo being declared: how it derives its value.
pub struct MemoInit<F, T> {
    pub derive: F,
    pub _phantom: PhantomData<T>,
}

/// Declares a memo that `derive` computes.
pub fn memo<T, F>(derive: F) -> (r: MemoInit<F, T>)
    ensures
        r.derive == derive,
{
    MemoInit { derive, _phantom: PhantomData }
}

} // verus!
