use vstd::prelude::*;
use std::collections::HashMap;

verus! {

broadcast use vstd::std_specs::hash::group_hash_axioms;

/// The identity of an effect.
pub type EffectId = u32;

/// The identity of a state slot.
pub type SlotId = u32;

/// A registered effect: its callback and the slots its last run read.
pub struct Effect<C> {
    pub id: EffectId,
    pub callback: C,
    pub tracked_slots: Vec<SlotId>,
}

/// `list` with every occurrence of `id` dropped.
pub open spec fn without(list: Seq<EffectId>, id: EffectId) -> Seq<EffectId>
    decreases list.len(),
{
    if list.len() == 0 {
        Seq::empty()
    } else {
        let w = without(list.drop_last(), id);
        if list.last() == id {
            w
        } else {
            w.push(list.last())
        }
    }
}

/// `acc` followed by the elements of `list` that it does not hold yet, in order.
pub open spec fn append_new(acc: Seq<EffectId>, list: Seq<EffectId>) -> Seq<EffectId>
    decreases list.len(),
{
    if list.len() == 0 {
        acc
    } else {
        let a = append_new(acc, list.drop_last());
        if a.contains(list.last()) {
            a
        } else {
            a.push(list.last())
        }
    }
}

/// The effects that read any of `dirty`, in order of the slots and then of
/// their subscription, each once.
pub open spec fn collect_spec(subs: Map<SlotId, Seq<EffectId>>, dirty: Seq<SlotId>) -> Seq<EffectId>
    decreases dirty.len(),
{
    if dirty.len() == 0 {
        Seq::empty()
    } else {
        let prev = collect_spec(subs, dirty.drop_last());
        if subs.contains_key(dirty.last()) {
            append_new(prev, subs[dirty.last()])
        } else {
            prev
        }
    }
}

fn contains_id(v: &Vec<u32>, x: u32) -> (r: bool)
    ensures
        r == v@.contains(x),
{
    let mut i: usize = 0;
    while i < v.len()
        invariant
            i <= v@.len(),
            forall|j: int| 0 <= j < i ==> v@[j] != x,
        decreases v.len() - i,
    {
        if v[i] == x {
            assert(v@[i as int] == x);
            return true;
        }
        i = i + 1;
    }
    false
}

proof fn lemma_without_absent(l: Seq<EffectId>, id: EffectId)
    requires
        !l.contains(id),
    ensures
        without(l, id) == l,
    decreases l.len(),
{
    if l.len() > 0 {
        let t = l.drop_last();
        assert(!t.contains(id)) by {
            if t.contains(id) {
                let j = choose|j: int| 0 <= j < t.len() && t[j] == id;
                assert(l[j] == id);
            }
        }
        lemma_without_absent(t, id);
        assert(t.push(l.last()) =~= l);
    } else {
        assert(l =~= Seq::<EffectId>::empty());
    }
}

proof fn lemma_without_props(l: Seq<EffectId>, id: EffectId)
    ensures
        l.no_duplicates() ==> without(l, id).no_duplicates(),
        forall|e: EffectId| #[trigger] without(l, id).contains(e) <==> (l.contains(e) && e != id),
    decreases l.len(),
{
    if l.len() > 0 {
        let t = l.drop_last();
        let w = without(t, id);
        lemma_without_props(t, id);
        assert forall|e: EffectId| #[trigger] without(l, id).contains(e) <==> (l.contains(e) && e != id) by {
            if l.contains(e) && e != id {
                let j = choose|j: int| 0 <= j < l.len() && l[j] == e;
                if j < l.len() - 1 {
                    assert(t[j] == e);
                    assert(w.contains(e));
                    let k = choose|k: int| 0 <= k < w.len() && w[k] == e;
                    if l.last() != id {
                        assert(without(l, id)[k] == e);
                    }
                } else {
                    assert(without(l, id) == w.push(e));
                    assert(without(l, id)[w.len() as int] == e);
                }
            }
            if without(l, id).contains(e) {
                let k = choose|k: int| 0 <= k < without(l, id).len() && without(l, id)[k] == e;
                if l.last() != id && k == w.len() {
                    assert(l[l.len() - 1] == e);
                } else {
                    assert(w[k] == e);
                    assert(w.contains(e));
                    let j = choose|j: int| 0 <= j < t.len() && t[j] == e;
                    assert(l[j] == e);
                }
            }
        }
        if l.no_duplicates() {
            assert(t.no_duplicates());
            if l.last() != id {
                assert(!w.contains(l.last())) by {
                    if w.contains(l.last()) {
                        assert(t.contains(l.last()));
                        let j = choose|j: int| 0 <= j < t.len() && t[j] == l.last();
                        assert(l[j] == l[l.len() - 1]);
                    }
                }
                let v = without(l, id);
                assert forall|a: int, b: int| 0 <= a < v.len() && 0 <= b < v.len() && a != b implies v[a] != v[b] by {
                    if a < w.len() && b < w.len() {
                        assert(v[a] == w[a] && v[b] == w[b]);
                    } else if a < w.len() {
                        assert(v[a] == w[a]);
                        assert(w.contains(w[a]));
                    } else {
                        assert(v[b] == w[b]);
                        assert(w.contains(w[b]));
                    }
                }
            }
        }
    }
}

/// `list` without `id`.
fn remove_id(list: &Vec<EffectId>, id: EffectId) -> (r: Vec<EffectId>)
    ensures
        r@ == without(list@, id),
{
    let mut out: Vec<EffectId> = Vec::new();
    let mut i: usize = 0;
    proof {
        assert(list@.subrange(0, 0) =~= Seq::<EffectId>::empty());
    }
    while i < list.len()
        invariant
            i <= list@.len(),
            out@ == without(list@.subrange(0, i as int), id),
        decreases list.len() - i,
    {
        let e = list[i];
        proof {
            assert(list@.subrange(0, i + 1).drop_last() =~= list@.subrange(0, i as int));
        }
        if e != id {
            out.push(e);
        }
        i = i + 1;
    }
    assert(list@.subrange(0, i as int) =~= list@);
    out
}

/// The registry of effects and of which effects read which slots.
pub struct Effects<C> {
    effects: HashMap<EffectId, Effect<C>>,
    slot_effects: HashMap<SlotId, Vec<EffectId>>,
    next_id: u32,
}

impl<C> Effects<C> {
    /// The callback of each registered effect.
    pub closed spec fn callbacks(&self) -> Map<EffectId, C> {
        self.effects@.map_values(|e: Effect<C>| e.callback)
    }

    /// The slots that each registered effect read in its last run.
    pub closed spec fn reads(&self) -> Map<EffectId, Seq<SlotId>> {
        self.effects@.map_values(|e: Effect<C>| e.tracked_slots@)
    }

    /// The effects subscribed to each slot.
    pub closed spec fn subscribers(&self) -> Map<SlotId, Seq<EffectId>> {
        self.slot_effects@.map_values(|v: Vec<EffectId>| v@)
    }

    /// The identity that the next registered effect gets.
    pub closed spec fn next_id_spec(&self) -> u32 {
        self.next_id
    }

    /// The registry is consistent: an effect is subscribed to a slot exactly
    /// when it read that slot in its last run, lists hold no duplicates, and
    /// every identity in use is below the next one.
    pub closed spec fn wf(&self) -> bool {
        &&& forall|e: EffectId| #[trigger] self.effects@.contains_key(e) ==> {
            &&& self.effects@[e].id == e
            &&& e < self.next_id
            &&& self.effects@[e].tracked_slots@.no_duplicates()
        }
        &&& forall|s: SlotId| #[trigger] self.slot_effects@.contains_key(s) ==> self.slot_effects@[s]@.no_duplicates()
        &&& forall|e: EffectId, s: SlotId|
            #![trigger self.effects@[e].tracked_slots@.contains(s)]
            self.effects@.contains_key(e) && self.effects@[e].tracked_slots@.contains(s) ==> self.slot_effects@.contains_key(s) && self.slot_effects@[s]@.contains(e)
        &&& forall|e: EffectId, s: SlotId|
            #![trigger self.slot_effects@[s]@.contains(e)]
            self.slot_effects@.contains_key(s) && self.slot_effects@[s]@.contains(e) ==> self.effects@.contains_key(e) && self.effects@[e].tracked_slots@.contains(s)
    }

    /// An empty registry.
    pub fn new() -> (r: Effects<C>)
        ensures
            r.wf(),
            r.callbacks() == Map::<EffectId, C>::empty(),
            r.subscribers() == Map::<SlotId, Seq<EffectId>>::empty(),
            r.next_id_spec() == 0,
    {
        let r = Effects { effects: HashMap::new(), slot_effects: HashMap::new(), next_id: 0 };
        assert(r.callbacks() =~= Map::<EffectId, C>::empty());
        assert(r.subscribers() =~= Map::<SlotId, Seq<EffectId>>::empty());
        r
    }

    /// The identity that the next registered effect gets.
    pub fn next_id(&self) -> (r: u32)
        ensures
            r == self.next_id_spec(),
    {
        self.next_id
    }

    /// Registers an effect that has read nothing yet; its identity is the next one.
    pub fn register(&mut self, callback: C) -> (id: EffectId)
        requires
            old(self).wf(),
            old(self).next_id_spec() < u32::MAX,
        ensures
            final(self).wf(),
            id == old(self).next_id_spec(),
            !old(self).callbacks().contains_key(id),
            final(self).next_id_spec() == id + 1,
            final(self).callbacks() == old(self).callbacks().insert(id, callback),
            final(self).reads() == old(self).reads().insert(id, Seq::<SlotId>::empty()),
            final(self).subscribers() == old(self).subscribers(),
    {
        let id = self.next_id;
        self.next_id = self.next_id + 1;
        let entry = Effect { id, callback, tracked_slots: Vec::new() };
        self.effects.insert(id, entry);
        proof {
            assert(self.callbacks() =~= old(self).callbacks().insert(id, callback));
            assert(self.reads() =~= old(self).reads().insert(id, Seq::<SlotId>::empty()));
        }
        id
    }

    /// Drops `id` from the subscribers of `slot`.
    fn unsubscribe(&mut self, slot: SlotId, id: EffectId)
        ensures
            final(self).effects == old(self).effects,
            final(self).next_id == old(self).next_id,
            final(self).slot_effects@.dom() == old(self).slot_effects@.dom(),
            forall|s: SlotId| #[trigger] final(self).slot_effects@.contains_key(s) ==> final(self).slot_effects@[s]@ == if s == slot {
                without(old(self).slot_effects@[s]@, id)
            } else {
                old(self).slot_effects@[s]@
            },
    {
        match self.slot_effects.remove(&slot) {
            Some(list) => {
                let filtered = remove_id(&list, id);
                self.slot_effects.insert(slot, filtered);
                proof {
                    assert(self.slot_effects@.dom() =~= old(self).slot_effects@.dom());
                }
            },
            None => {},
        }
    }

    /// Drops `id` from the subscribers of each of `slots`.
    fn unsubscribe_all(&mut self, slots: &Vec<SlotId>, id: EffectId)
        ensures
            final(self).effects == old(self).effects,
            final(self).next_id == old(self).next_id,
            final(self).slot_effects@.dom() == old(self).slot_effects@.dom(),
            forall|s: SlotId| #[trigger] final(self).slot_effects@.contains_key(s) ==> final(self).slot_effects@[s]@ == if slots@.contains(s) {
                without(old(self).slot_effects@[s]@, id)
            } else {
                old(self).slot_effects@[s]@
            },
    {
        let mut i: usize = 0;
        while i < slots.len()
            invariant
                i <= slots@.len(),
                self.effects == old(self).effects,
                self.next_id == old(self).next_id,
                self.slot_effects@.dom() == old(self).slot_effects@.dom(),
                forall|s: SlotId| #[trigger] self.slot_effects@.contains_key(s) ==> self.slot_effects@[s]@ == if slots@.subrange(0, i as int).contains(s) {
                    without(old(self).slot_effects@[s]@, id)
                } else {
                    old(self).slot_effects@[s]@
                },
            decreases slots.len() - i,
        {
            let slot = slots[i];
            let ghost before = self.slot_effects@;
            self.unsubscribe(slot, id);
            proof {
                assert forall|s: SlotId| #[trigger] self.slot_effects@.contains_key(s) implies self.slot_effects@[s]@ == if slots@.subrange(0, i + 1).contains(s) {
                    without(old(self).slot_effects@[s]@, id)
                } else {
                    old(self).slot_effects@[s]@
                } by {
                    let pre = slots@.subrange(0, i as int);
                    let post = slots@.subrange(0, i + 1);
                    assert(post =~= pre.push(slot));
                    assert(post[i as int] == slot);
                    assert(post.contains(slot));
                    if s == slot {
                        assert(self.slot_effects@[s]@ == without(before[s]@, id));
                        lemma_without_props(old(self).slot_effects@[s]@, id);
                        if pre.contains(s) {
                            lemma_without_absent(without(old(self).slot_effects@[s]@, id), id);
                        }
                    } else {
                        assert(self.slot_effects@[s]@ == before[s]@);
                        if pre.contains(s) {
                            let j = choose|j: int| 0 <= j < pre.len() && pre[j] == s;
                            assert(post[j] == s);
                        }
                        if post.contains(s) {
                            let j = choose|j: int| 0 <= j < post.len() && post[j] == s;
                            assert(pre[j] == s);
                        }
                    }
                }
            }
            i = i + 1;
        }
        assert(slots@.subrange(0, i as int) =~= slots@);
    }

    /// Drops an effect: it no longer runs, and no slot lists it.
    pub fn dispose(&mut self, id: EffectId)
        requires
            old(self).wf(),
        ensures
            final(self).wf(),
            final(self).callbacks() == old(self).callbacks().remove(id),
            final(self).reads() == old(self).reads().remove(id),
            final(self).subscribers() == old(self).subscribers().map_values(|l: Seq<EffectId>| without(l, id)),
            final(self).next_id_spec() == old(self).next_id_spec(),
            !old(self).callbacks().contains_key(id) ==> final(self).subscribers() == old(self).subscribers(),
    {
        let ghost subs0 = self.slot_effects@;
        match self.effects.remove(&id) {
            Some(effect) => {
                self.unsubscribe_all(&effect.tracked_slots, id);
                proof {
                    assert forall|s: SlotId| #[trigger] self.slot_effects@.contains_key(s) implies self.slot_effects@[s]@ == without(subs0[s]@, id) by {
                        if !effect.tracked_slots@.contains(s) {
                            if subs0[s]@.contains(id) {
                                assert(old(self).effects@[id].tracked_slots@.contains(s));
                            }
                            lemma_without_absent(subs0[s]@, id);
                        }
                    }
                }
            },
            None => {
                proof {
                    assert forall|s: SlotId| #[trigger] self.slot_effects@.contains_key(s) implies self.slot_effects@[s]@ == without(subs0[s]@, id) by {
                        if subs0[s]@.contains(id) {
                            assert(old(self).effects@.contains_key(id));
                        }
                        lemma_without_absent(subs0[s]@, id);
                    }
                }
            },
        }
        proof {
            assert forall|s: SlotId| #[trigger] self.slot_effects@.contains_key(s) implies self.slot_effects@[s]@.no_duplicates() && (forall|e: EffectId| self.slot_effects@[s]@.contains(e) <==> (subs0[s]@.contains(e) && e != id)) by {
                lemma_without_props(subs0[s]@, id);
            }
            assert forall|e: EffectId, s: SlotId|
                #![trigger self.effects@[e].tracked_slots@.contains(s)]
                self.effects@.contains_key(e) && self.effects@[e].tracked_slots@.contains(s) implies self.slot_effects@.contains_key(s) && self.slot_effects@[s]@.contains(e) by {
                assert(old(self).effects@[e].tracked_slots@.contains(s));
                assert(subs0[s]@.contains(e));
                lemma_without_props(subs0[s]@, id);
            }
            assert forall|e: EffectId, s: SlotId|
                #![trigger self.slot_effects@[s]@.contains(e)]
                self.slot_effects@.contains_key(s) && self.slot_effects@[s]@.contains(e) implies self.effects@.contains_key(e) && self.effects@[e].tracked_slots@.contains(s) by {
                lemma_without_props(subs0[s]@, id);
                assert(subs0[s]@.contains(e));
            }
            assert(self.callbacks() =~= old(self).callbacks().remove(id));
            assert(self.reads() =~= old(self).reads().remove(id));
            assert(self.subscribers() =~= old(self).subscribers().map_values(|l: Seq<EffectId>| without(l, id)));
        }
    }

    /// Records that the running effect `current` read `slot_id`: the effect
    /// tracks the slot and is subscribed to it.
    pub fn track_read(&mut self, current: Option<EffectId>, slot_id: SlotId)
        requires
            old(self).wf(),
        ensures
            final(self).wf(),
            final(self).callbacks() == old(self).callbacks(),
            final(self).next_id_spec() == old(self).next_id_spec(),
            match current {
                Some(e) => if old(self).reads().contains_key(e) && !old(self).reads()[e].contains(slot_id) {
                    &&& final(self).reads() == old(self).reads().insert(e, old(self).reads()[e].push(slot_id))
                    &&& final(self).subscribers() == old(self).subscribers().insert(
                        slot_id,
                        if old(self).subscribers().contains_key(slot_id) {
                            old(self).subscribers()[slot_id].push(e)
                        } else {
                            seq![e]
                        },
                    )
                } else {
                    &&& final(self).reads() == old(self).reads()
                    &&& final(self).subscribers() == old(self).subscribers()
                },
                None => {
                    &&& final(self).reads() == old(self).reads()
                    &&& final(self).subscribers() == old(self).subscribers()
                },
            },
            match current {
                Some(e) => old(self).reads().contains_key(e) ==> {
                    &&& final(self).reads()[e].contains(slot_id)
                    &&& final(self).subscribers().contains_key(slot_id)
                    &&& final(self).subscribers()[slot_id].contains(e)
                    &&& final(self).subscribers()[slot_id].no_duplicates()
                },
                None => true,
            },
    {
        self.record_read(current, slot_id);
        proof {
            if let Some(e) = current {
                if old(self).reads().contains_key(e) {
                    let r0 = old(self).reads()[e];
                    if !r0.contains(slot_id) {
                        assert(r0.push(slot_id)[r0.len() as int] == slot_id);
                    }
                    assert(self.reads()[e].contains(slot_id));
                    self.law_registry_consistent();
                }
            }
        }
    }

    fn record_read(&mut self, current: Option<EffectId>, slot_id: SlotId)
        requires
            old(self).wf(),
        ensures
            final(self).wf(),
            final(self).callbacks() == old(self).callbacks(),
            final(self).next_id_spec() == old(self).next_id_spec(),
            match current {
                Some(e) => if old(self).reads().contains_key(e) && !old(self).reads()[e].contains(slot_id) {
                    &&& final(self).reads() == old(self).reads().insert(e, old(self).reads()[e].push(slot_id))
                    &&& final(self).subscribers() == old(self).subscribers().insert(
                        slot_id,
                        if old(self).subscribers().contains_key(slot_id) {
                            old(self).subscribers()[slot_id].push(e)
                        } else {
                            seq![e]
                        },
                    )
                } else {
                    &&& final(self).reads() == old(self).reads()
                    &&& final(self).subscribers() == old(self).subscribers()
                },
                None => {
                    &&& final(self).reads() == old(self).reads()
                    &&& final(self).subscribers() == old(self).subscribers()
                },
            },
    {
        let effect_id = match current {
            Some(e) => e,
            None => return,
        };
        let mut effect = match self.effects.remove(&effect_id) {
            Some(effect) => effect,
            None => return,
        };
        if contains_id(&effect.tracked_slots, slot_id) {
            self.effects.insert(effect_id, effect);
            proof {
                assert(self.effects@ =~= old(self).effects@);
            }
            return;
        }
        let ghost old_reads = effect.tracked_slots@;
        effect.tracked_slots.push(slot_id);
        let had = self.slot_effects.remove(&slot_id);
        let ghost old_list: Seq<EffectId> = match &had {
            Some(l) => l@,
            None => Seq::empty(),
        };
        let mut list = match had {
            Some(l) => l,
            None => Vec::new(),
        };
        proof {
            if old_list.contains(effect_id) {
                assert(old(self).slot_effects@[slot_id]@.contains(effect_id));
                assert(old(self).effects@[effect_id].tracked_slots@.contains(slot_id));
            }
        }
        if !contains_id(&list, effect_id) {
            list.push(effect_id);
        }
        self.slot_effects.insert(slot_id, list);
        self.effects.insert(effect_id, effect);
        proof {
            let ne = self.effects@;
            let ns = self.slot_effects@;
            let oe = old(self).effects@;
            let os = old(self).slot_effects@;
            assert(ns[slot_id]@ == old_list.push(effect_id));
            assert(ne[effect_id].tracked_slots@ == old_reads.push(slot_id));
            assert forall|e: EffectId| #[trigger] ne.contains_key(e) implies ne[e].id == e && e < self.next_id && ne[e].tracked_slots@.no_duplicates() by {
                if e == effect_id {
                    let t = old_reads.push(slot_id);
                    assert forall|a: int, b: int| 0 <= a < t.len() && 0 <= b < t.len() && a != b implies t[a] != t[b] by {
                        if a < old_reads.len() && b < old_reads.len() {
                        } else if a < old_reads.len() {
                            assert(old_reads.contains(t[a]));
                        } else {
                            assert(old_reads.contains(t[b]));
                        }
                    }
                }
            }
            assert forall|s: SlotId| #[trigger] ns.contains_key(s) implies ns[s]@.no_duplicates() by {
                if s == slot_id {
                    let t = old_list.push(effect_id);
                    assert forall|a: int, b: int| 0 <= a < t.len() && 0 <= b < t.len() && a != b implies t[a] != t[b] by {
                        if a < old_list.len() && b < old_list.len() {
                        } else if a < old_list.len() {
                            assert(old_list.contains(t[a]));
                        } else {
                            assert(old_list.contains(t[b]));
                        }
                    }
                }
            }
            assert forall|e: EffectId, s: SlotId|
                #![trigger ne[e].tracked_slots@.contains(s)]
                ne.contains_key(e) && ne[e].tracked_slots@.contains(s) implies ns.contains_key(s) && ns[s]@.contains(e) by {
                if e == effect_id && s == slot_id {
                    assert(ns[s]@[old_list.len() as int] == e);
                } else if e == effect_id {
                    let j = choose|j: int| 0 <= j < ne[e].tracked_slots@.len() && ne[e].tracked_slots@[j] == s;
                    assert(old_reads[j] == s);
                    assert(oe[e].tracked_slots@.contains(s));
                } else {
                    assert(oe[e].tracked_slots@.contains(s));
                    if s == slot_id {
                        assert(os[s]@.contains(e));
                        let j = choose|j: int| 0 <= j < old_list.len() && old_list[j] == e;
                        assert(ns[s]@[j] == e);
                    }
                }
            }
            assert forall|e: EffectId, s: SlotId|
                #![trigger ns[s]@.contains(e)]
                ns.contains_key(s) && ns[s]@.contains(e) implies ne.contains_key(e) && ne[e].tracked_slots@.contains(s) by {
                if s == slot_id {
                    let j = choose|j: int| 0 <= j < ns[s]@.len() && ns[s]@[j] == e;
                    if j == old_list.len() {
                        assert(ne[e].tracked_slots@[old_reads.len() as int] == s);
                    } else {
                        assert(old_list[j] == e);
                        assert(os[s]@.contains(e));
                        if e == effect_id {
                            assert(ne[e].tracked_slots@[old_reads.len() as int] == s);
                        } else {
                            assert(oe[e].tracked_slots@.contains(s));
                        }
                    }
                } else {
                    assert(os[s]@.contains(e));
                    assert(oe[e].tracked_slots@.contains(s));
                    if e == effect_id {
                        let j = choose|j: int| 0 <= j < old_reads.len() && old_reads[j] == s;
                        assert(ne[e].tracked_slots@[j] == s);
                    }
                }
            }
            assert(self.callbacks() =~= old(self).callbacks());
            assert(self.reads() =~= old(self).reads().insert(effect_id, old(self).reads()[effect_id].push(slot_id)));
            assert(self.subscribers() =~= old(self).subscribers().insert(
                slot_id,
                if old(self).subscribers().contains_key(slot_id) {
                    old(self).subscribers()[slot_id].push(effect_id)
                } else {
                    seq![effect_id]
                },
            ));
        }
    }

    /// The effects to run after `dirty_slots` changed: those subscribed to any
    /// of them, in order of the slots and then of subscription, each once.
    pub fn run_slots(&self, dirty_slots: &[SlotId]) -> (r: Vec<EffectId>)
        ensures
            r@ == collect_spec(self.subscribers(), dirty_slots@),
    {
        let mut collected: Vec<EffectId> = Vec::new();
        let mut i: usize = 0;
        proof {
            assert(dirty_slots@.subrange(0, 0) =~= Seq::<SlotId>::empty());
        }
        while i < dirty_slots.len()
            invariant
                i <= dirty_slots@.len(),
                collected@ == collect_spec(self.subscribers(), dirty_slots@.subrange(0, i as int)),
            decreases dirty_slots.len() - i,
        {
            let slot_id = dirty_slots[i];
            let ghost prev = collected@;
            proof {
                assert(dirty_slots@.subrange(0, i + 1).drop_last() =~= dirty_slots@.subrange(0, i as int));
            }
            match self.slot_effects.get(&slot_id) {
                Some(list) => {
                    let mut j: usize = 0;
                    proof {
                        assert(list@.subrange(0, 0) =~= Seq::<EffectId>::empty());
                    }
                    while j < list.len()
                        invariant
                            j <= list@.len(),
                            collected@ == append_new(prev, list@.subrange(0, j as int)),
                        decreases list.len() - j,
                    {
                        let eid = list[j];
                        proof {
                            assert(list@.subrange(0, j + 1).drop_last() =~= list@.subrange(0, j as int));
                        }
                        if !contains_id(&collected, eid) {
                            collected.push(eid);
                        }
                        j = j + 1;
                    }
                    proof {
                        assert(list@.subrange(0, j as int) =~= list@);
                        assert(self.subscribers()[slot_id] == list@);
                    }
                },
                None => {},
            }
            i = i + 1;
        }
        proof {
            assert(dirty_slots@.subrange(0, i as int) =~= dirty_slots@);
        }
        collected
    }

    /// Readies effect `id` to run: it forgets the slots it read and leaves
    /// their subscriber lists, and its callback is handed out to be run while
    /// it is the current effect. `None` where no effect has that identity.
    pub fn run_effect_by_id(&mut self, id: EffectId) -> (r: Option<&C>)
        requires
            old(self).wf(),
        ensures
            final(self).wf(),
            final(self).callbacks() == old(self).callbacks(),
            final(self).next_id_spec() == old(self).next_id_spec(),
            old(self).callbacks().contains_key(id) ==> {
                &&& r is Some
                &&& *r.unwrap() == old(self).callbacks()[id]
                &&& final(self).reads() == old(self).reads().insert(id, Seq::<SlotId>::empty())
                &&& final(self).subscribers() == old(self).subscribers().map_values(|l: Seq<EffectId>| without(l, id))
            },
            !old(self).callbacks().contains_key(id) ==> {
                &&& r is None
                &&& final(self).reads() == old(self).reads()
                &&& final(self).subscribers() == old(self).subscribers()
            },
    {
        let mut effect = match self.effects.remove(&id) {
            Some(effect) => effect,
            None => {
                proof {
                    assert(self.effects@ =~= old(self).effects@);
                }
                return None;
            },
        };
        let ghost subs0 = self.slot_effects@;
        let mut old_slots: Vec<SlotId> = Vec::new();
        std::mem::swap(&mut old_slots, &mut effect.tracked_slots);
        self.unsubscribe_all(&old_slots, id);
        proof {
            assert forall|s: SlotId| #[trigger] self.slot_effects@.contains_key(s) implies self.slot_effects@[s]@ == without(subs0[s]@, id) by {
                if !old_slots@.contains(s) {
                    if subs0[s]@.contains(id) {
                        assert(old(self).effects@[id].tracked_slots@.contains(s));
                    }
                    lemma_without_absent(subs0[s]@, id);
                }
            }
        }
        self.effects.insert(id, effect);
        proof {
            let ne = self.effects@;
            let ns = self.slot_effects@;
            assert forall|s: SlotId| #[trigger] ns.contains_key(s) implies ns[s]@.no_duplicates() by {
                lemma_without_props(subs0[s]@, id);
            }
            assert forall|e: EffectId, s: SlotId|
                #![trigger ne[e].tracked_slots@.contains(s)]
                ne.contains_key(e) && ne[e].tracked_slots@.contains(s) implies ns.contains_key(s) && ns[s]@.contains(e) by {
                if e != id {
                    assert(old(self).effects@[e].tracked_slots@.contains(s));
                    assert(subs0[s]@.contains(e));
                    lemma_without_props(subs0[s]@, id);
                }
            }
            assert forall|e: EffectId, s: SlotId|
                #![trigger ns[s]@.contains(e)]
                ns.contains_key(s) && ns[s]@.contains(e) implies ne.contains_key(e) && ne[e].tracked_slots@.contains(s) by {
                lemma_without_props(subs0[s]@, id);
                assert(subs0[s]@.contains(e));
            }
            assert(self.callbacks() =~= old(self).callbacks());
            assert(self.reads() =~= old(self).reads().insert(id, Seq::<SlotId>::empty()));
            assert(self.subscribers() =~= old(self).subscribers().map_values(|l: Seq<EffectId>| without(l, id)));
        }
        match self.effects.get(&id) {
            Some(e) => Some(&e.callback),
            None => None,
        }
    }
}


/// What `append_new` holds: the elements of both sequences; and no element
/// twice where `acc` holds none twice.
proof fn lemma_append_new(acc: Seq<EffectId>, list: Seq<EffectId>)
    ensures
        forall|x: EffectId| #[trigger] append_new(acc, list).contains(x) <==> (acc.contains(x) || list.contains(x)),
        acc.no_duplicates() ==> append_new(acc, list).no_duplicates(),
    decreases list.len(),
{
    if list.len() > 0 {
        let rest = list.drop_last();
        lemma_append_new(acc, rest);
        let a = append_new(acc, rest);
        assert forall|x: EffectId| list.contains(x) <==> (rest.contains(x) || x == list.last()) by {
            if list.contains(x) {
                let k = choose|k: int| 0 <= k < list.len() && list[k] == x;
                if k < list.len() - 1 {
                    assert(rest[k] == x);
                }
            }
            if rest.contains(x) {
                let k = choose|k: int| 0 <= k < rest.len() && rest[k] == x;
                assert(list[k] == x);
            }
            if x == list.last() {
                assert(list[list.len() - 1] == x);
            }
        }
        if !a.contains(list.last()) {
            assert forall|x: EffectId| #[trigger] a.push(list.last()).contains(x) <==> (a.contains(x) || x == list.last()) by {
                if a.push(list.last()).contains(x) {
                    let k = choose|k: int| 0 <= k < a.len() + 1 && a.push(list.last())[k] == x;
                    if k < a.len() {
                        assert(a[k] == x);
                    }
                }
                if a.contains(x) {
                    let k = choose|k: int| 0 <= k < a.len() && a[k] == x;
                    assert(a.push(list.last())[k] == x);
                }
                if x == list.last() {
                    assert(a.push(list.last())[a.len() as int] == x);
                }
            }
        }
    }
}

/// What `collect_spec` holds: every effect subscribed to one of the slots,
/// none twice.
proof fn lemma_collect(subs: Map<SlotId, Seq<EffectId>>, dirty: Seq<SlotId>)
    ensures
        collect_spec(subs, dirty).no_duplicates(),
        forall|x: EffectId| #[trigger] collect_spec(subs, dirty).contains(x) <==> exists|j: int|
            0 <= j < dirty.len() && subs.contains_key(#[trigger] dirty[j]) && subs[dirty[j]].contains(x),
    decreases dirty.len(),
{
    if dirty.len() > 0 {
        let rest = dirty.drop_last();
        lemma_collect(subs, rest);
        let prev = collect_spec(subs, rest);
        let s = dirty.last();
        if subs.contains_key(s) {
            lemma_append_new(prev, subs[s]);
        }
        assert forall|x: EffectId| #[trigger] collect_spec(subs, dirty).contains(x) <==> exists|j: int|
            0 <= j < dirty.len() && subs.contains_key(#[trigger] dirty[j]) && subs[dirty[j]].contains(x) by {
            if collect_spec(subs, dirty).contains(x) {
                if prev.contains(x) {
                    let j = choose|j: int| 0 <= j < rest.len() && subs.contains_key(#[trigger] rest[j]) && subs[rest[j]].contains(x);
                    assert(dirty[j] == rest[j]);
                } else {
                    assert(dirty[dirty.len() - 1] == s);
                }
            }
            if exists|j: int| 0 <= j < dirty.len() && subs.contains_key(#[trigger] dirty[j]) && subs[dirty[j]].contains(x) {
                let j = choose|j: int| 0 <= j < dirty.len() && subs.contains_key(#[trigger] dirty[j]) && subs[dirty[j]].contains(x);
                if j < dirty.len() - 1 {
                    assert(rest[j] == dirty[j]);
                }
            }
        }
    }
}

impl<C> Effects<C> {
    /// After a change, only registered effects run, and each at most once.
    pub proof fn law_only_registered_effects_run(&self, dirty: Seq<SlotId>)
        requires
            self.wf(),
        ensures
            collect_spec(self.subscribers(), dirty).no_duplicates(),
            forall|x: EffectId| #[trigger] collect_spec(self.subscribers(), dirty).contains(x) ==> self.callbacks().contains_key(x),
    {
        lemma_collect(self.subscribers(), dirty);
        assert forall|x: EffectId| #[trigger] collect_spec(self.subscribers(), dirty).contains(x) implies self.callbacks().contains_key(x) by {
            let j = choose|j: int| 0 <= j < dirty.len() && self.subscribers().contains_key(#[trigger] dirty[j]) && self.subscribers()[dirty[j]].contains(x);
            let s = dirty[j];
            assert(self.slot_effects@.contains_key(s) && self.slot_effects@[s]@.contains(x));
        }
    }

    /// A disposed effect (one the registry no longer holds) never runs again.
    pub proof fn law_disposed_effect_never_runs(&self, id: EffectId, dirty: Seq<SlotId>)
        requires
            self.wf(),
            !self.callbacks().contains_key(id),
        ensures
            !collect_spec(self.subscribers(), dirty).contains(id),
    {
        self.law_only_registered_effects_run(dirty);
    }

    /// An effect that read a slot in its last run runs when that slot changes.
    pub proof fn law_reader_runs_on_change(&self, id: EffectId, slot: SlotId, dirty: Seq<SlotId>)
        requires
            self.wf(),
            self.reads().contains_key(id),
            self.reads()[id].contains(slot),
            dirty.contains(slot),
        ensures
            collect_spec(self.subscribers(), dirty).contains(id),
    {
        lemma_collect(self.subscribers(), dirty);
        assert(self.effects@[id].tracked_slots@.contains(slot));
        assert(self.slot_effects@.contains_key(slot) && self.slot_effects@[slot]@.contains(id));
        let j = choose|j: int| 0 <= j < dirty.len() && dirty[j] == slot;
        assert(self.subscribers().contains_key(dirty[j]) && self.subscribers()[dirty[j]].contains(id));
    }
}


impl<C> Effects<C> {
    /// What a well-formed registry keeps: the registered effects are those
    /// whose reads it holds; a subscriber list holds no effect twice; an
    /// effect is subscribed to a slot exactly when it read that slot in its
    /// last run, so only registered effects are listed.
    pub proof fn law_registry_consistent(&self)
        requires
            self.wf(),
        ensures
            self.reads().dom() == self.callbacks().dom(),
            forall|e: EffectId| #[trigger] self.reads().contains_key(e) ==> self.reads()[e].no_duplicates() && e < self.next_id_spec(),
            forall|s: SlotId| #[trigger] self.subscribers().contains_key(s) ==> self.subscribers()[s].no_duplicates(),
            forall|s: SlotId, e: EffectId|
                self.subscribers().contains_key(s) && #[trigger] self.subscribers()[s].contains(e) ==> self.callbacks().contains_key(e) && self.reads()[e].contains(s),
            forall|e: EffectId, s: SlotId|
                self.reads().contains_key(e) && #[trigger] self.reads()[e].contains(s) ==> self.subscribers().contains_key(s) && self.subscribers()[s].contains(e),
    {
        assert(self.reads().dom() =~= self.callbacks().dom());
        assert forall|s: SlotId, e: EffectId|
            self.subscribers().contains_key(s) && #[trigger] self.subscribers()[s].contains(e) implies self.callbacks().contains_key(e) && self.reads()[e].contains(s) by {
            assert(self.slot_effects@[s]@.contains(e));
        }
        assert forall|e: EffectId, s: SlotId|
            self.reads().contains_key(e) && #[trigger] self.reads()[e].contains(s) implies self.subscribers().contains_key(s) && self.subscribers()[s].contains(e) by {
            assert(self.effects@[e].tracked_slots@.contains(s));
        }
    }
}

/// Effects held back while a batch of changes is under way.
pub struct Batch {
    /// A batch is under way.
    pub active: bool,
    /// The effects to run when it ends, in order.
    pub queue: Vec<EffectId>,
}

impl<C> Effects<C> {
    /// The effects to run now after `dirty_slots` changed (see
    /// [`collect_spec`]): inside a batch none runs now and they join the
    /// batch's queue instead.
    pub fn schedule(&self, dirty_slots: &[SlotId], batch: &mut Batch) -> (run_now: Vec<EffectId>)
        ensures
            final(batch).active == old(batch).active,
            old(batch).active ==> {
                &&& run_now@ == Seq::<EffectId>::empty()
                &&& final(batch).queue@ == old(batch).queue@ + collect_spec(self.subscribers(), dirty_slots@)
            },
            !old(batch).active ==> {
                &&& run_now@ == collect_spec(self.subscribers(), dirty_slots@)
                &&& final(batch).queue@ == old(batch).queue@
            },
    {
        let ids = self.run_slots(dirty_slots);
        if batch.active {
            let mut ids = ids;
            batch.queue.append(&mut ids);
            Vec::new()
        } else {
            ids
        }
    }

    /// Records every read of `slots`, in order, by the running effect
    /// `current` (see [`Effects::track_read`]).
    pub fn track_reads(&mut self, current: Option<EffectId>, slots: &[SlotId])
        requires
            old(self).wf(),
        ensures
            final(self).wf(),
            final(self).callbacks() == old(self).callbacks(),
            final(self).next_id_spec() == old(self).next_id_spec(),
            match current {
                Some(e) => if old(self).reads().contains_key(e) {
                    final(self).reads() == old(self).reads().insert(e, append_new(old(self).reads()[e], slots@))
                } else {
                    &&& final(self).reads() == old(self).reads()
                    &&& final(self).subscribers() == old(self).subscribers()
                },
                None => {
                    &&& final(self).reads() == old(self).reads()
                    &&& final(self).subscribers() == old(self).subscribers()
                },
            },
    {
        let mut i: usize = 0;
        proof {
            assert(slots@.subrange(0, 0) =~= Seq::<SlotId>::empty());
            if let Some(e) = current {
                if old(self).reads().contains_key(e) {
                    assert(old(self).reads().insert(e, old(self).reads()[e]) =~= old(self).reads());
                }
            }
        }
        while i < slots.len()
            invariant
                i <= slots@.len(),
                self.wf(),
                self.callbacks() == old(self).callbacks(),
                self.next_id_spec() == old(self).next_id_spec(),
                match current {
                    Some(e) => if old(self).reads().contains_key(e) {
                        self.reads() == old(self).reads().insert(e, append_new(old(self).reads()[e], slots@.subrange(0, i as int)))
                    } else {
                        &&& self.reads() == old(self).reads()
                        &&& self.subscribers() == old(self).subscribers()
                    },
                    None => {
                        &&& self.reads() == old(self).reads()
                        &&& self.subscribers() == old(self).subscribers()
                    },
                },
            decreases slots.len() - i,
        {
            let ghost before = self.reads();
            self.track_read(current, slots[i]);
            proof {
                assert(slots@.subrange(0, i + 1).drop_last() =~= slots@.subrange(0, i as int));
                assert(slots@.subrange(0, i + 1).last() == slots@[i as int]);
                if let Some(e) = current {
                    if old(self).reads().contains_key(e) {
                        assert(self.reads() =~= old(self).reads().insert(e, append_new(old(self).reads()[e], slots@.subrange(0, i + 1))));
                    }
                }
            }
            i = i + 1;
        }
        proof {
            assert(slots@.subrange(0, i as int) =~= slots@);
        }
    }

    /// An effect run anew subscribes exactly to the slots it read in that
    /// run: after [`Effects::run_effect_by_id`] forgot its reads and
    /// [`Effects::track_reads`] recorded those of the run, it is listed for a
    /// slot exactly when the run read that slot.
    pub proof fn law_rerun_subscribes_exactly(&self, id: EffectId, read: Seq<SlotId>, slot: SlotId)
        requires
            self.wf(),
            self.reads().contains_key(id),
            self.reads()[id] == append_new(Seq::<SlotId>::empty(), read),
        ensures
            (self.subscribers().contains_key(slot) && self.subscribers()[slot].contains(id)) <==> read.contains(slot),
    {
        self.law_registry_consistent();
        lemma_append_new(Seq::<SlotId>::empty(), read);
        assert(!Seq::<SlotId>::empty().contains(slot));
        if self.subscribers().contains_key(slot) && self.subscribers()[slot].contains(id) {
            assert(self.reads()[id].contains(slot));
        }
        if read.contains(slot) {
            assert(self.reads()[id].contains(slot));
        }
    }
}

/// Effects registered one after another on a new registry get the
/// identities 0, 1, 2, ... in order, none twice. `nexts` are the registry's
/// next identities before each registration and after the last (`new`
/// gives 0; each `register` returns the next identity and adds one to it).
pub proof fn law_ids_count_up(nexts: Seq<u32>, ids: Seq<u32>)
    requires
        nexts.len() == ids.len() + 1,
        nexts[0] == 0,
        forall|i: int| 0 <= i < ids.len() ==> #[trigger] ids[i] == nexts[i] && nexts[i + 1] == nexts[i] + 1,
    ensures
        forall|i: int| 0 <= i < ids.len() ==> #[trigger] ids[i] == i,
        forall|i: int, j: int| 0 <= i < j < ids.len() ==> #[trigger] ids[i] != #[trigger] ids[j],
    decreases ids.len(),
{
    if ids.len() > 0 {
        let n = ids.len() - 1;
        law_ids_count_up(nexts.subrange(0, n + 1), ids.subrange(0, n));
        assert forall|i: int| 0 <= i < ids.len() implies #[trigger] ids[i] == i by {
            if i < n {
                assert(ids.subrange(0, n)[i] == ids[i]);
            } else {
                assert(ids.subrange(0, n)[n - 1] == ids[n - 1] || n == 0);
                if n > 0 {
                    assert(nexts[n] == nexts[n - 1] + 1);
                    assert(ids[n - 1] == nexts[n - 1]);
                }
            }
        }
    }
}
} // verus!
