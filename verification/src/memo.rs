use vstd::prelude::*;
use crate::effects::{Effects, EffectId, SlotId};
use crate::proxy::{MemoInit, Slots};
use std::marker::PhantomData;

verus! {

/// The slot of an installed memo and the effect that recomputes it.
pub struct MemoInner<T> {
    pub slot_id: SlotId,
    pub effect_id: EffectId,
    pub _phantom: PhantomData<T>,
}

/// A derived value: a slot that an effect recomputes whenever a slot that
/// the derivation read changes.
pub struct Memo<T> {
    inner: Option<MemoInner<T>>,
}

impl<T> Memo<T> {
    /// The slot and effect of the memo, once installed.
    pub closed spec fn installed_spec(&self) -> Option<(SlotId, EffectId)> {
        match self.inner {
            Some(i) => Some((i.slot_id, i.effect_id)),
            None => None,
        }
    }

    /// A memo not installed yet.
    pub fn uninit() -> (r: Memo<T>)
        ensures
            r.installed_spec() is None,
    {
        Memo { inner: None }
    }

    /// The slot and effect of the installed memo.
    pub fn inner_ref(&self) -> (r: &MemoInner<T>)
        requires
            self.installed_spec() is Some,
        ensures
            (r.slot_id, r.effect_id) == self.installed_spec().unwrap(),
    {
        self.inner.as_ref().unwrap()
    }

    /// The slot of the installed memo.
    pub fn id(&self) -> (r: SlotId)
        requires
            self.installed_spec() is Some,
        ensures
            r == self.installed_spec().unwrap().0,
    {
        self.inner_ref().slot_id
    }

    /// Installs the memo on `slot_id`: the slot is allocated holding the
    /// first derived value `first`, and the recomputation `callback` is
    /// registered as a new effect, which has read nothing yet.
    pub fn install<C>(
        &mut self,
        effects: &mut Effects<C>,
        slots: &mut Slots<T>,
        slot_id: SlotId,
        first: T,
        callback: C,
    ) -> (id: EffectId)
        requires
            old(self).installed_spec() is None,
            old(effects).wf(),
            old(effects).next_id_spec() < u32::MAX,
        ensures
            final(self).installed_spec() == Some((slot_id, id)),
            final(slots).view() == old(slots).view().insert(slot_id, first),
            id == old(effects).next_id_spec(),
            final(effects).wf(),
            final(effects).callbacks() == old(effects).callbacks().insert(id, callback),
            final(effects).reads() == old(effects).reads().insert(id, Seq::<SlotId>::empty()),
            final(effects).subscribers() == old(effects).subscribers(),
            final(effects).next_id_spec() == id + 1,
    {
        let id = effects.register(callback);
        slots.allocate(slot_id, first);
        self.inner = Some(MemoInner { slot_id, effect_id: id, _phantom: PhantomData });
        id
    }

    /// The memo's current value.
    pub fn get<'a>(&self, slots: &'a Slots<T>) -> (r: &'a T)
        requires
            self.installed_spec() is Some,
            slots.view().contains_key(self.installed_spec().unwrap().0),
        ensures
            *r == slots.view()[self.installed_spec().unwrap().0],
    {
        slots.read(self.id())
    }

    /// A recomputation gave `value`; `equal` tells that it equals the value
    /// held. The slot is written, with `value`, exactly when it differs.
    pub fn recompute(&self, slots: &mut Slots<T>, value: T, equal: bool) -> (written: bool)
        requires
            self.installed_spec() is Some,
        ensures
            written == !equal,
            final(slots).view() == if equal {
                old(slots).view()
            } else {
                old(slots).view().insert(self.installed_spec().unwrap().0, value)
            },
    {
        if equal {
            return false;
        }
        slots.allocate(self.id(), value);
        true
    }
}

impl<F: Fn() -> T, T> MemoInit<F, T> {
    /// Installs the declared memo on `slot_id`: the derivation runs once for
    /// the first value, which the slot holds (see [`Memo::install`]).
    pub fn install<C>(
        self,
        memo: &mut Memo<T>,
        effects: &mut Effects<C>,
        slots: &mut Slots<T>,
        slot_id: SlotId,
        callback: C,
    ) -> (id: EffectId)
        requires
            old(memo).installed_spec() is None,
            old(effects).wf(),
            old(effects).next_id_spec() < u32::MAX,
            self.derive.requires(()),
        ensures
            final(memo).installed_spec() == Some((slot_id, id)),
            final(slots).view().dom() == old(slots).view().dom().insert(slot_id),
            self.derive.ensures((), final(slots).view()[slot_id]),
            forall|k: SlotId| k != slot_id && #[trigger] old(slots).view().contains_key(k) ==> final(slots).view()[k] == old(slots).view()[k],
            id == old(effects).next_id_spec(),
            final(effects).wf(),
            final(effects).callbacks() == old(effects).callbacks().insert(id, callback),
            final(effects).reads() == old(effects).reads().insert(id, Seq::<SlotId>::empty()),
    {
        let first = (self.derive)();
        memo.install(effects, slots, slot_id, first, callback)
    }
}

} // verus!
