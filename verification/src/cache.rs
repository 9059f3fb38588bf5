use vstd::prelude::*;
use std::collections::HashMap;
use crate::effects::SlotId;
use crate::frame::{RenderPlan, render_plan, render_plan_spec};
use crate::mouse::{OwnerId, Rect};

verus! {

broadcast use vstd::std_specs::hash::group_hash_axioms;

/// What the last render of a component declared: its area, the slots it
/// and its children read, its mouse regions and overlays (of types `R` and
/// `O`), its parent and its children.
pub struct CacheEntry<R, O> {
    pub area: Option<Rect>,
    pub own_slots: Vec<SlotId>,
    pub child_slots: Vec<SlotId>,
    pub regions: Vec<R>,
    pub overlays: Vec<O>,
    pub mouse_dirty: bool,
    pub parent: Option<OwnerId>,
    pub children: Vec<OwnerId>,
}

/// The spec view of a [`CacheEntry`].
pub struct CacheView<R, O> {
    pub area: Option<Rect>,
    pub own_slots: Seq<SlotId>,
    pub child_slots: Seq<SlotId>,
    pub regions: Seq<R>,
    pub overlays: Seq<O>,
    pub mouse_dirty: bool,
    pub parent: Option<OwnerId>,
    pub children: Seq<OwnerId>,
}

impl<R, O> CacheEntry<R, O> {
    pub open spec fn view(&self) -> CacheView<R, O> {
        CacheView {
            area: self.area,
            own_slots: self.own_slots@,
            child_slots: self.child_slots@,
            regions: self.regions@,
            overlays: self.overlays@,
            mouse_dirty: self.mouse_dirty,
            parent: self.parent,
            children: self.children@,
        }
    }
}

/// One thing a cached component declares again when its render is reused.
#[derive(Debug, Clone, Copy, PartialEq, Eq)]
pub enum ReplayStep<R, O> {
    /// Register the mouse region again, for its owner.
    Region(OwnerId, R),
    /// Draw the overlay again.
    Overlay(O),
}

/// What a component declared, then what its children declared, in order,
/// each child's own declarations before those of its children (a pre-order
/// walk), for at most `fuel` levels.
pub open spec fn replay_spec<R, O>(m: Map<OwnerId, CacheView<R, O>>, owner: OwnerId, fuel: nat) -> Seq<ReplayStep<R, O>>
    decreases fuel, 0nat,
{
    if fuel == 0 || !m.contains_key(owner) {
        Seq::empty()
    } else {
        let e = m[owner];
        e.regions.map(|i: int, r: R| ReplayStep::<R, O>::Region(owner, r))
            + e.overlays.map(|i: int, o: O| ReplayStep::<R, O>::Overlay(o))
            + replay_list_spec(m, e.children, (fuel - 1) as nat)
    }
}

/// The replays of `kids`, one after another.
pub open spec fn replay_list_spec<R, O>(m: Map<OwnerId, CacheView<R, O>>, kids: Seq<OwnerId>, fuel: nat) -> Seq<ReplayStep<R, O>>
    decreases fuel, kids.len() + 1,
{
    if kids.len() == 0 {
        Seq::empty()
    } else {
        replay_list_spec(m, kids.drop_last(), fuel) + replay_spec(m, kids.last(), fuel)
    }
}

/// A reused render of a cached component declares first its own mouse
/// regions, in the order its render declared them and each for it as owner,
/// then its own overlays in their order, then what its children declared.
pub proof fn law_replay_keeps_declared_order<R, O>(m: Map<OwnerId, CacheView<R, O>>, owner: OwnerId, fuel: nat)
    requires
        m.contains_key(owner),
        fuel >= 1,
    ensures
        replay_spec(m, owner, fuel).len() >= m[owner].regions.len() + m[owner].overlays.len(),
        forall|k: int| 0 <= k < m[owner].regions.len() ==>
            #[trigger] replay_spec(m, owner, fuel)[k] == ReplayStep::<R, O>::Region(owner, m[owner].regions[k]),
        forall|k: int| 0 <= k < m[owner].overlays.len() ==>
            #[trigger] replay_spec(m, owner, fuel)[m[owner].regions.len() + k] == ReplayStep::<R, O>::Overlay(m[owner].overlays[k]),
        replay_spec(m, owner, fuel).subrange(
            (m[owner].regions.len() + m[owner].overlays.len()) as int,
            replay_spec(m, owner, fuel).len() as int,
        ) == replay_list_spec(m, m[owner].children, (fuel - 1) as nat),
{
    let e = m[owner];
    let a = e.regions.map(|i: int, r: R| ReplayStep::<R, O>::Region(owner, r));
    let b = e.overlays.map(|i: int, o: O| ReplayStep::<R, O>::Overlay(o));
    let c = replay_list_spec(m, e.children, (fuel - 1) as nat);
    assert(replay_spec(m, owner, fuel) == a + b + c);
    assert((a + b + c).subrange((a.len() + b.len()) as int, (a + b + c).len() as int) =~= c);
}

/// What a render recorded (as `record_render` does) is what a reuse of it
/// declares first: the recorded regions in their order, for that owner,
/// then the recorded overlays in theirs.
pub proof fn law_recorded_render_replays<R, O>(
    before: Map<OwnerId, CacheView<R, O>>,
    owner: OwnerId,
    entry: CacheView<R, O>,
    fuel: nat,
)
    requires
        fuel >= 1,
    ensures
        forall|k: int| 0 <= k < entry.regions.len() ==>
            #[trigger] replay_spec(before.insert(owner, entry), owner, fuel)[k] == ReplayStep::<R, O>::Region(owner, entry.regions[k]),
        forall|k: int| 0 <= k < entry.overlays.len() ==>
            #[trigger] replay_spec(before.insert(owner, entry), owner, fuel)[entry.regions.len() + k] == ReplayStep::<R, O>::Overlay(entry.overlays[k]),
{
    law_replay_keeps_declared_order(before.insert(owner, entry), owner, fuel);
}

/// A cached component with no cache entry, or a walk with no depth left,
/// declares nothing again.
pub proof fn law_replay_of_unknown_is_empty<R, O>(m: Map<OwnerId, CacheView<R, O>>, owner: OwnerId, fuel: nat)
    requires
        !m.contains_key(owner) || fuel == 0,
    ensures
        replay_spec(m, owner, fuel).len() == 0,
{
}

/// Some slot of `slots` is among `dirty`.
pub open spec fn any_dirty_spec(slots: Seq<SlotId>, dirty: Seq<SlotId>) -> bool {
    exists|i: int| 0 <= i < slots.len() && dirty.contains(#[trigger] slots[i])
}

/// The render caches of the components, by owner.
pub struct ComponentCaches<R, O> {
    entries: HashMap<OwnerId, CacheEntry<R, O>>,
}

fn holds_slot(v: &[SlotId], s: SlotId) -> (b: bool)
    ensures
        b == v@.contains(s),
{
    let mut i: usize = 0;
    while i < v.len()
        invariant
            i <= v@.len(),
            forall|j: int| 0 <= j < i ==> v@[j] != s,
        decreases v.len() - i,
    {
        if v[i] == s {
            return true;
        }
        i = i + 1;
    }
    false
}

fn any_dirty(slots: &Vec<SlotId>, dirty: &[SlotId]) -> (b: bool)
    ensures
        b == any_dirty_spec(slots@, dirty@),
{
    let mut i: usize = 0;
    while i < slots.len()
        invariant
            i <= slots@.len(),
            forall|j: int| 0 <= j < i ==> !dirty@.contains(#[trigger] slots@[j]),
        decreases slots.len() - i,
    {
        if holds_slot(dirty, slots[i]) {
            assert(dirty@.contains(slots@[i as int]));
            return true;
        }
        i = i + 1;
    }
    false
}

impl<R: Copy, O: Copy> ComponentCaches<R, O> {
    pub closed spec fn view(&self) -> Map<OwnerId, CacheView<R, O>> {
        self.entries@.map_values(|e: CacheEntry<R, O>| e.view())
    }

    /// The caches hold finitely many components, so a walk as deep as their
    /// number reaches every level of a tree of them.
    pub proof fn law_cache_finite(&self)
        ensures
            self.view().dom().finite(),
    {
        assert(self.view().dom() =~= self.entries@.dom());
    }

    /// No component rendered yet.
    pub fn new() -> (r: ComponentCaches<R, O>)
        ensures
            r.view() == Map::<OwnerId, CacheView<R, O>>::empty(),
            r.view().dom().finite(),
    {
        let r = ComponentCaches { entries: HashMap::new() };
        assert(r.view() =~= Map::<OwnerId, CacheView<R, O>>::empty());
        r
    }

    /// What a render of `owner` in `area` declared replaces its cache entry:
    /// the slots it read directly and through its children, its mouse
    /// regions, overlays, parent and children; its mouse regions are clean.
    pub fn record_render(
        &mut self,
        owner: OwnerId,
        area: Rect,
        own_slots: Vec<SlotId>,
        child_slots: Vec<SlotId>,
        regions: Vec<R>,
        overlays: Vec<O>,
        parent: Option<OwnerId>,
        children: Vec<OwnerId>,
    )
        ensures
            final(self).view() == old(self).view().insert(
                owner,
                CacheView {
                    area: Some(area),
                    own_slots: own_slots@,
                    child_slots: child_slots@,
                    regions: regions@,
                    overlays: overlays@,
                    mouse_dirty: false,
                    parent,
                    children: children@,
                },
            ),
            final(self).view().dom().finite(),
    {
        let entry = CacheEntry { area: Some(area), own_slots, child_slots, regions, overlays, mouse_dirty: false, parent, children };
        self.entries.insert(owner, entry);
        assert(self.view() =~= old(self).view().insert(owner, entry.view()));
        proof {
            self.law_cache_finite();
        }
    }

    /// Marks the mouse regions of `owner` as changed, where it has an entry.
    pub fn mark_mouse_dirty(&mut self, owner: OwnerId)
        ensures
            final(self).view() == if old(self).view().contains_key(owner) {
                old(self).view().insert(owner, CacheView { mouse_dirty: true, ..old(self).view()[owner] })
            } else {
                old(self).view()
            },
            final(self).view().dom().finite(),
    {
        match self.entries.remove(&owner) {
            Some(mut e) => {
                e.mouse_dirty = true;
                self.entries.insert(owner, e);
                assert(self.view() =~= old(self).view().insert(owner, CacheView { mouse_dirty: true, ..old(self).view()[owner] }));
            },
            None => {
                assert(self.entries@ =~= old(self).entries@);
            },
        }
        proof {
            self.law_cache_finite();
        }
    }

    /// What `owner` does this frame, rendering into `area` with `dirty` the
    /// slots changed and `wiped` telling that the area was cleared: see
    /// [`render_plan_spec`]; a component without an entry has no area yet
    /// and is drawn.
    pub fn plan(&self, owner: OwnerId, area: Rect, dirty: &[SlotId], wiped: bool) -> (r: RenderPlan)
        ensures
            r == match self.view().get(owner) {
                Some(e) => render_plan_spec(
                    any_dirty_spec(e.own_slots, dirty@),
                    any_dirty_spec(e.child_slots, dirty@),
                    e.mouse_dirty,
                    wiped,
                    e.area == Some(area),
                    e.regions.len() > 0 || e.overlays.len() > 0 || e.children.len() > 0,
                ),
                None => render_plan_spec(false, false, false, wiped, false, false),
            },
    {
        match self.entries.get(&owner) {
            Some(e) => {
                let own = any_dirty(&e.own_slots, dirty);
                let child = any_dirty(&e.child_slots, dirty);
                let same = match e.area {
                    Some(a) => a == area,
                    None => false,
                };
                let declared = e.regions.len() > 0 || e.overlays.len() > 0 || e.children.len() > 0;
                render_plan(own, child, e.mouse_dirty, wiped, same, declared)
            },
            None => render_plan(false, false, false, wiped, false, false),
        }
    }

    /// Appends what `owner` and, in pre-order, its children declared (see
    /// [`replay_spec`]), walking at most `fuel` levels.
    fn replay_into(&self, owner: OwnerId, fuel: usize, out: &mut Vec<ReplayStep<R, O>>)
        ensures
            final(out)@ == old(out)@ + replay_spec(self.view(), owner, fuel as nat),
        decreases fuel, 0nat,
    {
        if fuel == 0 {
            assert(old(out)@ + Seq::<ReplayStep<R, O>>::empty() =~= old(out)@);
            return;
        }
        let e = match self.entries.get(&owner) {
            Some(e) => e,
            None => {
                assert(old(out)@ + Seq::<ReplayStep<R, O>>::empty() =~= old(out)@);
                return;
            },
        };
        let ghost v = self.view()[owner];
        assert(v == e.view());
        let mut i: usize = 0;
        while i < e.regions.len()
            invariant
                i <= e.regions@.len(),
                out@ == old(out)@ + e.regions@.subrange(0, i as int).map(|k: int, r: R| ReplayStep::<R, O>::Region(owner, r)),
            decreases e.regions.len() - i,
        {
            out.push(ReplayStep::Region(owner, e.regions[i]));
            i = i + 1;
            assert(out@ =~= old(out)@ + e.regions@.subrange(0, i as int).map(|k: int, r: R| ReplayStep::<R, O>::Region(owner, r)));
        }
        assert(e.regions@.subrange(0, i as int) =~= e.regions@);
        let ghost after_regions = out@;
        let mut j: usize = 0;
        while j < e.overlays.len()
            invariant
                j <= e.overlays@.len(),
                out@ == after_regions + e.overlays@.subrange(0, j as int).map(|k: int, o: O| ReplayStep::<R, O>::Overlay(o)),
            decreases e.overlays.len() - j,
        {
            out.push(ReplayStep::Overlay(e.overlays[j]));
            j = j + 1;
            assert(out@ =~= after_regions + e.overlays@.subrange(0, j as int).map(|k: int, o: O| ReplayStep::<R, O>::Overlay(o)));
        }
        assert(e.overlays@.subrange(0, j as int) =~= e.overlays@);
        let ghost after_overlays = out@;
        let mut k: usize = 0;
        while k < e.children.len()
            invariant
                k <= e.children@.len(),
                fuel > 0,
                out@ == after_overlays + replay_list_spec(self.view(), e.children@.subrange(0, k as int), (fuel - 1) as nat),
            decreases e.children.len() - k,
        {
            let child = e.children[k];
            let ghost before = out@;
            self.replay_into(child, fuel - 1, out);
            proof {
                let kids = e.children@.subrange(0, k + 1);
                assert(kids.drop_last() =~= e.children@.subrange(0, k as int));
                assert(kids.last() == child);
            }
            k = k + 1;
            assert(out@ =~= after_overlays + replay_list_spec(self.view(), e.children@.subrange(0, k as int), (fuel - 1) as nat));
        }
        assert(e.children@.subrange(0, k as int) =~= e.children@);
        assert(out@ =~= old(out)@ + replay_spec(self.view(), owner, fuel as nat));
    }

    /// What a reused render of `owner` declares again: its mouse regions,
    /// then its overlays, then those of its children in pre-order (see
    /// [`replay_spec`]). The walk goes at most as many levels deep as there
    /// are cached components, which a tree of them never exceeds.
    pub fn replay_order(&self, owner: OwnerId) -> (r: Vec<ReplayStep<R, O>>)
        ensures
            r@ == replay_spec(self.view(), owner, self.view().dom().len()),
            self.view().dom().finite(),
            self.view().contains_key(owner) ==> self.view().dom().len() >= 1,
    {
        proof {
            self.law_cache_finite();
            if self.view().contains_key(owner) {
                vstd::set_lib::lemma_set_empty_equivalency_len(self.view().dom());
            }
        }
        let mut out: Vec<ReplayStep<R, O>> = Vec::new();
        let n = self.entries.len();
        proof {
            assert(self.view().dom() =~= self.entries@.dom());
        }
        self.replay_into(owner, n, &mut out);
        assert(out@ =~= replay_spec(self.view(), owner, n as nat));
        out
    }
}

} // verus!
