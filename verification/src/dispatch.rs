use vstd::prelude::*;
use crate::bind::ChordPolicy;
use crate::chord::{Chord, chord_label_spec};
use crate::key::{Key, Code};
use crate::keys::{Keys, completes};
use crate::text::seq_le;
use crate::mods::Mods;
use crate::period::Period;

verus! {

/// Where a chord began: in the bindings of a focused component, of a view,
/// of a registered layer, or in the global bindings.
#[derive(Debug, Clone, Copy, PartialEq, Eq, Hash, Structural)]
pub enum ChordOrigin {
    Focus(u64),
    View(u64),
    Layer(u64),
    Global,
}

/// A chord under way: where it began, the keys pressed so far, and the
/// timeout and policy that apply to it.
#[derive(Debug)]
pub struct PendingChord {
    pub origin: ChordOrigin,
    pub keys: Chord,
    pub timeout: Option<Period>,
    pub policy: ChordPolicy,
}

/// What one step of key dispatch decided.
#[derive(Debug)]
pub enum Step<A> {
    /// Nothing here handles the key.
    Unbound,
    /// The key was handled without an action (it began or advanced a chord,
    /// or was dropped).
    Handled,
    /// Run this action; what it returns is the result.
    Run(A),
}

/// The spec view of a pending chord.
pub open spec fn pending_view(p: PendingChord) -> (ChordOrigin, Seq<Key>, Option<Period>, ChordPolicy) {
    (p.origin, p.keys@, p.timeout, p.policy)
}

/// The step that falls back to the first key of a chord: its single binding
/// in `bindings`, else the key counts as handled.
pub open spec fn fallback_spec<A: Copy>(bindings: Option<Keys<A>>, first: Key) -> Step<A> {
    match bindings {
        Some(b) => if b.single_map().contains_key(first) {
            Step::Run(b.single_map()[first])
        } else {
            Step::Handled
        },
        None => Step::Handled,
    }
}

/// The step for a chord dropped under `policy`.
pub open spec fn dropped_spec<A: Copy>(bindings: Option<Keys<A>>, keys: Seq<Key>, policy: ChordPolicy) -> Step<A> {
    match policy {
        ChordPolicy::Discard => Step::Handled,
        ChordPolicy::Fallback => if keys.len() > 0 { fallback_spec(bindings, keys[0]) } else { Step::Handled },
    }
}

/// One step of `key` in one set of bindings, from the chord state `m`: a key
/// that begins a bound chord starts that chord; else the state stays and the
/// single binding of the key runs, if there is one.
pub open spec fn layer_step_spec<A: Copy>(
    m: Option<(ChordOrigin, Seq<Key>, Option<Period>, ChordPolicy)>,
    key: Key,
    b: Keys<A>,
    origin: ChordOrigin,
) -> (Option<(ChordOrigin, Seq<Key>, Option<Period>, ChordPolicy)>, Step<A>) {
    if b.is_prefix_spec(seq![key]) {
        (Some((origin, seq![key], b.timeout_for_spec(seq![key]), b.policy_for_spec(seq![key]))), Step::Handled)
    } else {
        (m, if b.single_map().contains_key(key) { Step::Run(b.single_map()[key]) } else { Step::Unbound })
    }
}

/// The key that cancels a chord under way.
pub open spec fn esc_spec() -> Key {
    Key { code: Code::Esc, modifiers: Mods(0) }
}

/// One step of `key` while the chord `p` is under way, with the bindings of
/// its origin where they still exist: the chord state after, and the step.
///
/// Esc drops the chord and falls back to its first key. A chord already at
/// [`crate::MAX_CHORD_LEN`] keys is dropped under its policy. Otherwise the
/// key extends the chord: a bound chord runs its action, a proper prefix of
/// a bound chord waits for more keys, and anything else is dropped under the
/// chord's policy.
pub open spec fn pending_step_spec<A: Copy>(
    p: (ChordOrigin, Seq<Key>, Option<Period>, ChordPolicy),
    key: Key,
    bindings: Option<Keys<A>>,
) -> (Option<(ChordOrigin, Seq<Key>, Option<Period>, ChordPolicy)>, Step<A>) {
    let (origin, keys, timeout, policy) = p;
    if key == esc_spec() {
        (None, if keys.len() > 0 { fallback_spec(bindings, keys[0]) } else { Step::Handled })
    } else if keys.len() >= crate::MAX_CHORD_LEN {
        (None, dropped_spec(bindings, keys, policy))
    } else {
        match bindings {
            None => (None, Step::Handled),
            Some(bs) => {
                let next = keys.push(key);
                if bs.chord_map().contains_key(next) {
                    (None, Step::Run(bs.chord_map()[next]))
                } else if bs.is_prefix_spec(next) {
                    (Some((origin, next, bs.timeout_for_spec(next), bs.policy_for_spec(next))), Step::Handled)
                } else {
                    (None, dropped_spec(bindings, keys, policy))
                }
            },
        }
    }
}

/// The keys `keys` fed one after another while a chord is under way in the
/// bindings `b`: the chord state after, and the step of the last key. With
/// no chord under way the feed stops as `Unbound`.
pub open spec fn feed_pending_spec<A: Copy>(
    m: Option<(ChordOrigin, Seq<Key>, Option<Period>, ChordPolicy)>,
    keys: Seq<Key>,
    b: Keys<A>,
) -> (Option<(ChordOrigin, Seq<Key>, Option<Period>, ChordPolicy)>, Step<A>)
    decreases keys.len(),
{
    if keys.len() == 0 {
        (m, Step::Handled)
    } else {
        match m {
            None => (None, Step::Unbound),
            Some(p) => {
                let (m1, step) = pending_step_spec(p, keys[0], Some(b));
                if keys.len() == 1 {
                    (m1, step)
                } else {
                    feed_pending_spec(m1, keys.drop_first(), b)
                }
            },
        }
    }
}

/// The state of chord input: the chord under way, if any.
pub struct ChordMachine {
    pending: Option<PendingChord>,
}

impl ChordMachine {
    pub closed spec fn view(&self) -> Option<(ChordOrigin, Seq<Key>, Option<Period>, ChordPolicy)> {
        match self.pending {
            Some(p) => Some(pending_view(p)),
            None => None,
        }
    }

    /// No chord under way.
    pub fn new() -> (r: ChordMachine)
        ensures
            r.view() == None::<(ChordOrigin, Seq<Key>, Option<Period>, ChordPolicy)>,
    {
        ChordMachine { pending: None }
    }

    /// The chord under way.
    pub fn pending_chord(&self) -> (r: Option<&PendingChord>)
        ensures
            match r {
                Some(p) => self.view() == Some(pending_view(*p)),
                None => self.view() is None,
            },
    {
        match &self.pending {
            Some(p) => Some(p),
            None => None,
        }
    }

    /// Drops the chord under way.
    pub fn reset_chord(&mut self)
        ensures
            final(self).view() is None,
    {
        self.pending = None;
    }

    /// Begins a chord of `origin` with the keys of `prefix`.
    pub fn start_chord(&mut self, origin: ChordOrigin, prefix: Chord, timeout: Option<Period>, policy: ChordPolicy)
        ensures
            final(self).view() == Some((origin, prefix@, timeout, policy)),
    {
        self.pending = Some(PendingChord { origin, keys: prefix, timeout, policy });
    }

    /// Advances the chord under way to the keys of `next`, keeping its origin.
    pub fn update_chord(&mut self, next: Chord, timeout: Option<Period>, policy: ChordPolicy)
        requires
            old(self).view() is Some,
        ensures
            final(self).view() == Some((old(self).view().unwrap().0, next@, timeout, policy)),
    {
        let origin = match &self.pending {
            Some(p) => p.origin,
            None => ChordOrigin::Global,
        };
        self.pending = Some(PendingChord { origin, keys: next, timeout, policy });
    }

    /// The step of `key` in one set of bindings: a key that begins a bound
    /// chord starts that chord; else the single binding of the key, if any.
    pub fn dispatch_layer<A: Copy>(&mut self, key: Key, bindings: &Keys<A>, origin: ChordOrigin) -> (r: Step<A>)
        requires
            bindings.wf(),
        ensures
            (final(self).view(), r) == layer_step_spec(old(self).view(), key, *bindings, origin),
    {
        if bindings.has_chords() {
            let prefix = Chord::from_key(key);
            if bindings.is_chord_prefix(&prefix) {
                let timeout = bindings.timeout_for_prefix(&prefix);
                let policy = bindings.policy_for_prefix(&prefix);
                self.start_chord(origin, prefix, timeout, policy);
                return Step::Handled;
            }
        } else {
            proof {
                if bindings.is_prefix_spec(seq![key]) {
                    let c = choose|c: Seq<Key>| #[trigger] bindings.chord_map().contains_key(c) && crate::keys::is_proper_prefix(seq![key], c);
                    assert(bindings.chord_map().contains_key(c));
                }
            }
        }
        match bindings.dispatch(key) {
            Some(a) => Step::Run(a),
            None => Step::Unbound,
        }
    }

    /// The release action of `key` in one set of bindings; a chord begun in
    /// these bindings is dropped first.
    pub fn dispatch_layer_release<A: Copy>(&mut self, key: Key, bindings: &Keys<A>, origin: ChordOrigin) -> (r: Option<A>)
        requires
            bindings.wf(),
        ensures
            final(self).view() == if old(self).view() is Some && old(self).view().unwrap().0 == origin {
                None
            } else {
                old(self).view()
            },
            r == if bindings.release_map().contains_key(key) { Some(bindings.release_map()[key]) } else { None },
    {
        let drop_it = match &self.pending {
            Some(p) => p.origin == origin,
            None => false,
        };
        if drop_it {
            self.reset_chord();
        }
        bindings.dispatch_release(key)
    }

    /// The repeat action of `key` in one set of bindings.
    pub fn dispatch_layer_repeat<A: Copy>(key: Key, bindings: &Keys<A>, origin: ChordOrigin) -> (r: Option<A>)
        requires
            bindings.wf(),
        ensures
            r == if bindings.repeat_map().contains_key(key) { Some(bindings.repeat_map()[key]) } else { None },
    {
        bindings.dispatch_repeat(key)
    }

    /// Falls back to the first key of a chord in the bindings of its origin.
    pub fn fallback_first<A: Copy>(bindings: Option<&Keys<A>>, first_key: Key) -> (r: Step<A>)
        requires
            bindings matches Some(b) ==> b.wf(),
        ensures
            r == fallback_spec(
                match bindings {
                    Some(b) => Some(*b),
                    None => None,
                },
                first_key,
            ),
    {
        match bindings {
            Some(b) => match b.dispatch(first_key) {
                Some(a) => Step::Run(a),
                None => Step::Handled,
            },
            None => Step::Handled,
        }
    }

    /// The step of `key` while a chord is under way; `bindings` are those of
    /// the chord's origin, where they still exist (see [`pending_step_spec`]).
    pub fn dispatch_pending<A: Copy>(&mut self, key: Key, bindings: Option<&Keys<A>>) -> (r: Step<A>)
        requires
            old(self).view() is Some,
            bindings matches Some(b) ==> b.wf(),
        ensures
            (final(self).view(), r) == pending_step_spec(
                old(self).view().unwrap(),
                key,
                match bindings {
                    Some(b) => Some(*b),
                    None => None,
                },
            ),
    {
        let pending = self.pending.take().unwrap();
        let PendingChord { origin, keys, timeout, policy } = pending;
        if key == Key::esc() {
            return match keys.first() {
                Some(first_key) => Self::fallback_first(bindings, first_key),
                None => Step::Handled,
            };
        }
        if keys.len() >= crate::MAX_CHORD_LEN {
            return match policy {
                ChordPolicy::Discard => Step::Handled,
                ChordPolicy::Fallback => match keys.first() {
                    Some(first_key) => Self::fallback_first(bindings, first_key),
                    None => Step::Handled,
                },
            };
        }
        let first = keys.first();
        let next = keys.followed_by(key);
        let b = match bindings {
            Some(b) => b,
            None => return Step::Handled,
        };
        if let Some(a) = b.dispatch_chord(&next) {
            return Step::Run(a);
        }
        if b.is_chord_prefix(&next) {
            let timeout = b.timeout_for_prefix(&next);
            let policy = b.policy_for_prefix(&next);
            self.pending = Some(PendingChord { origin, keys: next, timeout, policy });
            return Step::Handled;
        }
        match policy {
            ChordPolicy::Discard => Step::Handled,
            ChordPolicy::Fallback => match first {
                Some(first_key) => Self::fallback_first(bindings, first_key),
                None => Step::Handled,
            },
        }
    }

    /// The keys of the chord under way.
    pub fn pending(&self) -> (r: Option<Vec<Key>>)
        ensures
            match self.view() {
                Some(p) => r is Some && r.unwrap()@ == p.1,
                None => r is None,
            },
    {
        match &self.pending {
            Some(p) => {
                let keys = p.keys.as_slice();
                let mut out: Vec<Key> = Vec::new();
                let mut i: usize = 0;
                while i < keys.len()
                    invariant
                        i <= keys@.len(),
                        out@ == keys@.subrange(0, i as int),
                    decreases keys.len() - i,
                {
                    out.push(keys[i]);
                    i = i + 1;
                    assert(out@ =~= keys@.subrange(0, i as int));
                }
                assert(keys@.subrange(0, i as int) =~= keys@);
                Some(out)
            },
            None => None,
        }
    }

    /// The label of the chord under way, such as `g, g`.
    pub fn pending_label(&self) -> (r: Option<String>)
        ensures
            match self.view() {
                Some(p) => r is Some && r.unwrap()@ == chord_label_spec(p.1),
                None => r is None,
            },
    {
        match &self.pending {
            Some(p) => Some(p.keys.label()),
            None => None,
        }
    }

    /// The chords of `bindings` that complete the chord under way, each with
    /// its label, in order of label; none without a chord under way.
    pub fn completions<A: Copy>(&self, bindings: &Keys<A>) -> (r: Vec<(Chord, String)>)
        requires
            bindings.wf(),
        ensures
            self.view() is None ==> r@.len() == 0,
            self.view() matches Some(p) ==> {
                &&& forall|m: int| 0 <= m < r@.len() ==> {
                    &&& bindings.chord_map().contains_key((#[trigger] r@[m]).0@)
                    &&& completes(p.1, r@[m].0@)
                    &&& r@[m].1@ == chord_label_spec(r@[m].0@)
                }
                &&& forall|c: Seq<Key>| #[trigger] bindings.chord_map().contains_key(c) && completes(p.1, c) ==> exists|m: int| 0 <= m < r@.len() && (#[trigger] r@[m]).0@ == c
                &&& forall|m1: int, m2: int| 0 <= m1 < m2 < r@.len() ==> (#[trigger] r@[m1]).0@ != (#[trigger] r@[m2]).0@
                &&& forall|m1: int, m2: int| 0 <= m1 < m2 < r@.len() ==> seq_le((#[trigger] r@[m1]).1@, (#[trigger] r@[m2]).1@)
            },
    {
        match &self.pending {
            Some(p) => bindings.chord_completions(&p.keys),
            None => Vec::new(),
        }
    }
}


/// Pressing the keys of a bound chord one after another runs its action and
/// ends the chord: the first key starts the chord, each later key extends
/// it, and the last one completes it. This holds where no shorter chord that
/// it begins with is bound and no key after the first is Esc.
pub proof fn law_bound_chord_runs<A: Copy>(
    b: Keys<A>,
    c: Seq<Key>,
    origin: ChordOrigin,
    m: Option<(ChordOrigin, Seq<Key>, Option<Period>, ChordPolicy)>,
)
    requires
        b.wf(),
        b.chord_map().contains_key(c),
        2 <= c.len() <= crate::MAX_CHORD_LEN,
        forall|i: int| 1 <= i < c.len() ==> c[i] != esc_spec(),
        forall|j: int| 2 <= j < c.len() ==> !b.chord_map().contains_key(#[trigger] c.subrange(0, j)),
    ensures
        ({
            let (m1, first) = layer_step_spec(m, c[0], b, origin);
            &&& first == Step::<A>::Handled
            &&& m1 matches Some(p) && p.0 == origin && p.1 == seq![c[0]]
            &&& feed_pending_spec(m1, c.drop_first(), b) == (None::<(ChordOrigin, Seq<Key>, Option<Period>, ChordPolicy)>, Step::Run(b.chord_map()[c]))
        }),
{
    assert(seq![c[0]] =~= c.subrange(0, 1));
    assert(crate::keys::is_proper_prefix(seq![c[0]], c));
    assert(b.is_prefix_spec(seq![c[0]]));
    let m1 = layer_step_spec(m, c[0], b, origin).0;
    lemma_feed_chord(b, c, 1, m1.unwrap());
    assert(c.drop_first() =~= c.subrange(1, c.len() as int));
}

/// Feeding the rest of a bound chord, from its first `i` keys under way,
/// completes it.
proof fn lemma_feed_chord<A: Copy>(
    b: Keys<A>,
    c: Seq<Key>,
    i: int,
    p: (ChordOrigin, Seq<Key>, Option<Period>, ChordPolicy),
)
    requires
        b.wf(),
        b.chord_map().contains_key(c),
        2 <= c.len() <= crate::MAX_CHORD_LEN,
        1 <= i < c.len(),
        p.1 == c.subrange(0, i),
        forall|k: int| 1 <= k < c.len() ==> c[k] != esc_spec(),
        forall|j: int| 2 <= j < c.len() ==> !b.chord_map().contains_key(#[trigger] c.subrange(0, j)),
    ensures
        feed_pending_spec(Some(p), c.subrange(i, c.len() as int), b) == (None::<(ChordOrigin, Seq<Key>, Option<Period>, ChordPolicy)>, Step::Run(b.chord_map()[c])),
    decreases c.len() - i,
{
    let rest = c.subrange(i, c.len() as int);
    let next = p.1.push(c[i]);
    assert(rest[0] == c[i]);
    assert(next =~= c.subrange(0, i + 1));
    assert(c[i] != esc_spec());
    if i + 1 == c.len() {
        assert(next =~= c);
    } else {
        assert(!b.chord_map().contains_key(c.subrange(0, i + 1)));
        assert(crate::keys::is_proper_prefix(next, c));
        assert(b.is_prefix_spec(next));
        let p1 = pending_step_spec(p, c[i], Some(b)).0.unwrap();
        lemma_feed_chord(b, c, i + 1, p1);
        assert(rest.drop_first() =~= c.subrange(i + 1, c.len() as int));
    }
}


/// The first key of a chord dispatched on its own: its single binding in
/// the chord's bindings, where they exist and bind it; else handled.
pub open spec fn first_key_step<A: Copy>(bindings: Option<Keys<A>>, keys: Seq<Key>) -> Step<A> {
    match bindings {
        Some(b) => if keys.len() > 0 && b.single_map().contains_key(keys[0]) {
            Step::Run(b.single_map()[keys[0]])
        } else {
            Step::Handled
        },
        None => Step::Handled,
    }
}

/// Esc (without modifiers) while a chord is under way ends the chord and
/// dispatches its first key on its own.
pub proof fn law_esc_cancels_chord<A: Copy>(
    p: (ChordOrigin, Seq<Key>, Option<Period>, ChordPolicy),
    bindings: Option<Keys<A>>,
)
    ensures
        pending_step_spec(p, Key { code: Code::Esc, modifiers: Mods(0) }, bindings)
            == (None::<(ChordOrigin, Seq<Key>, Option<Period>, ChordPolicy)>, first_key_step(bindings, p.1)),
{
}

/// A key that neither completes nor extends a bound chord ends the chord
/// under way, as does any key but Esc once the chord holds the most keys a
/// chord can: under `Discard` the key is handled and dropped, under
/// `Fallback` the chord's first key is dispatched on its own.
pub proof fn law_dropped_chord_follows_policy<A: Copy>(
    p: (ChordOrigin, Seq<Key>, Option<Period>, ChordPolicy),
    key: Key,
    bindings: Option<Keys<A>>,
)
    requires
        key != (Key { code: Code::Esc, modifiers: Mods(0) }),
        p.1.len() >= 4 || (bindings is Some && !bindings.unwrap().chord_map().contains_key(p.1.push(key))
            && !bindings.unwrap().is_prefix_spec(p.1.push(key))),
    ensures
        pending_step_spec(p, key, bindings).0 is None,
        p.3 == ChordPolicy::Discard ==> pending_step_spec(p, key, bindings).1 == Step::<A>::Handled,
        p.3 == ChordPolicy::Fallback ==> pending_step_spec(p, key, bindings).1 == first_key_step(bindings, p.1),
{
}

/// A key that extends the chord under way to a proper prefix of a bound
/// chord keeps the chord going, with the timeout and policy of the longer
/// prefix; one that completes a bound chord runs its action and ends it.
pub proof fn law_chord_extends_or_completes<A: Copy>(
    p: (ChordOrigin, Seq<Key>, Option<Period>, ChordPolicy),
    key: Key,
    b: Keys<A>,
)
    requires
        key != (Key { code: Code::Esc, modifiers: Mods(0) }),
        p.1.len() < 4,
    ensures
        b.chord_map().contains_key(p.1.push(key)) ==>
            pending_step_spec(p, key, Some(b)) == (None::<(ChordOrigin, Seq<Key>, Option<Period>, ChordPolicy)>, Step::Run(b.chord_map()[p.1.push(key)])),
        !b.chord_map().contains_key(p.1.push(key)) && b.is_prefix_spec(p.1.push(key)) ==>
            pending_step_spec(p, key, Some(b)) == (
                Some((p.0, p.1.push(key), b.timeout_for_spec(p.1.push(key)), b.policy_for_spec(p.1.push(key)))),
                Step::<A>::Handled,
            ),
{
}
} // verus!
