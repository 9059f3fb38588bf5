use vstd::prelude::*;
use crate::bind::ChordPolicy;
use crate::dispatch::{ChordMachine, ChordOrigin, Step, layer_step_spec, pending_step_spec, fallback_spec};
use crate::flow::Flow;
use crate::key::{Key, KeyEvent, KeyEventKind, char_from_event, char_from_event_spec, from_event_spec};
use crate::keys::Keys;
use crate::mouse::MouseEvent;
use crate::period::Period;

verus! {

/// What becomes of the result of an action that a key dispatch runs.
#[derive(Debug, Clone, Copy, PartialEq, Eq, Structural)]
pub enum Then {
    /// The action's result is the key's result.
    Finish,
    /// Where the action returns `Ignored`, the walk goes on at layer `i`;
    /// else the action's result is the key's result.
    NextIfIgnored(usize),
    /// Where the action returns `Quit`, the key's result is `Quit`; else the
    /// walk goes on at layer `i`.
    NextUnlessQuit(usize),
}

/// What a key dispatch asks its caller to do next.
#[derive(Debug)]
pub enum KeyStep<A> {
    /// Run the action, then do with its result what [`Then`] says.
    Run(A, Then),
    /// The key's result, with nothing more to run.
    Done(Flow),
    /// Walk the layers from the first one.
    Walk,
}

/// The step that runs `a`, found at layer `i` of `len`: the result of the
/// last layer's action is final; an earlier layer's ignored result goes on
/// to the next layer.
pub open spec fn run_then<A>(a: A, i: int, len: int) -> KeyStep<A> {
    if i + 1 >= len {
        KeyStep::Run(a, Then::Finish)
    } else {
        KeyStep::Run(a, Then::NextIfIgnored((i + 1) as usize))
    }
}

/// A key press walked through `layers` from layer `i`: the first layer that
/// starts a chord handles the key; the first that binds the key runs its
/// action; at `trap_at` (an active focus trap) the walk stops as handled; a
/// key that no layer binds is handled.
pub open spec fn press_walk_spec<A: Copy>(
    m: Option<(ChordOrigin, Seq<Key>, Option<Period>, ChordPolicy)>,
    key: Key,
    layers: Seq<(ChordOrigin, Keys<A>)>,
    i: int,
    trap_at: Option<usize>,
) -> (Option<(ChordOrigin, Seq<Key>, Option<Period>, ChordPolicy)>, KeyStep<A>)
    decreases layers.len() - i,
{
    if i < 0 || i >= layers.len() {
        (m, KeyStep::Done(Flow::Handled))
    } else if trap_at matches Some(t) && t == i {
        (m, KeyStep::Done(Flow::Handled))
    } else {
        let (m1, step) = layer_step_spec(m, key, layers[i].1, layers[i].0);
        match step {
            Step::Handled => (m1, KeyStep::Done(Flow::Handled)),
            Step::Run(a) => (m1, run_then(a, i, layers.len() as int)),
            Step::Unbound => press_walk_spec(m1, key, layers, i + 1, trap_at),
        }
    }
}

/// The chord state after a release in the bindings of `origin`: a chord
/// begun there is dropped.
pub open spec fn release_state_spec(
    m: Option<(ChordOrigin, Seq<Key>, Option<Period>, ChordPolicy)>,
    origin: ChordOrigin,
) -> Option<(ChordOrigin, Seq<Key>, Option<Period>, ChordPolicy)> {
    if m is Some && m.unwrap().0 == origin { None } else { m }
}

/// A key release walked through `layers` from layer `i`, as a press is,
/// where each layer passed drops a chord begun in it.
pub open spec fn release_walk_spec<A: Copy>(
    m: Option<(ChordOrigin, Seq<Key>, Option<Period>, ChordPolicy)>,
    key: Key,
    layers: Seq<(ChordOrigin, Keys<A>)>,
    i: int,
    trap_at: Option<usize>,
) -> (Option<(ChordOrigin, Seq<Key>, Option<Period>, ChordPolicy)>, KeyStep<A>)
    decreases layers.len() - i,
{
    if i < 0 || i >= layers.len() {
        (m, KeyStep::Done(Flow::Handled))
    } else if trap_at matches Some(t) && t == i {
        (m, KeyStep::Done(Flow::Handled))
    } else {
        let m1 = release_state_spec(m, layers[i].0);
        let b = layers[i].1;
        if b.release_map().contains_key(key) {
            (m1, run_then(b.release_map()[key], i, layers.len() as int))
        } else {
            release_walk_spec(m1, key, layers, i + 1, trap_at)
        }
    }
}

/// A repeated key walked through `layers` from layer `i`.
pub open spec fn repeat_walk_spec<A: Copy>(
    key: Key,
    layers: Seq<(ChordOrigin, Keys<A>)>,
    i: int,
    trap_at: Option<usize>,
) -> KeyStep<A>
    decreases layers.len() - i,
{
    if i < 0 || i >= layers.len() {
        KeyStep::Done(Flow::Handled)
    } else if trap_at matches Some(t) && t == i {
        KeyStep::Done(Flow::Handled)
    } else {
        let b = layers[i].1;
        if b.repeat_map().contains_key(key) {
            run_then(b.repeat_map()[key], i, layers.len() as int)
        } else {
            repeat_walk_spec(key, layers, i + 1, trap_at)
        }
    }
}

/// Every layer's bindings are well formed.
pub open spec fn layers_wf<A: Copy>(layers: Seq<(ChordOrigin, Keys<A>)>) -> bool {
    forall|i: int| 0 <= i < layers.len() ==> (#[trigger] layers[i]).1.wf()
}

/// The step of a key press before the layers are walked, where a chord may
/// be under way: a stale chord (its bindings are gone) is dropped and the
/// walk begins; an expired chord is dropped and falls back to its first key,
/// after which the walk begins unless that quits; else the key goes to the
/// chord under way.
pub open spec fn begin_press_spec<A: Copy>(
    m: Option<(ChordOrigin, Seq<Key>, Option<Period>, ChordPolicy)>,
    key: Key,
    bindings: Option<Keys<A>>,
    stale: bool,
    expired: bool,
) -> (Option<(ChordOrigin, Seq<Key>, Option<Period>, ChordPolicy)>, KeyStep<A>) {
    match m {
        None => (m, KeyStep::Walk),
        Some(p) => if stale {
            (None, KeyStep::Walk)
        } else if expired {
            match if p.1.len() > 0 { fallback_spec(bindings, p.1[0]) } else { Step::Handled } {
                Step::Run(a) => (None, KeyStep::Run(a, Then::NextUnlessQuit(0))),
                _ => (None, KeyStep::Walk),
            }
        } else {
            let (m1, step) = pending_step_spec(p, key, bindings);
            match step {
                Step::Run(a) => (m1, KeyStep::Run(a, Then::Finish)),
                _ => (m1, KeyStep::Done(Flow::Handled)),
            }
        },
    }
}

/// The step when a chord's timer fires: with no chord under way, or a stale
/// one (which is dropped), nothing happens; an expired chord is dropped and
/// falls back to its first key; a chord that has not expired waits.
pub open spec fn timeout_spec<A: Copy>(
    m: Option<(ChordOrigin, Seq<Key>, Option<Period>, ChordPolicy)>,
    bindings: Option<Keys<A>>,
    stale: bool,
    expired: bool,
) -> (Option<(ChordOrigin, Seq<Key>, Option<Period>, ChordPolicy)>, KeyStep<A>) {
    match m {
        None => (m, KeyStep::Done(Flow::Ignored)),
        Some(p) => if stale {
            (None, KeyStep::Done(Flow::Ignored))
        } else if expired {
            match if p.1.len() > 0 { fallback_spec(bindings, p.1[0]) } else { Step::Handled } {
                Step::Run(a) => (None, KeyStep::Run(a, Then::Finish)),
                _ => (None, KeyStep::Done(Flow::Handled)),
            }
        } else {
            (m, KeyStep::Done(Flow::Ignored))
        },
    }
}

/// Layers take a key in order: where no layer before layer `j` (from
/// `from` on) binds the key or begins a chord with it, and no active trap
/// stops the walk before it, the key runs the action that layer `j` binds,
/// or starts the chord that layer `j` begins with it; the chord state is
/// untouched by the layers passed.
pub proof fn law_first_layer_wins<A: Copy>(
    m: Option<(ChordOrigin, Seq<Key>, Option<Period>, ChordPolicy)>,
    key: Key,
    layers: Seq<(ChordOrigin, Keys<A>)>,
    from: int,
    j: int,
    trap_at: Option<usize>,
)
    requires
        0 <= from <= j < layers.len(),
        forall|i: int| from <= i < j ==> {
            &&& !(#[trigger] layers[i]).1.is_prefix_spec(seq![key])
            &&& !layers[i].1.single_map().contains_key(key)
        },
        trap_at matches Some(t) ==> !(from <= t <= j),
        layers[j].1.is_prefix_spec(seq![key]) || layers[j].1.single_map().contains_key(key),
    ensures
        press_walk_spec(m, key, layers, from, trap_at) == if layers[j].1.is_prefix_spec(seq![key]) {
            (
                Some((layers[j].0, seq![key], layers[j].1.timeout_for_spec(seq![key]), layers[j].1.policy_for_spec(seq![key]))),
                KeyStep::<A>::Done(Flow::Handled),
            )
        } else {
            (
                m,
                KeyStep::Run(
                    layers[j].1.single_map()[key],
                    if j + 1 < layers.len() { Then::NextIfIgnored((j + 1) as usize) } else { Then::Finish },
                ),
            )
        },
    decreases j - from,
{
    if from < j {
        assert(!layers[from].1.is_prefix_spec(seq![key]) && !layers[from].1.single_map().contains_key(key));
        law_first_layer_wins(m, key, layers, from + 1, j, trap_at);
    }
}

/// The chord state after a release has passed layers `from` through `j`:
/// a chord begun in any of them is dropped.
pub open spec fn released_through<A>(
    m: Option<(ChordOrigin, Seq<Key>, Option<Period>, ChordPolicy)>,
    layers: Seq<(ChordOrigin, Keys<A>)>,
    from: int,
    j: int,
) -> Option<(ChordOrigin, Seq<Key>, Option<Period>, ChordPolicy)> {
    if m matches Some(p) && exists|i: int| from <= i <= j && (#[trigger] layers[i]).0 == p.0 {
        None
    } else {
        m
    }
}

/// A released key goes to the first layer (from `from` on, before any
/// active trap) that binds it for release; that layer's action runs, and
/// where it returns `Ignored` the walk goes on at the next layer (the last
/// layer's result is final). Each layer passed drops a chord begun in it.
pub proof fn law_release_first_layer_wins<A: Copy>(
    m: Option<(ChordOrigin, Seq<Key>, Option<Period>, ChordPolicy)>,
    key: Key,
    layers: Seq<(ChordOrigin, Keys<A>)>,
    from: int,
    j: int,
    trap_at: Option<usize>,
)
    requires
        0 <= from <= j < layers.len(),
        forall|i: int| from <= i < j ==> !(#[trigger] layers[i]).1.release_map().contains_key(key),
        trap_at matches Some(t) ==> !(from <= t <= j),
        layers[j].1.release_map().contains_key(key),
    ensures
        release_walk_spec(m, key, layers, from, trap_at) == (
            released_through(m, layers, from, j),
            KeyStep::Run(
                layers[j].1.release_map()[key],
                if j + 1 < layers.len() { Then::NextIfIgnored((j + 1) as usize) } else { Then::Finish },
            ),
        ),
    decreases j - from,
{
    let m1 = release_state_spec(m, layers[from].0);
    if from < j {
        assert(!layers[from].1.release_map().contains_key(key));
        law_release_first_layer_wins(m1, key, layers, from + 1, j, trap_at);
        if let Some(p) = m {
            if layers[from].0 == p.0 {
                assert(m1 is None);
                assert(released_through(m, layers, from, j) is None);
            } else {
                assert(m1 == m);
                if exists|i: int| from <= i <= j && (#[trigger] layers[i]).0 == p.0 {
                    let w = choose|i: int| from <= i <= j && (#[trigger] layers[i]).0 == p.0;
                    assert(from + 1 <= w <= j && layers[w].0 == p.0);
                } else {
                    assert forall|i: int| from + 1 <= i <= j implies (#[trigger] layers[i]).0 != p.0 by {
                        if layers[i].0 == p.0 {
                            assert(from <= i <= j);
                        }
                    }
                }
            }
        }
    } else {
        if let Some(p) = m {
            if layers[from].0 == p.0 {
                assert(released_through(m, layers, from, j) is None);
            } else {
                assert forall|i: int| from <= i <= j implies (#[trigger] layers[i]).0 != p.0 by {
                    assert(i == from);
                }
            }
        }
    }
}

/// A repeated key goes to the first layer (from `from` on, before any
/// active trap) that binds it for repeat; that layer's action runs, and
/// where it returns `Ignored` the repeated key passes on to the next layer
/// (the last layer's result is final), as for press and release.
pub proof fn law_repeat_first_layer_wins<A: Copy>(
    key: Key,
    layers: Seq<(ChordOrigin, Keys<A>)>,
    from: int,
    j: int,
    trap_at: Option<usize>,
)
    requires
        0 <= from <= j < layers.len(),
        forall|i: int| from <= i < j ==> !(#[trigger] layers[i]).1.repeat_map().contains_key(key),
        trap_at matches Some(t) ==> !(from <= t <= j),
        layers[j].1.repeat_map().contains_key(key),
    ensures
        repeat_walk_spec(key, layers, from, trap_at) == KeyStep::Run(
            layers[j].1.repeat_map()[key],
            if j + 1 < layers.len() { Then::NextIfIgnored((j + 1) as usize) } else { Then::Finish },
        ),
    decreases j - from,
{
    if from < j {
        assert(!layers[from].1.repeat_map().contains_key(key));
        law_repeat_first_layer_wins(key, layers, from + 1, j, trap_at);
    }
}

/// A key that no layer from `from` on binds for repeat, with no active trap
/// among them, is handled with nothing run.
pub proof fn law_repeat_unbound_is_handled<A: Copy>(
    key: Key,
    layers: Seq<(ChordOrigin, Keys<A>)>,
    from: int,
    trap_at: Option<usize>,
)
    requires
        0 <= from,
        forall|i: int| from <= i < layers.len() ==> !(#[trigger] layers[i]).1.repeat_map().contains_key(key),
    ensures
        repeat_walk_spec(key, layers, from, trap_at) == KeyStep::<A>::Done(Flow::Handled),
    decreases layers.len() - from,
{
    if from < layers.len() {
        if !(trap_at matches Some(t) && t == from) {
            assert(!layers[from].1.repeat_map().contains_key(key));
            law_repeat_unbound_is_handled(key, layers, from + 1, trap_at);
        }
    }
}

impl ChordMachine {
    /// Walks a key press through `layers` from layer `from` (see
    /// [`press_walk_spec`]). The layers come in order: those of the focused
    /// elements, of the views, of the registered layers, and the global
    /// bindings last; `trap_at` is where an active focus trap stops the walk.
    pub fn press_layers<A: Copy>(&mut self, key: Key, layers: &[(ChordOrigin, Keys<A>)], from: usize, trap_at: Option<usize>) -> (r: KeyStep<A>)
        requires
            layers_wf(layers@),
        ensures
            (final(self).view(), r) == press_walk_spec(old(self).view(), key, layers@, from as int, trap_at),
    {
        let mut i = from;
        while i < layers.len()
            invariant
                from <= i,
                layers_wf(layers@),
                press_walk_spec(old(self).view(), key, layers@, from as int, trap_at) == press_walk_spec(self.view(), key, layers@, i as int, trap_at),
            decreases layers.len() - i,
        {
            if trap_at == Some(i) {
                return KeyStep::Done(Flow::Handled);
            }
            let (origin, bindings) = (layers[i].0, &layers[i].1);
            assert(layers@[i as int].1.wf());
            match self.dispatch_layer(key, bindings, origin) {
                Step::Handled => return KeyStep::Done(Flow::Handled),
                Step::Run(a) => {
                    if i + 1 >= layers.len() {
                        return KeyStep::Run(a, Then::Finish);
                    }
                    return KeyStep::Run(a, Then::NextIfIgnored(i + 1));
                },
                Step::Unbound => {},
            }
            i = i + 1;
        }
        KeyStep::Done(Flow::Handled)
    }

    /// Walks a key release through `layers` from layer `from` (see
    /// [`release_walk_spec`]).
    pub fn release_layers<A: Copy>(&mut self, key: Key, layers: &[(ChordOrigin, Keys<A>)], from: usize, trap_at: Option<usize>) -> (r: KeyStep<A>)
        requires
            layers_wf(layers@),
        ensures
            (final(self).view(), r) == release_walk_spec(old(self).view(), key, layers@, from as int, trap_at),
    {
        let mut i = from;
        while i < layers.len()
            invariant
                from <= i,
                layers_wf(layers@),
                release_walk_spec(old(self).view(), key, layers@, from as int, trap_at) == release_walk_spec(self.view(), key, layers@, i as int, trap_at),
            decreases layers.len() - i,
        {
            if trap_at == Some(i) {
                return KeyStep::Done(Flow::Handled);
            }
            let (origin, bindings) = (layers[i].0, &layers[i].1);
            assert(layers@[i as int].1.wf());
            match self.dispatch_layer_release(key, bindings, origin) {
                Some(a) => {
                    if i + 1 >= layers.len() {
                        return KeyStep::Run(a, Then::Finish);
                    }
                    return KeyStep::Run(a, Then::NextIfIgnored(i + 1));
                },
                None => {},
            }
            i = i + 1;
        }
        KeyStep::Done(Flow::Handled)
    }

    /// Walks a repeated key through `layers` from layer `from` (see
    /// [`repeat_walk_spec`]).
    pub fn repeat_layers<A: Copy>(key: Key, layers: &[(ChordOrigin, Keys<A>)], from: usize, trap_at: Option<usize>) -> (r: KeyStep<A>)
        requires
            layers_wf(layers@),
        ensures
            r == repeat_walk_spec(key, layers@, from as int, trap_at),
    {
        let mut i = from;
        while i < layers.len()
            invariant
                from <= i,
                layers_wf(layers@),
                repeat_walk_spec(key, layers@, from as int, trap_at) == repeat_walk_spec(key, layers@, i as int, trap_at),
            decreases layers.len() - i,
        {
            if trap_at == Some(i) {
                return KeyStep::Done(Flow::Handled);
            }
            let (origin, bindings) = (layers[i].0, &layers[i].1);
            assert(layers@[i as int].1.wf());
            match Self::dispatch_layer_repeat(key, bindings, origin) {
                Some(a) => {
                    if i + 1 >= layers.len() {
                        return KeyStep::Run(a, Then::Finish);
                    }
                    return KeyStep::Run(a, Then::NextIfIgnored(i + 1));
                },
                None => {},
            }
            i = i + 1;
        }
        KeyStep::Done(Flow::Handled)
    }

    /// The step of a key press before the layers are walked (see
    /// [`begin_press_spec`]). `bindings` are those of the chord's origin,
    /// where they still exist; `stale` tells that its origin is gone, and
    /// `expired` that its timeout has passed.
    pub fn begin_press<A: Copy>(&mut self, key: Key, bindings: Option<&Keys<A>>, stale: bool, expired: bool) -> (r: KeyStep<A>)
        requires
            bindings matches Some(b) ==> b.wf(),
        ensures
            (final(self).view(), r) == begin_press_spec(
                old(self).view(),
                key,
                match bindings {
                    Some(b) => Some(*b),
                    None => None,
                },
                stale,
                expired,
            ),
    {
        let first = match self.pending_chord() {
            None => return KeyStep::Walk,
            Some(p) => p.keys.first(),
        };
        if stale {
            self.reset_chord();
            return KeyStep::Walk;
        }
        if expired {
            self.reset_chord();
            let step = match first {
                Some(k) => Self::fallback_first(bindings, k),
                None => Step::Handled,
            };
            return match step {
                Step::Run(a) => KeyStep::Run(a, Then::NextUnlessQuit(0)),
                _ => KeyStep::Walk,
            };
        }
        match self.dispatch_pending(key, bindings) {
            Step::Run(a) => KeyStep::Run(a, Then::Finish),
            _ => KeyStep::Done(Flow::Handled),
        }
    }

    /// The step when a chord's timer fires (see [`timeout_spec`]).
    pub fn timeout<A: Copy>(&mut self, bindings: Option<&Keys<A>>, stale: bool, expired: bool) -> (r: KeyStep<A>)
        requires
            bindings matches Some(b) ==> b.wf(),
        ensures
            (final(self).view(), r) == timeout_spec(
                old(self).view(),
                match bindings {
                    Some(b) => Some(*b),
                    None => None,
                },
                stale,
                expired,
            ),
    {
        let first = match self.pending_chord() {
            None => return KeyStep::Done(Flow::Ignored),
            Some(p) => p.keys.first(),
        };
        if stale {
            self.reset_chord();
            return KeyStep::Done(Flow::Ignored);
        }
        if !expired {
            return KeyStep::Done(Flow::Ignored);
        }
        self.reset_chord();
        let step = match first {
            Some(k) => Self::fallback_first(bindings, k),
            None => Step::Handled,
        };
        match step {
            Step::Run(a) => KeyStep::Run(a, Then::Finish),
            _ => KeyStep::Done(Flow::Handled),
        }
    }
}

/// An input event as the terminal reports it.
#[derive(Debug)]
pub enum InputEvent {
    Key(KeyEvent),
    Mouse(MouseEvent),
    Paste(String),
    Resize(u16, u16),
    /// Any other event (focus gained or lost).
    Other,
}

/// Where an input event goes.
#[derive(Debug)]
pub enum Route {
    /// A key press: the typed character, if any, goes to the text handlers
    /// first; where they ignore it, the key, if the event names one, is
    /// dispatched; else the event is ignored.
    Press { text: Option<char>, key: Option<Key> },
    /// A repeated key: dispatched, then offered to the repeat handlers.
    Repeat(Key),
    /// A released key: dispatched, then offered to the release handlers.
    Release(Key),
    Resize(u16, u16),
    /// Pasted text: offered to the text handlers, then to the paste handlers.
    Paste(String),
    Mouse(MouseEvent),
    Ignored,
}

/// Where `event` goes.
pub open spec fn route_spec(event: InputEvent) -> Route {
    match event {
        InputEvent::Key(k) => match k.kind {
            KeyEventKind::Press => Route::Press { text: char_from_event_spec(k), key: from_event_spec(k) },
            KeyEventKind::Repeat => match from_event_spec(k) {
                Some(key) => Route::Repeat(key),
                None => Route::Ignored,
            },
            KeyEventKind::Release => match from_event_spec(k) {
                Some(key) => Route::Release(key),
                None => Route::Ignored,
            },
        },
        InputEvent::Mouse(m) => Route::Mouse(m),
        InputEvent::Paste(s) => Route::Paste(s),
        InputEvent::Resize(c, r) => Route::Resize(c, r),
        InputEvent::Other => Route::Ignored,
    }
}

/// A key event is routed by its kind: a press always as a press, with the
/// character it types and the key it names; a repeat or a release as such
/// where it names a key, else ignored. Pasted text, mouse events and resizes
/// keep their content; other events are ignored.
pub proof fn law_route_follows_kind(k: KeyEvent, m: MouseEvent, text: String, cols: u16, rows: u16)
    ensures
        route_spec(InputEvent::Key(k)) is Press <==> k.kind == KeyEventKind::Press,
        route_spec(InputEvent::Key(k)) is Repeat <==> (k.kind == KeyEventKind::Repeat && from_event_spec(k) is Some),
        route_spec(InputEvent::Key(k)) is Release <==> (k.kind == KeyEventKind::Release && from_event_spec(k) is Some),
        route_spec(InputEvent::Key(k)) matches Route::Press { text: t, key } ==> t == char_from_event_spec(k) && key == from_event_spec(k),
        route_spec(InputEvent::Key(k)) matches Route::Repeat(key) ==> from_event_spec(k) == Some(key),
        route_spec(InputEvent::Key(k)) matches Route::Release(key) ==> from_event_spec(k) == Some(key),
        route_spec(InputEvent::Mouse(m)) == Route::Mouse(m),
        route_spec(InputEvent::Paste(text)) == Route::Paste(text),
        route_spec(InputEvent::Resize(cols, rows)) == Route::Resize(cols, rows),
        route_spec(InputEvent::Other) is Ignored,
{
}

/// Where `event` goes (see [`route_spec`]).
pub fn route_event(event: InputEvent) -> (r: Route)
    ensures
        r == route_spec(event),
{
    match event {
        InputEvent::Key(k) => match k.kind {
            KeyEventKind::Press => Route::Press { text: char_from_event(&k), key: Key::from_event(k) },
            KeyEventKind::Repeat => match Key::from_event(k) {
                Some(key) => Route::Repeat(key),
                None => Route::Ignored,
            },
            KeyEventKind::Release => match Key::from_event(k) {
                Some(key) => Route::Release(key),
                None => Route::Ignored,
            },
        },
        InputEvent::Mouse(m) => Route::Mouse(m),
        InputEvent::Paste(s) => Route::Paste(s),
        InputEvent::Resize(c, r) => Route::Resize(c, r),
        InputEvent::Other => Route::Ignored,
    }
}


/// What a key press does after the text handlers had its typed character.
#[derive(Debug)]
pub enum PressNext {
    /// The press's result.
    Done(Flow),
    /// Dispatch the key through the bindings.
    Dispatch(Key),
}

/// What a key press does after the text handlers returned `text`: a result
/// other than `Ignored` is the press's result; else the key, where the event
/// names one, is dispatched; else the press is ignored.
pub fn after_text(text: Flow, key: Option<Key>) -> (r: PressNext)
    ensures
        r == if text != Flow::Ignored {
            PressNext::Done(text)
        } else {
            match key {
                Some(k) => PressNext::Dispatch(k),
                None => PressNext::Done(Flow::Ignored),
            }
        },
{
    if text != Flow::Ignored {
        return PressNext::Done(text);
    }
    match key {
        Some(k) => PressNext::Dispatch(k),
        None => PressNext::Done(Flow::Ignored),
    }
}


/// When the chord under way times out, on a clock that counts from any
/// fixed start.
#[derive(Debug, Clone, Copy, PartialEq, Eq)]
pub struct ChordClock {
    pub deadline: Option<Period>,
}

impl ChordClock {
    /// No chord waits.
    pub fn new() -> (r: ChordClock)
        ensures
            r.deadline is None,
    {
        ChordClock { deadline: None }
    }

    /// The chord under way changed at `now`: it times out `timeout` later,
    /// or never without a timeout.
    pub fn restart(&mut self, timeout: Option<Period>, now: Period)
        requires
            timeout matches Some(t) ==> now.nanos + t.nanos <= u128::MAX,
        ensures
            final(self).deadline == match timeout {
                Some(t) => Some(Period { nanos: (now.nanos + t.nanos) as u128 }),
                None => None,
            },
    {
        self.deadline = match timeout {
            Some(t) => Some(Period { nanos: now.nanos + t.nanos }),
            None => None,
        };
    }

    /// The chord has timed out at `now`.
    pub fn expired(&self, now: Period) -> (r: bool)
        ensures
            r == match self.deadline {
                Some(d) => now.nanos >= d.nanos,
                None => false,
            },
    {
        match self.deadline {
            Some(d) => now.nanos >= d.nanos,
            None => false,
        }
    }

    /// The time left at `now` before the chord times out, if it can.
    pub fn left(&self, now: Period) -> (r: Option<Period>)
        ensures
            r == match self.deadline {
                Some(d) => Some(Period { nanos: if d.nanos >= now.nanos { (d.nanos - now.nanos) as u128 } else { 0 } }),
                None => None,
            },
    {
        match self.deadline {
            Some(d) => Some(d.saturating_sub(now)),
            None => None,
        }
    }
}
} // verus!
