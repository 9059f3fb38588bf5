use vstd::prelude::*;
use crate::key::{Key, key_from_char_spec};
use crate::chord::Chord;

verus! {

/// What becomes of a chord that no binding completes.
#[derive(Debug, Clone, Copy, PartialEq, Eq, Structural)]
pub enum ChordPolicy {
    /// Drop the keys pressed so far.
    Discard,
    /// Dispatch the first key of the chord as a single key.
    Fallback,
}

impl Default for ChordPolicy {
    fn default() -> (r: ChordPolicy)
        ensures
            r == ChordPolicy::Discard,
    {
        ChordPolicy::Discard
    }
}

/// Whether a binding names one key or a chord.
#[derive(Debug, Clone, Copy, PartialEq, Eq, Structural)]
pub enum BindKind {
    Single,
    Chord,
}

/// A binding as listed for help screens: its keys, label and kind.
#[derive(Debug)]
pub struct Bind {
    pub keys: Chord,
    pub label: String,
    pub kind: BindKind,
}

/// Values that name a binding: a character, a key or a chord.
pub trait IntoBind: Sized {
    /// The keys that the value names.
    spec fn binding_spec(self) -> Seq<Key>;

    fn into_key_binding(self) -> (c: Chord)
        ensures
            c@ == self.binding_spec(),
    ;
}

impl IntoBind for char {
    open spec fn binding_spec(self) -> Seq<Key> {
        seq![key_from_char_spec(self)]
    }

    fn into_key_binding(self) -> (c: Chord) {
        Chord::from_key(Key::from(self))
    }
}

impl IntoBind for Key {
    open spec fn binding_spec(self) -> Seq<Key> {
        seq![self]
    }

    fn into_key_binding(self) -> (c: Chord) {
        Chord::from_key(self)
    }
}

impl IntoBind for Chord {
    open spec fn binding_spec(self) -> Seq<Key> {
        self@
    }

    fn into_key_binding(self) -> (c: Chord) {
        self
    }
}

} // verus!
