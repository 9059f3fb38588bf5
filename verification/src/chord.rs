use vstd::prelude::*;
use smallvec::SmallVec;
use crate::key::{Key, label_spec};
use crate::text::{push_chars, string_from_chars};

verus! {

/// The inline vector of a chord's keys: a `SmallVec` that keeps up to four keys
/// without allocating.
#[verifier::external_body]
#[derive(Debug, Hash)]
pub struct KeyBuf {
    keys: SmallVec<[Key; 4]>,
}

/// The keys that a [`KeyBuf`] holds, in order.
pub uninterp spec fn smallvec_keys(v: KeyBuf) -> Seq<Key>;

/// `SmallVec::new`: an empty vector.
#[verifier::external_body]
fn sv_new() -> (v: KeyBuf)
    ensures
        smallvec_keys(v) == Seq::<Key>::empty(),
{
    KeyBuf { keys: SmallVec::new() }
}

/// `SmallVec::push`: appends a key (it panics only where the length would pass `usize::MAX`).
#[verifier::external_body]
fn sv_push(v: &mut KeyBuf, key: Key)
    requires
        smallvec_keys(*old(v)).len() < usize::MAX,
    ensures
        smallvec_keys(*final(v)) == smallvec_keys(*old(v)).push(key),
{
    v.keys.push(key);
}

/// `SmallVec::len`: the number of keys held.
#[verifier::external_body]
fn sv_len(v: &KeyBuf) -> (n: usize)
    ensures
        n == smallvec_keys(*v).len(),
{
    v.keys.len()
}

/// `SmallVec::as_slice`: the keys held, in order.
#[verifier::external_body]
fn sv_as_slice(v: &KeyBuf) -> (s: &[Key])
    ensures
        s@ == smallvec_keys(*v),
{
    v.keys.as_slice()
}

/// `SmallVec::clone`: a vector of the same keys (keys are `Copy`).
#[verifier::external_body]
fn sv_clone(v: &KeyBuf) -> (c: KeyBuf)
    ensures
        smallvec_keys(c) == smallvec_keys(*v),
{
    KeyBuf { keys: v.keys.clone() }
}

/// The labels of `keys`, joined by `", "`.
pub open spec fn chord_label_spec(keys: Seq<Key>) -> Seq<char>
    decreases keys.len(),
{
    if keys.len() == 0 {
        Seq::empty()
    } else if keys.len() == 1 {
        label_spec(keys[0])
    } else {
        chord_label_spec(keys.drop_last()) + seq![',', ' '] + label_spec(keys.last())
    }
}

/// A chord is labelled by its keys' labels joined by `", "`: one key by its
/// own label, and a key added at either end by that key's label, joined to
/// the rest by `", "`.
pub proof fn law_chord_label_joins(a: Key, b: Key, keys: Seq<Key>)
    ensures
        chord_label_spec(Seq::empty()) == Seq::<char>::empty(),
        chord_label_spec(seq![a]) == label_spec(a),
        chord_label_spec(seq![a, b]) == label_spec(a) + seq![',', ' '] + label_spec(b),
        keys.len() > 0 ==> chord_label_spec(keys.push(b)) == chord_label_spec(keys) + seq![',', ' '] + label_spec(b),
        keys.len() > 0 ==> chord_label_spec(seq![a] + keys) == label_spec(a) + seq![',', ' '] + chord_label_spec(keys),
    decreases keys.len(),
{
    assert(chord_label_spec(seq![a]) == label_spec(a));
    assert(seq![a, b].drop_last() =~= seq![a]);
    assert(chord_label_spec(seq![a, b]) == chord_label_spec(seq![a]) + seq![',', ' '] + label_spec(b));
    assert(keys.push(b).drop_last() =~= keys);
    if keys.len() > 0 {
        let s = seq![a] + keys;
        if keys.len() == 1 {
            assert(s.drop_last() =~= seq![a]);
            assert(s.last() == keys[0]);
            assert(chord_label_spec(keys) == label_spec(keys[0]));
            assert(chord_label_spec(s) == chord_label_spec(s.drop_last()) + seq![',', ' '] + label_spec(s.last()));
        } else {
            law_chord_label_joins(a, b, keys.drop_last());
            assert(s.drop_last() =~= seq![a] + keys.drop_last());
            assert(s.last() == keys.last());
            assert(chord_label_spec(s) == chord_label_spec(s.drop_last()) + seq![',', ' '] + label_spec(s.last()));
            assert(chord_label_spec(keys) == chord_label_spec(keys.drop_last()) + seq![',', ' '] + label_spec(keys.last()));
            assert(chord_label_spec(s) =~= label_spec(a) + seq![',', ' '] + chord_label_spec(keys));
        }
    }
}

/// A sequence of at most [`crate::MAX_CHORD_LEN`] keys pressed one after another.
#[derive(Debug, Hash)]
pub struct Chord {
    keys: KeyBuf,
}

impl View for Chord {
    type V = Seq<Key>;

    closed spec fn view(&self) -> Seq<Key> {
        smallvec_keys(self.keys)
    }
}

impl Chord {
    #[verifier::type_invariant]
    spec fn bounded(self) -> bool {
        smallvec_keys(self.keys).len() <= 4
    }

    /// The empty chord.
    pub fn new() -> (c: Chord)
        ensures
            c@ == Seq::<Key>::empty(),
    {
        Chord { keys: sv_new() }
    }

    /// The chord of `keys`, in order.
    pub fn from_keys(keys: &[Key]) -> (c: Chord)
        requires
            keys@.len() <= crate::MAX_CHORD_LEN,
        ensures
            c@ == keys@,
    {
        let mut chord = Chord::new();
        let mut i: usize = 0;
        while i < keys.len()
            invariant
                i <= keys@.len() <= 4,
                chord@ == keys@.subrange(0, i as int),
            decreases keys.len() - i,
        {
            chord.push(keys[i]);
            i = i + 1;
            assert(chord@ =~= keys@.subrange(0, i as int));
        }
        assert(keys@.subrange(0, i as int) =~= keys@);
        chord
    }

    /// The chord with `next` pressed after it.
    pub fn followed_by(self, next: Key) -> (c: Chord)
        requires
            self@.len() < crate::MAX_CHORD_LEN,
        ensures
            c@ == self@.push(next),
    {
        let mut chord = self;
        chord.push(next);
        chord
    }

    fn push(&mut self, key: Key)
        requires
            old(self)@.len() < 4,
        ensures
            final(self)@ == old(self)@.push(key),
    {
        let mut keys = sv_clone(&self.keys);
        sv_push(&mut keys, key);
        *self = Chord { keys };
    }

    /// Appends the label of the chord to `out`.
    pub fn push_label(&self, out: &mut Vec<char>)
        ensures
            final(out)@ == old(out)@ + chord_label_spec(self@),
    {
        let keys = sv_as_slice(&self.keys);
        let ghost start = out@;
        let mut i: usize = 0;
        while i < keys.len()
            invariant
                i <= keys@.len(),
                keys@ == self@,
                out@ == start + chord_label_spec(keys@.subrange(0, i as int)),
            decreases keys.len() - i,
        {
            let ghost before = out@;
            if i > 0 {
                push_chars(out, &[',', ' ']);
            }
            keys[i].push_label(out);
            proof {
                let sub = keys@.subrange(0, i + 1);
                assert(sub.drop_last() =~= keys@.subrange(0, i as int));
                assert(sub.last() == keys@[i as int]);
                if i == 0 {
                    assert(sub.len() == 1);
                    assert(keys@.subrange(0, 0) =~= Seq::<Key>::empty());
                    assert(out@ =~= start + chord_label_spec(sub));
                } else {
                    assert(out@ =~= start + chord_label_spec(sub));
                }
            }
            i = i + 1;
        }
        assert(keys@.subrange(0, i as int) =~= keys@);
    }

    /// The labels of the keys joined by `", "`, such as `g, g`.
    pub fn label(&self) -> (r: String)
        ensures
            r@ == chord_label_spec(self@),
    {
        let mut chars: Vec<char> = Vec::new();
        self.push_label(&mut chars);
        assert(chars@ =~= chord_label_spec(self@));
        string_from_chars(&chars)
    }

    pub fn as_slice(&self) -> (s: &[Key])
        ensures
            s@ == self@,
    {
        sv_as_slice(&self.keys)
    }

    pub fn len(&self) -> (n: usize)
        ensures
            n == self@.len(),
            n <= crate::MAX_CHORD_LEN,
    {
        proof {
            use_type_invariant(self);
        }
        sv_len(&self.keys)
    }

    pub fn is_empty(&self) -> (r: bool)
        ensures
            r == (self@.len() == 0),
    {
        sv_len(&self.keys) == 0
    }

    pub fn first(&self) -> (r: Option<Key>)
        ensures
            r == (if self@.len() == 0 { None } else { Some(self@[0]) }),
    {
        let keys = sv_as_slice(&self.keys);
        if keys.len() == 0 {
            None
        } else {
            Some(keys[0])
        }
    }

    /// Whether the keys of `prefix` begin this chord.
    pub fn starts_with(&self, prefix: &Chord) -> (r: bool)
        ensures
            r == prefix@.is_prefix_of(self@),
    {
        let keys = sv_as_slice(&self.keys);
        let pre = sv_as_slice(&prefix.keys);
        if pre.len() > keys.len() {
            return false;
        }
        let mut i: usize = 0;
        while i < pre.len()
            invariant
                i <= pre@.len() <= keys@.len(),
                keys@ == self@,
                pre@ == prefix@,
                forall|j: int| 0 <= j < i ==> keys@[j] == pre@[j],
            decreases pre.len() - i,
        {
            if keys[i] != pre[i] {
                return false;
            }
            i = i + 1;
        }
        true
    }

    /// The chord of the first `len` keys.
    pub fn prefix(&self, len: usize) -> (c: Chord)
        requires
            len <= self@.len(),
        ensures
            c@ == self@.subrange(0, len as int),
    {
        proof {
            use_type_invariant(self);
        }
        let keys = sv_as_slice(&self.keys);
        let mut chord = Chord::new();
        let mut i: usize = 0;
        while i < len
            invariant
                i <= len <= keys@.len() <= 4,
                keys@ == self@,
                chord@ == keys@.subrange(0, i as int),
            decreases len - i,
        {
            chord.push(keys[i]);
            i = i + 1;
            assert(chord@ =~= keys@.subrange(0, i as int));
        }
        chord
    }

    /// Whether the two chords hold the same keys in the same order.
    pub fn same(&self, other: &Chord) -> (r: bool)
        ensures
            r == (self@ == other@),
    {
        let a = sv_as_slice(&self.keys);
        let b = sv_as_slice(&other.keys);
        if a.len() != b.len() {
            return false;
        }
        let mut i: usize = 0;
        while i < a.len()
            invariant
                i <= a@.len() == b@.len(),
                a@ == self@,
                b@ == other@,
                forall|j: int| 0 <= j < i ==> a@[j] == b@[j],
            decreases a.len() - i,
        {
            if a[i] != b[i] {
                return false;
            }
            i = i + 1;
        }
        assert(a@ =~= b@);
        true
    }

    /// The chord of one key.
    pub fn from_key(key: Key) -> (c: Chord)
        ensures
            c@ == seq![key],
    {
        let mut chord = Chord::new();
        chord.push(key);
        assert(chord@ =~= seq![key]);
        chord
    }
}

impl Default for Chord {
    /// The empty chord.
    fn default() -> (c: Chord)
        ensures
            c@ == Seq::<Key>::empty(),
    {
        Chord::new()
    }
}

impl Clone for Chord {
    fn clone(&self) -> (c: Chord)
        ensures
            c@ == self@,
    {
        proof {
            use_type_invariant(self);
        }
        Chord { keys: sv_clone(&self.keys) }
    }
}

impl PartialEq for Chord {
    fn eq(&self, other: &Chord) -> (r: bool) {
        self.same(other)
    }
}

impl Eq for Chord {
}

impl vstd::std_specs::cmp::PartialEqSpecImpl for Chord {
    open spec fn obeys_eq_spec() -> bool {
        true
    }

    open spec fn eq_spec(&self, other: &Chord) -> bool {
        self@ == other@
    }
}

impl Key {
    /// The chord of this key followed by `next`.
    pub fn followed_by(self, next: Key) -> (c: Chord)
        ensures
            c@ == seq![self, next],
    {
        let c = Chord::from_key(self).followed_by(next);
        assert(c@ =~= seq![self, next]);
        c
    }

    /// The chord of `keys`, in order.
    pub fn chord(keys: &[Key]) -> (c: Chord)
        requires
            keys@.len() <= crate::MAX_CHORD_LEN,
        ensures
            c@ == keys@,
    {
        Chord::from_keys(keys)
    }
}

} // verus!
