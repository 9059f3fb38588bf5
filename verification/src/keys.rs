use vstd::prelude::*;
use crate::assoc::{assoc_map, assoc_unique, lemma_assoc_len, lemma_assoc_take, lemma_assoc_dom, lemma_assoc_index, lemma_assoc_push, lemma_assoc_push_unique, lemma_assoc_update, lemma_assoc_empty};
use crate::bind::{Bind, BindKind, ChordPolicy, IntoBind};
use crate::chord::{Chord, chord_label_spec};
use crate::key::{Key, label_spec};
use crate::period::Period;
use crate::text::{sort_by_label, sorted_by_label, string_from_chars, seq_le, lemma_same_multiset};

verus! {

/// The entries of a list keyed by chords, with each chord taken by its keys.
pub open spec fn chord_entries<T>(s: Seq<(Chord, T)>) -> Seq<(Seq<Key>, T)> {
    Seq::new(s.len(), |i: int| (s[i].0@, s[i].1))
}

/// `p` is a proper prefix of `c` of at least one key.
pub open spec fn is_proper_prefix(p: Seq<Key>, c: Seq<Key>) -> bool {
    1 <= p.len() < c.len() && p == c.subrange(0, p.len() as int)
}

/// The index of the entry of `k`, if any.
fn find_key<A: Copy>(v: &Vec<(Key, A)>, k: Key) -> (r: Option<usize>)
    ensures
        match r {
            Some(i) => i < v@.len() && v@[i as int].0 == k,
            None => forall|i: int| 0 <= i < v@.len() ==> #[trigger] v@[i].0 != k,
        },
{
    let mut i: usize = 0;
    while i < v.len()
        invariant
            i <= v@.len(),
            forall|j: int| 0 <= j < i ==> #[trigger] v@[j].0 != k,
        decreases v.len() - i,
    {
        if v[i].0 == k {
            return Some(i);
        }
        i = i + 1;
    }
    None
}

/// The index of the entry of a chord with the keys of `c`, if any.
fn find_chord<T>(v: &Vec<(Chord, T)>, c: &Chord) -> (r: Option<usize>)
    ensures
        match r {
            Some(i) => i < v@.len() && v@[i as int].0@ == c@,
            None => forall|i: int| 0 <= i < v@.len() ==> #[trigger] v@[i].0@ != c@,
        },
{
    let mut i: usize = 0;
    while i < v.len()
        invariant
            i <= v@.len(),
            forall|j: int| 0 <= j < i ==> #[trigger] v@[j].0@ != c@,
        decreases v.len() - i,
    {
        if v[i].0.same(c) {
            return Some(i);
        }
        i = i + 1;
    }
    None
}

/// The value bound to `k`.
fn get_key<A: Copy>(v: &Vec<(Key, A)>, k: Key) -> (r: Option<A>)
    requires
        assoc_unique(v@),
    ensures
        r == (if assoc_map(v@).contains_key(k) { Some(assoc_map(v@)[k]) } else { None }),
{
    proof {
        lemma_assoc_dom(v@, k);
    }
    match find_key(v, k) {
        Some(i) => {
            proof {
                lemma_assoc_index(v@, i as int);
            }
            Some(v[i].1)
        },
        None => None,
    }
}

/// Binds `k` to `a`, replacing an earlier binding of `k`.
fn put_key<A: Copy>(v: &mut Vec<(Key, A)>, k: Key, a: A)
    requires
        assoc_unique(old(v)@),
    ensures
        assoc_unique(final(v)@),
        assoc_map(final(v)@) == assoc_map(old(v)@).insert(k, a),
{
    match find_key(v, k) {
        Some(i) => {
            proof {
                lemma_assoc_update(v@, i as int, a);
            }
            v.set(i, (k, a));
        },
        None => {
            proof {
                lemma_assoc_push_unique(v@, k, a);
                lemma_assoc_push(v@, k, a);
            }
            v.push((k, a));
        },
    }
}

/// Binds `k` to `a` unless `k` is bound already.
fn put_key_once<A: Copy>(v: &mut Vec<(Key, A)>, k: Key, a: A)
    requires
        assoc_unique(old(v)@),
    ensures
        assoc_unique(final(v)@),
        assoc_map(final(v)@) == if assoc_map(old(v)@).contains_key(k) {
            assoc_map(old(v)@)
        } else {
            assoc_map(old(v)@).insert(k, a)
        },
{
    proof {
        lemma_assoc_dom(v@, k);
    }
    if find_key(v, k).is_none() {
        proof {
            lemma_assoc_push_unique(v@, k, a);
            lemma_assoc_push(v@, k, a);
        }
        v.push((k, a));
    }
}

proof fn lemma_chord_entries_push<T>(s: Seq<(Chord, T)>, c: Chord, t: T)
    ensures
        chord_entries(s.push((c, t))) == chord_entries(s).push((c@, t)),
{
    assert(chord_entries(s.push((c, t))) =~= chord_entries(s).push((c@, t)));
}

proof fn lemma_chord_entries_update<T>(s: Seq<(Chord, T)>, i: int, c: Chord, t: T)
    requires
        0 <= i < s.len(),
    ensures
        chord_entries(s.update(i, (c, t))) == chord_entries(s).update(i, (c@, t)),
{
    assert(chord_entries(s.update(i, (c, t))) =~= chord_entries(s).update(i, (c@, t)));
}

/// The value bound to the keys of `c`.
fn get_chord<T: Copy>(v: &Vec<(Chord, T)>, c: &Chord) -> (r: Option<T>)
    requires
        assoc_unique(chord_entries(v@)),
    ensures
        r == (if assoc_map(chord_entries(v@)).contains_key(c@) {
            Some(assoc_map(chord_entries(v@))[c@])
        } else {
            None
        }),
{
    let ghost e = chord_entries(v@);
    proof {
        lemma_assoc_dom(e, c@);
        if exists|i: int| 0 <= i < e.len() && #[trigger] e[i].0 == c@ {
            let i = choose|i: int| 0 <= i < e.len() && #[trigger] e[i].0 == c@;
            assert(v@[i].0@ == c@);
        }
    }
    match find_chord(v, c) {
        Some(i) => {
            proof {
                lemma_assoc_index(e, i as int);
            }
            Some(v[i].1)
        },
        None => None,
    }
}

/// Binds the keys of `c` to `t`, replacing an earlier binding of them.
fn put_chord<T>(v: &mut Vec<(Chord, T)>, c: Chord, t: T)
    requires
        assoc_unique(chord_entries(old(v)@)),
    ensures
        assoc_unique(chord_entries(final(v)@)),
        assoc_map(chord_entries(final(v)@)) == assoc_map(chord_entries(old(v)@)).insert(c@, t),
{
    let ghost e = chord_entries(v@);
    match find_chord(v, &c) {
        Some(i) => {
            proof {
                lemma_assoc_update(e, i as int, t);
                lemma_chord_entries_update(v@, i as int, c, t);
                assert(e.update(i as int, (e[i as int].0, t)) == e.update(i as int, (c@, t)));
            }
            v.set(i, (c, t));
        },
        None => {
            proof {
                assert forall|i: int| 0 <= i < e.len() implies #[trigger] e[i].0 != c@ by {
                    assert(e[i].0 == v@[i].0@);
                }
                lemma_assoc_push_unique(e, c@, t);
                lemma_assoc_push(e, c@, t);
                lemma_chord_entries_push(v@, c, t);
            }
            v.push((c, t));
        },
    }
}

/// Whether the keys of `c` are bound.
fn has_chord<T>(v: &Vec<(Chord, T)>, c: &Chord) -> (r: bool)
    ensures
        r == assoc_map(chord_entries(v@)).contains_key(c@),
{
    let ghost e = chord_entries(v@);
    proof {
        lemma_assoc_dom(e, c@);
        if exists|i: int| 0 <= i < e.len() && #[trigger] e[i].0 == c@ {
            let i = choose|i: int| 0 <= i < e.len() && #[trigger] e[i].0 == c@;
            assert(v@[i].0@ == c@);
        }
    }
    let r = find_chord(v, c);
    proof {
        if let Some(i) = r {
            assert(e[i as int].0 == c@);
        }
    }
    r.is_some()
}


/// The keys of `p` are those of a chord in the list.
pub open spec fn listed(pl: Seq<Chord>, p: Seq<Key>) -> bool {
    exists|j: int| 0 <= j < pl.len() && (#[trigger] pl[j])@ == p
}

/// Every proper prefix of the first `n` chords of `cs` is listed in `pl`.
pub open spec fn covers<T>(pl: Seq<Chord>, cs: Seq<(Chord, T)>, n: int) -> bool {
    forall|a: int, l: int|
        0 <= a < n && 1 <= l < cs[a].0@.len() ==> listed(pl, #[trigger] cs[a].0@.subrange(0, l))
}

/// Every chord listed in `pl` is a proper prefix of a chord of `cs`.
pub open spec fn sound<T>(pl: Seq<Chord>, cs: Seq<(Chord, T)>) -> bool {
    forall|j: int|
        0 <= j < pl.len() ==> exists|a: int| 0 <= a < cs.len() && is_proper_prefix((#[trigger] pl[j])@, cs[a].0@)
}

/// One of the bindings from index `lo` on names the single key `k`.
pub open spec fn binds_single<K: IntoBind>(ks: Seq<K>, lo: int, k: Key) -> bool {
    exists|i: int| lo <= i < ks.len() && (#[trigger] ks[i].binding_spec()).len() == 1 && ks[i].binding_spec()[0] == k
}

/// One of the bindings from index `lo` on names the chord `c` of more than one key.
pub open spec fn binds_chord<K: IntoBind>(ks: Seq<K>, lo: int, c: Seq<Key>) -> bool {
    exists|i: int| lo <= i < ks.len() && (#[trigger] ks[i].binding_spec()).len() > 1 && ks[i].binding_spec() == c
}

/// One of the bindings from index `lo` on begins with the key `k`.
pub open spec fn binds_first<K: IntoBind>(ks: Seq<K>, lo: int, k: Key) -> bool {
    exists|i: int| lo <= i < ks.len() && (#[trigger] ks[i].binding_spec()).len() > 0 && ks[i].binding_spec()[0] == k
}

/// `m` with every key that `holds` accepts bound to `a`.
pub open spec fn bind_where<K, A>(m: Map<K, A>, holds: spec_fn(K) -> bool, a: A) -> Map<K, A> {
    Map::new(|k: K| m.contains_key(k) || holds(k), |k: K| if holds(k) { a } else { m[k] })
}

/// `c` begins with `prefix` and is longer than it.
pub open spec fn completes(prefix: Seq<Key>, c: Seq<Key>) -> bool {
    prefix.is_prefix_of(c) && c.len() > prefix.len()
}

/// Settings of a chord prefix that override those of the whole binding set.
#[derive(Debug, Clone, Copy, PartialEq, Eq, Structural)]
pub struct Prefix {
    pub timeout: Option<Period>,
    pub policy: Option<ChordPolicy>,
}

/// A set of key bindings: single keys, chords, and keys bound for release and
/// repeat, each bound to an action of type `A`.
pub struct Keys<A> {
    single_bindings: Vec<(Key, A)>,
    chord_bindings: Vec<(Chord, A)>,
    chord_prefixes: Vec<Chord>,
    prefix_options: Vec<(Chord, Prefix)>,
    chord_timeout: Option<Period>,
    chord_policy: ChordPolicy,
    release_bindings: Vec<(Key, A)>,
    repeat_bindings: Vec<(Key, A)>,
}

impl<A: Copy> Keys<A> {
    /// The single keys bound for press, each to its action.
    pub closed spec fn single_map(&self) -> Map<Key, A> {
        assoc_map(self.single_bindings@)
    }

    /// The chords bound for press, by their keys.
    pub closed spec fn chord_map(&self) -> Map<Seq<Key>, A> {
        assoc_map(chord_entries(self.chord_bindings@))
    }

    /// The keys bound for release.
    pub closed spec fn release_map(&self) -> Map<Key, A> {
        assoc_map(self.release_bindings@)
    }

    /// The keys bound for repeat.
    pub closed spec fn repeat_map(&self) -> Map<Key, A> {
        assoc_map(self.repeat_bindings@)
    }

    /// The settings given to chord prefixes.
    pub closed spec fn option_map(&self) -> Map<Seq<Key>, Prefix> {
        assoc_map(chord_entries(self.prefix_options@))
    }

    /// The timeout of chords whose prefix has none of its own.
    pub closed spec fn default_timeout(&self) -> Option<Period> {
        self.chord_timeout
    }

    /// The policy of chords whose prefix has none of its own.
    pub closed spec fn default_policy(&self) -> ChordPolicy {
        self.chord_policy
    }

    /// `p` begins some bound chord and is shorter than it.
    pub open spec fn is_prefix_spec(&self, p: Seq<Key>) -> bool {
        exists|c: Seq<Key>| #[trigger] self.chord_map().contains_key(c) && is_proper_prefix(p, c)
    }

    /// The binding set is well formed: no key or chord is bound twice, and the
    /// list of chord prefixes holds exactly the proper prefixes of the bound chords.
    pub closed spec fn wf(&self) -> bool {
        &&& assoc_unique(self.single_bindings@)
        &&& assoc_unique(chord_entries(self.chord_bindings@))
        &&& assoc_unique(self.release_bindings@)
        &&& assoc_unique(self.repeat_bindings@)
        &&& assoc_unique(chord_entries(self.prefix_options@))
        &&& sound(self.chord_prefixes@, self.chord_bindings@)
        &&& covers(self.chord_prefixes@, self.chord_bindings@, self.chord_bindings@.len() as int)
    }

    /// An empty binding set: no bindings, no chord timeout, and the `Discard` policy.
    pub fn new() -> (r: Keys<A>)
        ensures
            r.wf(),
            r.single_map() == Map::<Key, A>::empty(),
            r.chord_map() == Map::<Seq<Key>, A>::empty(),
            r.release_map() == Map::<Key, A>::empty(),
            r.repeat_map() == Map::<Key, A>::empty(),
            r.option_map() == Map::<Seq<Key>, Prefix>::empty(),
            r.default_timeout() == None::<Period>,
            r.default_policy() == ChordPolicy::Discard,
    {
        let r = Keys {
            single_bindings: Vec::new(),
            chord_bindings: Vec::new(),
            chord_prefixes: Vec::new(),
            prefix_options: Vec::new(),
            chord_timeout: None,
            chord_policy: ChordPolicy::Discard,
            release_bindings: Vec::new(),
            repeat_bindings: Vec::new(),
        };
        proof {
            lemma_assoc_empty(r.single_bindings@);
            lemma_assoc_empty(chord_entries(r.chord_bindings@));
            lemma_assoc_empty(r.release_bindings@);
            lemma_assoc_empty(r.repeat_bindings@);
            lemma_assoc_empty(chord_entries(r.prefix_options@));
        }
        r
    }

    /// Lists again the proper prefixes of the bound chords.
    fn rebuild_chord_prefixes(&mut self)
        ensures
            sound(final(self).chord_prefixes@, final(self).chord_bindings@),
            covers(final(self).chord_prefixes@, final(self).chord_bindings@, final(self).chord_bindings@.len() as int),
            final(self).single_bindings == old(self).single_bindings,
            final(self).chord_bindings == old(self).chord_bindings,
            final(self).prefix_options == old(self).prefix_options,
            final(self).chord_timeout == old(self).chord_timeout,
            final(self).chord_policy == old(self).chord_policy,
            final(self).release_bindings == old(self).release_bindings,
            final(self).repeat_bindings == old(self).repeat_bindings,
    {
        let mut prefixes: Vec<Chord> = Vec::new();
        let mut i: usize = 0;
        while i < self.chord_bindings.len()
            invariant
                i <= self.chord_bindings@.len(),
                sound(prefixes@, self.chord_bindings@),
                covers(prefixes@, self.chord_bindings@, i as int),
            decreases self.chord_bindings.len() - i,
        {
            let n = self.chord_bindings[i].0.len();
            let mut l: usize = 1;
            while l < n
                invariant
                    i < self.chord_bindings@.len(),
                    n == self.chord_bindings@[i as int].0@.len(),
                    1 <= l,
                    sound(prefixes@, self.chord_bindings@),
                    covers(prefixes@, self.chord_bindings@, i as int),
                    forall|m: int| 1 <= m < l && m < n ==> listed(prefixes@, #[trigger] self.chord_bindings@[i as int].0@.subrange(0, m)),
                decreases n - l,
            {
                let p = self.chord_bindings[i].0.prefix(l);
                let ghost old_pl = prefixes@;
                prefixes.push(p);
                proof {
                    let c = self.chord_bindings@[i as int].0@;
                    assert(prefixes@[old_pl.len() as int] == p);
                    assert(is_proper_prefix(p@, c));
                    assert forall|j: int| 0 <= j < prefixes@.len() implies exists|a: int| 0 <= a < self.chord_bindings@.len() && is_proper_prefix((#[trigger] prefixes@[j])@, self.chord_bindings@[a].0@) by {
                        if j < old_pl.len() {
                            assert(prefixes@[j] == old_pl[j]);
                        } else {
                            assert(is_proper_prefix(prefixes@[j]@, self.chord_bindings@[i as int].0@));
                        }
                    }
                    assert forall|a: int, m: int| 0 <= a < i && 1 <= m < self.chord_bindings@[a].0@.len() implies listed(prefixes@, #[trigger] self.chord_bindings@[a].0@.subrange(0, m)) by {
                        assert(listed(old_pl, self.chord_bindings@[a].0@.subrange(0, m)));
                        let j = choose|j: int| 0 <= j < old_pl.len() && (#[trigger] old_pl[j])@ == self.chord_bindings@[a].0@.subrange(0, m);
                        assert(prefixes@[j] == old_pl[j]);
                    }
                    assert forall|m: int| 1 <= m < l + 1 && m < n implies listed(prefixes@, #[trigger] self.chord_bindings@[i as int].0@.subrange(0, m)) by {
                        if m < l {
                            assert(listed(old_pl, self.chord_bindings@[i as int].0@.subrange(0, m)));
                            let j = choose|j: int| 0 <= j < old_pl.len() && (#[trigger] old_pl[j])@ == self.chord_bindings@[i as int].0@.subrange(0, m);
                            assert(prefixes@[j] == old_pl[j]);
                        } else {
                            assert(prefixes@[old_pl.len() as int]@ == c.subrange(0, m));
                        }
                    }
                }
                l = l + 1;
            }
            proof {
                assert forall|a: int, m: int| 0 <= a < i + 1 && 1 <= m < self.chord_bindings@[a].0@.len() implies listed(prefixes@, #[trigger] self.chord_bindings@[a].0@.subrange(0, m)) by {
                    if a == i {
                        assert(listed(prefixes@, self.chord_bindings@[i as int].0@.subrange(0, m)));
                    }
                }
            }
            i = i + 1;
        }
        self.chord_prefixes = prefixes;
    }

    /// The release and repeat bindings, prefix settings and defaults are those of `other`.
    pub open spec fn same_settings(&self, other: &Keys<A>) -> bool {
        &&& self.release_map() == other.release_map()
        &&& self.repeat_map() == other.repeat_map()
        &&& self.option_map() == other.option_map()
        &&& self.default_timeout() == other.default_timeout()
        &&& self.default_policy() == other.default_policy()
    }

    /// The press bindings are those of `other`.
    pub open spec fn same_press(&self, other: &Keys<A>) -> bool {
        &&& self.single_map() == other.single_map()
        &&& self.chord_map() == other.chord_map()
    }

    /// Whether `binding` is bound for press: as a single key if it has one key,
    /// else as a chord.
    pub fn has_press(&self, binding: &Chord) -> (r: bool)
        requires
            self.wf(),
        ensures
            r == if binding@.len() == 1 {
                self.single_map().contains_key(binding@[0])
            } else {
                self.chord_map().contains_key(binding@)
            },
    {
        if binding.len() == 1 {
            let key = binding.first().unwrap();
            get_key(&self.single_bindings, key).is_some()
        } else {
            has_chord(&self.chord_bindings, binding)
        }
    }

    /// Whether `key` is bound for release.
    pub fn has_release(&self, key: Key) -> (r: bool)
        requires
            self.wf(),
        ensures
            r == self.release_map().contains_key(key),
    {
        get_key(&self.release_bindings, key).is_some()
    }

    /// Whether `key` is bound for repeat.
    pub fn has_repeat(&self, key: Key) -> (r: bool)
        requires
            self.wf(),
        ensures
            r == self.repeat_map().contains_key(key),
    {
        get_key(&self.repeat_bindings, key).is_some()
    }

    fn put_chord_binding(&mut self, c: Chord, action: A)
        requires
            old(self).wf(),
        ensures
            final(self).wf(),
            final(self).single_map() == old(self).single_map(),
            final(self).chord_map() == old(self).chord_map().insert(c@, action),
            final(self).same_settings(old(self)),
    {
        put_chord(&mut self.chord_bindings, c, action);
        self.rebuild_chord_prefixes();
    }

    /// Binds `binding` for press to `action` unless it is bound already.
    pub fn insert_press_once(&mut self, binding: Chord, action: A)
        requires
            old(self).wf(),
        ensures
            final(self).wf(),
            final(self).single_map() == if binding@.len() == 1 && !old(self).single_map().contains_key(binding@[0]) {
                old(self).single_map().insert(binding@[0], action)
            } else {
                old(self).single_map()
            },
            final(self).chord_map() == if binding@.len() > 1 && !old(self).chord_map().contains_key(binding@) {
                old(self).chord_map().insert(binding@, action)
            } else {
                old(self).chord_map()
            },
            final(self).same_settings(old(self)),
    {
        let n = binding.len();
        if n == 1 {
            let key = binding.first().unwrap();
            put_key_once(&mut self.single_bindings, key, action);
        } else if n != 0 {
            if !has_chord(&self.chord_bindings, &binding) {
                self.put_chord_binding(binding, action);
            }
        }
    }

    /// Binds `key` for release to `action` unless it is bound already.
    pub fn insert_release_once(&mut self, key: Key, action: A)
        requires
            old(self).wf(),
        ensures
            final(self).wf(),
            final(self).same_press(old(self)),
            final(self).release_map() == if old(self).release_map().contains_key(key) {
                old(self).release_map()
            } else {
                old(self).release_map().insert(key, action)
            },
            final(self).repeat_map() == old(self).repeat_map(),
            final(self).option_map() == old(self).option_map(),
            final(self).default_timeout() == old(self).default_timeout(),
            final(self).default_policy() == old(self).default_policy(),
    {
        put_key_once(&mut self.release_bindings, key, action);
    }

    /// Binds `key` for repeat to `action` unless it is bound already.
    pub fn insert_repeat_once(&mut self, key: Key, action: A)
        requires
            old(self).wf(),
        ensures
            final(self).wf(),
            final(self).same_press(old(self)),
            final(self).repeat_map() == if old(self).repeat_map().contains_key(key) {
                old(self).repeat_map()
            } else {
                old(self).repeat_map().insert(key, action)
            },
            final(self).release_map() == old(self).release_map(),
            final(self).option_map() == old(self).option_map(),
            final(self).default_timeout() == old(self).default_timeout(),
            final(self).default_policy() == old(self).default_policy(),
    {
        put_key_once(&mut self.repeat_bindings, key, action);
    }

    /// Binds `binding` for press to `action`, replacing an earlier binding; an
    /// empty binding is ignored.
    pub fn insert_press(&mut self, binding: Chord, action: A)
        requires
            old(self).wf(),
        ensures
            final(self).wf(),
            final(self).single_map() == if binding@.len() == 1 {
                old(self).single_map().insert(binding@[0], action)
            } else {
                old(self).single_map()
            },
            final(self).chord_map() == if binding@.len() > 1 {
                old(self).chord_map().insert(binding@, action)
            } else {
                old(self).chord_map()
            },
            final(self).same_settings(old(self)),
    {
        let n = binding.len();
        if n == 1 {
            let key = binding.first().unwrap();
            put_key(&mut self.single_bindings, key, action);
        } else if n != 0 {
            self.put_chord_binding(binding, action);
        }
    }

    /// Binds `key` for release to `action`, replacing an earlier binding.
    pub fn insert_release(&mut self, key: Key, action: A)
        requires
            old(self).wf(),
        ensures
            final(self).wf(),
            final(self).same_press(old(self)),
            final(self).release_map() == old(self).release_map().insert(key, action),
            final(self).repeat_map() == old(self).repeat_map(),
            final(self).option_map() == old(self).option_map(),
            final(self).default_timeout() == old(self).default_timeout(),
            final(self).default_policy() == old(self).default_policy(),
    {
        put_key(&mut self.release_bindings, key, action);
    }

    /// Binds `key` for repeat to `action`, replacing an earlier binding.
    pub fn insert_repeat(&mut self, key: Key, action: A)
        requires
            old(self).wf(),
        ensures
            final(self).wf(),
            final(self).same_press(old(self)),
            final(self).repeat_map() == old(self).repeat_map().insert(key, action),
            final(self).release_map() == old(self).release_map(),
            final(self).option_map() == old(self).option_map(),
            final(self).default_timeout() == old(self).default_timeout(),
            final(self).default_policy() == old(self).default_policy(),
    {
        put_key(&mut self.repeat_bindings, key, action);
    }

    /// Binds the single key `key` for press to `action`.
    pub fn insert_press_single(&mut self, key: Key, action: A)
        requires
            old(self).wf(),
        ensures
            final(self).wf(),
            final(self).single_map() == old(self).single_map().insert(key, action),
            final(self).chord_map() == old(self).chord_map(),
            final(self).same_settings(old(self)),
    {
        put_key(&mut self.single_bindings, key, action);
    }

    /// Binds the chord `chord` for press to `action`, whatever its length.
    pub fn insert_press_chord(&mut self, chord: Chord, action: A)
        requires
            old(self).wf(),
        ensures
            final(self).wf(),
            final(self).single_map() == old(self).single_map(),
            final(self).chord_map() == old(self).chord_map().insert(chord@, action),
            final(self).same_settings(old(self)),
    {
        self.put_chord_binding(chord, action);
    }

    /// Binds `binding` for press as [`Keys::insert_press`] does.
    pub fn on_press_inner_arc(&mut self, binding: &Chord, action: A)
        requires
            old(self).wf(),
        ensures
            final(self).wf(),
            final(self).single_map() == if binding@.len() == 1 {
                old(self).single_map().insert(binding@[0], action)
            } else {
                old(self).single_map()
            },
            final(self).chord_map() == if binding@.len() > 1 {
                old(self).chord_map().insert(binding@, action)
            } else {
                old(self).chord_map()
            },
            final(self).same_settings(old(self)),
    {
        let n = binding.len();
        if n == 1 {
            let key = binding.first().unwrap();
            self.insert_press_single(key, action);
        } else if n != 0 {
            self.insert_press_chord(binding.clone(), action);
        }
    }

    /// Binds a chord for press to `action`.
    pub fn on_chord_press_inner_arc(&mut self, binding: Chord, action: A)
        requires
            old(self).wf(),
        ensures
            final(self).wf(),
            final(self).single_map() == old(self).single_map(),
            final(self).chord_map() == old(self).chord_map().insert(binding@, action),
            final(self).same_settings(old(self)),
    {
        self.insert_press_chord(binding, action);
    }

    /// Binds `key` for release to `action`.
    pub fn on_release_inner(&mut self, key: Key, action: A)
        requires
            old(self).wf(),
        ensures
            final(self).wf(),
            final(self).same_press(old(self)),
            final(self).release_map() == old(self).release_map().insert(key, action),
            final(self).repeat_map() == old(self).repeat_map(),
            final(self).option_map() == old(self).option_map(),
            final(self).default_timeout() == old(self).default_timeout(),
            final(self).default_policy() == old(self).default_policy(),
    {
        self.insert_release(key, action);
    }

    /// Binds `key` for repeat to `action`.
    pub fn on_repeat_inner(&mut self, key: Key, action: A)
        requires
            old(self).wf(),
        ensures
            final(self).wf(),
            final(self).same_press(old(self)),
            final(self).repeat_map() == old(self).repeat_map().insert(key, action),
            final(self).release_map() == old(self).release_map(),
            final(self).option_map() == old(self).option_map(),
            final(self).default_timeout() == old(self).default_timeout(),
            final(self).default_policy() == old(self).default_policy(),
    {
        self.insert_repeat(key, action);
    }

    /// Binds the non-empty `keys` for press: one key as a single binding, more as a chord.
    fn bind_action(&mut self, keys: Chord, action: A)
        requires
            old(self).wf(),
            keys@.len() > 0,
        ensures
            final(self).wf(),
            final(self).single_map() == if keys@.len() == 1 {
                old(self).single_map().insert(keys@[0], action)
            } else {
                old(self).single_map()
            },
            final(self).chord_map() == if keys@.len() > 1 {
                old(self).chord_map().insert(keys@, action)
            } else {
                old(self).chord_map()
            },
            final(self).same_settings(old(self)),
    {
        self.insert_press(keys, action);
    }

    /// Binds `key` for press to `action`, replacing an earlier binding of the same keys.
    pub fn on_press<K: IntoBind>(&mut self, key: K, action: A)
        requires
            old(self).wf(),
            key.binding_spec().len() > 0,
        ensures
            final(self).wf(),
            final(self).single_map() == if key.binding_spec().len() == 1 {
                old(self).single_map().insert(key.binding_spec()[0], action)
            } else {
                old(self).single_map()
            },
            final(self).chord_map() == if key.binding_spec().len() > 1 {
                old(self).chord_map().insert(key.binding_spec(), action)
            } else {
                old(self).chord_map()
            },
            final(self).same_settings(old(self)),
    {
        let binding = key.into_key_binding();
        self.bind_action(binding, action);
    }

    /// Binds the first key of `key` for release to `action`; an empty binding is ignored.
    pub fn on_release<K: IntoBind>(&mut self, key: K, action: A)
        requires
            old(self).wf(),
        ensures
            final(self).wf(),
            final(self).same_press(old(self)),
            final(self).release_map() == if key.binding_spec().len() > 0 {
                old(self).release_map().insert(key.binding_spec()[0], action)
            } else {
                old(self).release_map()
            },
            final(self).repeat_map() == old(self).repeat_map(),
            final(self).option_map() == old(self).option_map(),
            final(self).default_timeout() == old(self).default_timeout(),
            final(self).default_policy() == old(self).default_policy(),
    {
        let binding = key.into_key_binding();
        if let Some(k) = binding.first() {
            self.insert_release(k, action);
        }
    }

    /// Binds the first key of `key` for repeat to `action`; an empty binding is ignored.
    pub fn on_repeat<K: IntoBind>(&mut self, key: K, action: A)
        requires
            old(self).wf(),
        ensures
            final(self).wf(),
            final(self).same_press(old(self)),
            final(self).repeat_map() == if key.binding_spec().len() > 0 {
                old(self).repeat_map().insert(key.binding_spec()[0], action)
            } else {
                old(self).repeat_map()
            },
            final(self).release_map() == old(self).release_map(),
            final(self).option_map() == old(self).option_map(),
            final(self).default_timeout() == old(self).default_timeout(),
            final(self).default_policy() == old(self).default_policy(),
    {
        let binding = key.into_key_binding();
        if let Some(k) = binding.first() {
            self.insert_repeat(k, action);
        }
    }

    /// Sets the timeout of chords whose prefix has none of its own.
    pub fn chord_timeout(&mut self, timeout: Period)
        requires
            old(self).wf(),
        ensures
            final(self).wf(),
            final(self).same_press(old(self)),
            final(self).release_map() == old(self).release_map(),
            final(self).repeat_map() == old(self).repeat_map(),
            final(self).option_map() == old(self).option_map(),
            final(self).default_timeout() == Some(timeout),
            final(self).default_policy() == old(self).default_policy(),
    {
        self.chord_timeout = Some(timeout);
    }

    /// Chords whose prefix has no timeout of its own wait without end.
    pub fn clear_chord_timeout(&mut self)
        requires
            old(self).wf(),
        ensures
            final(self).wf(),
            final(self).same_press(old(self)),
            final(self).release_map() == old(self).release_map(),
            final(self).repeat_map() == old(self).repeat_map(),
            final(self).option_map() == old(self).option_map(),
            final(self).default_timeout() == None::<Period>,
            final(self).default_policy() == old(self).default_policy(),
    {
        self.chord_timeout = None;
    }

    /// Sets the policy of chords whose prefix has none of its own.
    pub fn chord_policy(&mut self, policy: ChordPolicy)
        requires
            old(self).wf(),
        ensures
            final(self).wf(),
            final(self).same_press(old(self)),
            final(self).release_map() == old(self).release_map(),
            final(self).repeat_map() == old(self).repeat_map(),
            final(self).option_map() == old(self).option_map(),
            final(self).default_timeout() == old(self).default_timeout(),
            final(self).default_policy() == policy,
    {
        self.chord_policy = policy;
    }

    /// The settings of `p`, or none.
    fn prefix_entry(&self, p: &Chord) -> (r: Prefix)
        requires
            self.wf(),
        ensures
            r == if self.option_map().contains_key(p@) {
                self.option_map()[p@]
            } else {
                Prefix { timeout: None, policy: None }
            },
    {
        match get_chord(&self.prefix_options, p) {
            Some(options) => options,
            None => Prefix { timeout: None, policy: None },
        }
    }

    /// Gives the chords that begin with `prefix` a timeout of their own.
    pub fn prefix_timeout<K: IntoBind>(&mut self, prefix: K, timeout: Period)
        requires
            old(self).wf(),
            prefix.binding_spec().len() > 0,
        ensures
            final(self).wf(),
            final(self).same_press(old(self)),
            final(self).release_map() == old(self).release_map(),
            final(self).repeat_map() == old(self).repeat_map(),
            final(self).option_map() == old(self).option_map().insert(
                prefix.binding_spec(),
                Prefix {
                    timeout: Some(timeout),
                    policy: if old(self).option_map().contains_key(prefix.binding_spec()) {
                        old(self).option_map()[prefix.binding_spec()].policy
                    } else {
                        None
                    },
                },
            ),
            final(self).default_timeout() == old(self).default_timeout(),
            final(self).default_policy() == old(self).default_policy(),
    {
        let p = prefix.into_key_binding();
        let entry = self.prefix_entry(&p);
        put_chord(&mut self.prefix_options, p, Prefix { timeout: Some(timeout), policy: entry.policy });
    }

    /// Gives the chords that begin with `prefix` a policy of their own.
    pub fn prefix_policy<K: IntoBind>(&mut self, prefix: K, policy: ChordPolicy)
        requires
            old(self).wf(),
            prefix.binding_spec().len() > 0,
        ensures
            final(self).wf(),
            final(self).same_press(old(self)),
            final(self).release_map() == old(self).release_map(),
            final(self).repeat_map() == old(self).repeat_map(),
            final(self).option_map() == old(self).option_map().insert(
                prefix.binding_spec(),
                Prefix {
                    timeout: if old(self).option_map().contains_key(prefix.binding_spec()) {
                        old(self).option_map()[prefix.binding_spec()].timeout
                    } else {
                        None
                    },
                    policy: Some(policy),
                },
            ),
            final(self).default_timeout() == old(self).default_timeout(),
            final(self).default_policy() == old(self).default_policy(),
    {
        let p = prefix.into_key_binding();
        let entry = self.prefix_entry(&p);
        put_chord(&mut self.prefix_options, p, Prefix { timeout: entry.timeout, policy: Some(policy) });
    }

    /// The action bound to `key` for press, if any.
    pub fn dispatch(&self, key: Key) -> (r: Option<A>)
        requires
            self.wf(),
        ensures
            r == (if self.single_map().contains_key(key) { Some(self.single_map()[key]) } else { None }),
    {
        get_key(&self.single_bindings, key)
    }

    /// The action bound to `key` for release, if any.
    pub fn dispatch_release(&self, key: Key) -> (r: Option<A>)
        requires
            self.wf(),
        ensures
            r == (if self.release_map().contains_key(key) { Some(self.release_map()[key]) } else { None }),
    {
        get_key(&self.release_bindings, key)
    }

    /// The action bound to `key` for repeat, if any.
    pub fn dispatch_repeat(&self, key: Key) -> (r: Option<A>)
        requires
            self.wf(),
        ensures
            r == (if self.repeat_map().contains_key(key) { Some(self.repeat_map()[key]) } else { None }),
    {
        get_key(&self.repeat_bindings, key)
    }

    /// The action bound to the chord `keys`, if any.
    pub fn dispatch_chord(&self, keys: &Chord) -> (r: Option<A>)
        requires
            self.wf(),
        ensures
            r == (if self.chord_map().contains_key(keys@) { Some(self.chord_map()[keys@]) } else { None }),
    {
        get_chord(&self.chord_bindings, keys)
    }

    /// Whether any chord is bound.
    pub fn has_chords(&self) -> (r: bool)
        requires
            self.wf(),
        ensures
            r == exists|c: Seq<Key>| #[trigger] self.chord_map().contains_key(c),
    {
        proof {
            let e = chord_entries(self.chord_bindings@);
            if e.len() > 0 {
                lemma_assoc_index(e, 0);
                assert(self.chord_map().contains_key(e[0].0));
            } else {
                assert forall|c: Seq<Key>| !(#[trigger] self.chord_map().contains_key(c)) by {
                    lemma_assoc_dom(e, c);
                }
            }
        }
        self.chord_bindings.len() != 0
    }

    /// Whether `prefix` begins a bound chord and is shorter than it.
    pub fn is_chord_prefix(&self, prefix: &Chord) -> (r: bool)
        requires
            self.wf(),
        ensures
            r == self.is_prefix_spec(prefix@),
    {
        let pl = &self.chord_prefixes;
        let ghost cs = self.chord_bindings@;
        let ghost e = chord_entries(cs);
        let mut j: usize = 0;
        while j < pl.len()
            invariant
                j <= pl@.len(),
                self.wf(),
                cs == self.chord_bindings@,
                e == chord_entries(cs),
                pl@ == self.chord_prefixes@,
                forall|m: int| 0 <= m < j ==> (#[trigger] pl@[m])@ != prefix@,
            decreases pl.len() - j,
        {
            if pl[j].same(prefix) {
                proof {
                    assert(sound(self.chord_prefixes@, cs));
                    let pj = pl@[j as int];
                    assert(exists|a: int| 0 <= a < cs.len() && is_proper_prefix(pj@, cs[a].0@));
                    let a = choose|a: int| 0 <= a < cs.len() && is_proper_prefix(pj@, cs[a].0@);
                    assert(e[a].0 == cs[a].0@);
                    lemma_assoc_dom(e, cs[a].0@);
                    assert(self.chord_map().contains_key(cs[a].0@));
                }
                return true;
            }
            j = j + 1;
        }
        proof {
            if self.is_prefix_spec(prefix@) {
                let c = choose|c: Seq<Key>| #[trigger] self.chord_map().contains_key(c) && is_proper_prefix(prefix@, c);
                lemma_assoc_dom(e, c);
                let a = choose|a: int| 0 <= a < e.len() && #[trigger] e[a].0 == c;
                assert(e[a].0 == cs[a].0@);
                assert(listed(pl@, cs[a].0@.subrange(0, prefix@.len() as int)));
                let m = choose|m: int| 0 <= m < pl@.len() && (#[trigger] pl@[m])@ == cs[a].0@.subrange(0, prefix@.len() as int);
                assert(pl@[m]@ == prefix@);
            }
        }
        false
    }

    /// The timeout of chords that begin with `p`: its own, else the default.
    pub open spec fn timeout_for_spec(&self, p: Seq<Key>) -> Option<Period> {
        if self.option_map().contains_key(p) && self.option_map()[p].timeout is Some {
            self.option_map()[p].timeout
        } else {
            self.default_timeout()
        }
    }

    /// The policy of chords that begin with `p`: its own, else the default.
    pub open spec fn policy_for_spec(&self, p: Seq<Key>) -> ChordPolicy {
        if self.option_map().contains_key(p) && self.option_map()[p].policy is Some {
            self.option_map()[p].policy.unwrap()
        } else {
            self.default_policy()
        }
    }

    pub fn timeout_for_prefix(&self, prefix: &Chord) -> (r: Option<Period>)
        requires
            self.wf(),
        ensures
            r == self.timeout_for_spec(prefix@),
    {
        match get_chord(&self.prefix_options, prefix) {
            Some(options) => match options.timeout {
                Some(t) => Some(t),
                None => self.chord_timeout,
            },
            None => self.chord_timeout,
        }
    }

    pub fn policy_for_prefix(&self, prefix: &Chord) -> (r: ChordPolicy)
        requires
            self.wf(),
        ensures
            r == self.policy_for_spec(prefix@),
    {
        match get_chord(&self.prefix_options, prefix) {
            Some(options) => match options.policy {
                Some(p) => p,
                None => self.chord_policy,
            },
            None => self.chord_policy,
        }
    }

    /// Binds each of `keys` for press to `action`.
    pub fn on_press_any<K: IntoBind>(&mut self, keys: Vec<K>, action: A)
        requires
            old(self).wf(),
            forall|i: int| 0 <= i < keys@.len() ==> (#[trigger] keys@[i].binding_spec()).len() > 0,
        ensures
            final(self).wf(),
            final(self).single_map() == bind_where(old(self).single_map(), |k: Key| binds_single(keys@, 0, k), action),
            final(self).chord_map() == bind_where(old(self).chord_map(), |c: Seq<Key>| binds_chord(keys@, 0, c), action),
            final(self).same_settings(old(self)),
    {
        let ghost orig = keys@;
        let ghost start = *self;
        let mut keys = keys;
        proof {
            assert(self.single_map() =~= bind_where(start.single_map(), |k: Key| binds_single(orig, orig.len() as int, k), action));
            assert(self.chord_map() =~= bind_where(start.chord_map(), |c: Seq<Key>| binds_chord(orig, orig.len() as int, c), action));
        }
        while keys.len() > 0
            invariant
                self.wf(),
                self.same_settings(&start),
                keys@ == orig.subrange(0, keys@.len() as int),
                keys@.len() <= orig.len(),
                forall|i: int| 0 <= i < orig.len() ==> (#[trigger] orig[i].binding_spec()).len() > 0,
                self.single_map() == bind_where(start.single_map(), |k: Key| binds_single(orig, keys@.len() as int, k), action),
                self.chord_map() == bind_where(start.chord_map(), |c: Seq<Key>| binds_chord(orig, keys@.len() as int, c), action),
            decreases keys.len(),
        {
            let ghost before = *self;
            let ghost n = keys@.len() - 1;
            let key = keys.pop().unwrap();
            proof {
                assert(orig[n] == key);
            }
            let binding = key.into_key_binding();
            self.bind_action(binding, action);
            proof {
                let b = orig[n].binding_spec();
                assert(keys@ =~= orig.subrange(0, n));
                assert forall|k: Key| binds_single(orig, n, k) == (binds_single(orig, n + 1, k) || (b.len() == 1 && b[0] == k)) by {
                    if binds_single(orig, n, k) {
                        let i = choose|i: int| n <= i < orig.len() && (#[trigger] orig[i].binding_spec()).len() == 1 && orig[i].binding_spec()[0] == k;
                        if i > n {
                            assert(binds_single(orig, n + 1, k));
                        }
                    }
                }
                assert forall|c: Seq<Key>| binds_chord(orig, n, c) == (binds_chord(orig, n + 1, c) || (b.len() > 1 && b == c)) by {
                    if binds_chord(orig, n, c) {
                        let i = choose|i: int| n <= i < orig.len() && (#[trigger] orig[i].binding_spec()).len() > 1 && orig[i].binding_spec() == c;
                        if i > n {
                            assert(binds_chord(orig, n + 1, c));
                        }
                    }
                }
                assert(self.single_map() =~= bind_where(start.single_map(), |k: Key| binds_single(orig, n, k), action));
                assert(self.chord_map() =~= bind_where(start.chord_map(), |c: Seq<Key>| binds_chord(orig, n, c), action));
            }
        }
    }

    /// Binds the first key of each of `keys` for release to `action`.
    pub fn on_release_any<K: IntoBind>(&mut self, keys: Vec<K>, action: A)
        requires
            old(self).wf(),
        ensures
            final(self).wf(),
            final(self).same_press(old(self)),
            final(self).release_map() == bind_where(old(self).release_map(), |k: Key| binds_first(keys@, 0, k), action),
            final(self).repeat_map() == old(self).repeat_map(),
            final(self).option_map() == old(self).option_map(),
            final(self).default_timeout() == old(self).default_timeout(),
            final(self).default_policy() == old(self).default_policy(),
    {
        let ghost orig = keys@;
        let ghost start = *self;
        let mut keys = keys;
        proof {
            assert(self.release_map() =~= bind_where(start.release_map(), |k: Key| binds_first(orig, orig.len() as int, k), action));
        }
        while keys.len() > 0
            invariant
                self.wf(),
                self.same_press(&start),
                self.repeat_map() == start.repeat_map(),
                self.option_map() == start.option_map(),
                self.default_timeout() == start.default_timeout(),
                self.default_policy() == start.default_policy(),
                keys@ == orig.subrange(0, keys@.len() as int),
                keys@.len() <= orig.len(),
                self.release_map() == bind_where(start.release_map(), |k: Key| binds_first(orig, keys@.len() as int, k), action),
            decreases keys.len(),
        {
            let ghost n = keys@.len() - 1;
            let key = keys.pop().unwrap();
            proof {
                assert(orig[n] == key);
            }
            let binding = key.into_key_binding();
            if let Some(k) = binding.first() {
                self.insert_release(k, action);
            }
            proof {
                let b = orig[n].binding_spec();
                assert(keys@ =~= orig.subrange(0, n));
                assert forall|k: Key| binds_first(orig, n, k) == (binds_first(orig, n + 1, k) || (b.len() > 0 && b[0] == k)) by {
                    if binds_first(orig, n, k) {
                        let i = choose|i: int| n <= i < orig.len() && (#[trigger] orig[i].binding_spec()).len() > 0 && orig[i].binding_spec()[0] == k;
                        if i > n {
                            assert(binds_first(orig, n + 1, k));
                        }
                    }
                }
                assert(self.release_map() =~= bind_where(start.release_map(), |k: Key| binds_first(orig, n, k), action));
            }
        }
    }

    /// Binds the first key of each of `keys` for repeat to `action`.
    pub fn on_repeat_any<K: IntoBind>(&mut self, keys: Vec<K>, action: A)
        requires
            old(self).wf(),
        ensures
            final(self).wf(),
            final(self).same_press(old(self)),
            final(self).repeat_map() == bind_where(old(self).repeat_map(), |k: Key| binds_first(keys@, 0, k), action),
            final(self).release_map() == old(self).release_map(),
            final(self).option_map() == old(self).option_map(),
            final(self).default_timeout() == old(self).default_timeout(),
            final(self).default_policy() == old(self).default_policy(),
    {
        let ghost orig = keys@;
        let ghost start = *self;
        let mut keys = keys;
        proof {
            assert(self.repeat_map() =~= bind_where(start.repeat_map(), |k: Key| binds_first(orig, orig.len() as int, k), action));
        }
        while keys.len() > 0
            invariant
                self.wf(),
                self.same_press(&start),
                self.release_map() == start.release_map(),
                self.option_map() == start.option_map(),
                self.default_timeout() == start.default_timeout(),
                self.default_policy() == start.default_policy(),
                keys@ == orig.subrange(0, keys@.len() as int),
                keys@.len() <= orig.len(),
                self.repeat_map() == bind_where(start.repeat_map(), |k: Key| binds_first(orig, keys@.len() as int, k), action),
            decreases keys.len(),
        {
            let ghost n = keys@.len() - 1;
            let key = keys.pop().unwrap();
            proof {
                assert(orig[n] == key);
            }
            let binding = key.into_key_binding();
            if let Some(k) = binding.first() {
                self.insert_repeat(k, action);
            }
            proof {
                let b = orig[n].binding_spec();
                assert(keys@ =~= orig.subrange(0, n));
                assert forall|k: Key| binds_first(orig, n, k) == (binds_first(orig, n + 1, k) || (b.len() > 0 && b[0] == k)) by {
                    if binds_first(orig, n, k) {
                        let i = choose|i: int| n <= i < orig.len() && (#[trigger] orig[i].binding_spec()).len() > 0 && orig[i].binding_spec()[0] == k;
                        if i > n {
                            assert(binds_first(orig, n + 1, k));
                        }
                    }
                }
                assert(self.repeat_map() =~= bind_where(start.repeat_map(), |k: Key| binds_first(orig, n, k), action));
            }
        }
    }

    fn copy_key_list(v: &Vec<(Key, A)>) -> (r: Vec<(Key, A)>)
        ensures
            r@ == v@,
    {
        let mut out: Vec<(Key, A)> = Vec::new();
        let mut i: usize = 0;
        while i < v.len()
            invariant
                i <= v@.len(),
                out@ == v@.subrange(0, i as int),
            decreases v.len() - i,
        {
            out.push(v[i]);
            i = i + 1;
            assert(out@ =~= v@.subrange(0, i as int));
        }
        assert(v@.subrange(0, i as int) =~= v@);
        out
    }

    /// The single keys bound for press, with their actions.
    pub fn single_binding_keys(&self) -> (r: Vec<(Key, A)>)
        requires
            self.wf(),
        ensures
            assoc_unique(r@),
            assoc_map(r@) == self.single_map(),
    {
        Self::copy_key_list(&self.single_bindings)
    }

    /// The keys bound for release, with their actions.
    pub fn release_binding_keys(&self) -> (r: Vec<(Key, A)>)
        requires
            self.wf(),
        ensures
            assoc_unique(r@),
            assoc_map(r@) == self.release_map(),
    {
        Self::copy_key_list(&self.release_bindings)
    }

    /// The keys bound for repeat, with their actions.
    pub fn repeat_binding_keys(&self) -> (r: Vec<(Key, A)>)
        requires
            self.wf(),
        ensures
            assoc_unique(r@),
            assoc_map(r@) == self.repeat_map(),
    {
        Self::copy_key_list(&self.repeat_bindings)
    }

    /// The chords bound for press, with their actions.
    pub fn chord_binding_keys(&self) -> (r: Vec<(Chord, A)>)
        requires
            self.wf(),
        ensures
            assoc_unique(chord_entries(r@)),
            assoc_map(chord_entries(r@)) == self.chord_map(),
    {
        let v = &self.chord_bindings;
        let mut out: Vec<(Chord, A)> = Vec::new();
        let mut i: usize = 0;
        while i < v.len()
            invariant
                i <= v@.len(),
                v@ == self.chord_bindings@,
                chord_entries(out@) == chord_entries(v@).subrange(0, i as int),
            decreases v.len() - i,
        {
            let c = v[i].0.clone();
            let ghost before = out@;
            let a = v[i].1;
            proof {
                lemma_chord_entries_push(before, c, a);
            }
            out.push((c, a));
            i = i + 1;
            assert(chord_entries(out@) =~= chord_entries(v@).subrange(0, i as int));
        }
        assert(chord_entries(v@).subrange(0, i as int) =~= chord_entries(v@));
        out
    }

    /// Adds every binding of `src` to this set, replacing bindings of the same keys.
    pub fn merge(&mut self, src: &Keys<A>)
        requires
            old(self).wf(),
            src.wf(),
        ensures
            final(self).wf(),
            final(self).single_map() == old(self).single_map().union_prefer_right(src.single_map()),
            final(self).chord_map() == old(self).chord_map().union_prefer_right(src.chord_map()),
            final(self).release_map() == old(self).release_map().union_prefer_right(src.release_map()),
            final(self).repeat_map() == old(self).repeat_map().union_prefer_right(src.repeat_map()),
            final(self).option_map() == old(self).option_map(),
            final(self).default_timeout() == old(self).default_timeout(),
            final(self).default_policy() == old(self).default_policy(),
    {
        let ghost start = *self;
        let singles = src.single_binding_keys();
        let chords = src.chord_binding_keys();
        let releases = src.release_binding_keys();
        let repeats = src.repeat_binding_keys();
        let mut i: usize = 0;
        proof {
            assert(singles@.subrange(0, 0) =~= Seq::<(Key, A)>::empty());
            assert(self.single_map() =~= start.single_map().union_prefer_right(assoc_map(singles@.subrange(0, 0))));
        }
        while i < singles.len()
            invariant
                i <= singles@.len(),
                self.wf(),
                self.chord_map() == start.chord_map(),
                self.same_settings(&start),
                self.single_map() == start.single_map().union_prefer_right(assoc_map(singles@.subrange(0, i as int))),
            decreases singles.len() - i,
        {
            let (k, a) = singles[i];
            self.insert_press_single(k, a);
            proof {
                lemma_assoc_take(singles@, i as int);
                assert(self.single_map() =~= start.single_map().union_prefer_right(assoc_map(singles@.subrange(0, i + 1))));
            }
            i = i + 1;
        }
        proof {
            assert(singles@.subrange(0, singles@.len() as int) =~= singles@);
        }
        let ghost mid = *self;
        let mut i: usize = 0;
        proof {
            assert(chord_entries(chords@).subrange(0, 0) =~= Seq::<(Seq<Key>, A)>::empty());
            assert(self.chord_map() =~= mid.chord_map().union_prefer_right(assoc_map(chord_entries(chords@).subrange(0, 0))));
        }
        while i < chords.len()
            invariant
                i <= chords@.len(),
                self.wf(),
                self.single_map() == mid.single_map(),
                self.same_settings(&start),
                self.chord_map() == mid.chord_map().union_prefer_right(assoc_map(chord_entries(chords@).subrange(0, i as int))),
            decreases chords.len() - i,
        {
            let c = chords[i].0.clone();
            self.insert_press_chord(c, chords[i].1);
            proof {
                lemma_assoc_take(chord_entries(chords@), i as int);
                assert(self.chord_map() =~= mid.chord_map().union_prefer_right(assoc_map(chord_entries(chords@).subrange(0, i + 1))));
            }
            i = i + 1;
        }
        proof {
            assert(chord_entries(chords@).subrange(0, chords@.len() as int) =~= chord_entries(chords@));
        }
        let mut i: usize = 0;
        proof {
            assert(releases@.subrange(0, 0) =~= Seq::<(Key, A)>::empty());
            assert(self.release_map() =~= start.release_map().union_prefer_right(assoc_map(releases@.subrange(0, 0))));
        }
        while i < releases.len()
            invariant
                i <= releases@.len(),
                self.wf(),
                self.single_map() == mid.single_map(),
                self.chord_map() == start.chord_map().union_prefer_right(src.chord_map()),
                self.repeat_map() == start.repeat_map(),
                self.option_map() == start.option_map(),
                self.default_timeout() == start.default_timeout(),
                self.default_policy() == start.default_policy(),
                self.release_map() == start.release_map().union_prefer_right(assoc_map(releases@.subrange(0, i as int))),
            decreases releases.len() - i,
        {
            let (k, a) = releases[i];
            self.insert_release(k, a);
            proof {
                lemma_assoc_take(releases@, i as int);
                assert(self.release_map() =~= start.release_map().union_prefer_right(assoc_map(releases@.subrange(0, i + 1))));
            }
            i = i + 1;
        }
        proof {
            assert(releases@.subrange(0, releases@.len() as int) =~= releases@);
        }
        let mut i: usize = 0;
        proof {
            assert(repeats@.subrange(0, 0) =~= Seq::<(Key, A)>::empty());
            assert(self.repeat_map() =~= start.repeat_map().union_prefer_right(assoc_map(repeats@.subrange(0, 0))));
        }
        while i < repeats.len()
            invariant
                i <= repeats@.len(),
                self.wf(),
                self.single_map() == mid.single_map(),
                self.chord_map() == start.chord_map().union_prefer_right(src.chord_map()),
                self.release_map() == start.release_map().union_prefer_right(src.release_map()),
                self.option_map() == start.option_map(),
                self.default_timeout() == start.default_timeout(),
                self.default_policy() == start.default_policy(),
                self.repeat_map() == start.repeat_map().union_prefer_right(assoc_map(repeats@.subrange(0, i as int))),
            decreases repeats.len() - i,
        {
            let (k, a) = repeats[i];
            self.insert_repeat(k, a);
            proof {
                lemma_assoc_take(repeats@, i as int);
                assert(self.repeat_map() =~= start.repeat_map().union_prefer_right(assoc_map(repeats@.subrange(0, i + 1))));
            }
            i = i + 1;
        }
        proof {
            assert(repeats@.subrange(0, repeats@.len() as int) =~= repeats@);
        }
    }

    /// The bound chords that complete `prefix`, each with its label, in order of label.
    #[verifier::spinoff_prover]
    pub fn chord_completions(&self, prefix: &Chord) -> (r: Vec<(Chord, String)>)
        requires
            self.wf(),
        ensures
            forall|m: int| 0 <= m < r@.len() ==> {
                &&& self.chord_map().contains_key((#[trigger] r@[m]).0@)
                &&& completes(prefix@, r@[m].0@)
                &&& r@[m].1@ == chord_label_spec(r@[m].0@)
            },
            forall|c: Seq<Key>| #[trigger] self.chord_map().contains_key(c) && completes(prefix@, c) ==> exists|m: int| 0 <= m < r@.len() && (#[trigger] r@[m]).0@ == c,
            forall|m1: int, m2: int| 0 <= m1 < m2 < r@.len() ==> (#[trigger] r@[m1]).0@ != (#[trigger] r@[m2]).0@,
            forall|m1: int, m2: int| 0 <= m1 < m2 < r@.len() ==> seq_le((#[trigger] r@[m1]).1@, (#[trigger] r@[m2]).1@),
    {
        let cs = &self.chord_bindings;
        let ghost e = chord_entries(cs@);
        let mut items: Vec<(Vec<char>, Chord)> = Vec::new();
        let mut i: usize = 0;
        while i < cs.len()
            invariant
                i <= cs@.len(),
                cs@ == self.chord_bindings@,
                e == chord_entries(cs@),
                assoc_unique(e),
                forall|m: int| 0 <= m < items@.len() ==> {
                    &&& exists|a: int| 0 <= a < i && #[trigger] cs@[a].0@ == (#[trigger] items@[m]).1@
                    &&& completes(prefix@, items@[m].1@)
                    &&& items@[m].0@ == chord_label_spec(items@[m].1@)
                },
                forall|a: int| 0 <= a < i && completes(prefix@, (#[trigger] cs@[a]).0@) ==> exists|m: int| 0 <= m < items@.len() && (#[trigger] items@[m]).1@ == cs@[a].0@,
                forall|m1: int, m2: int| 0 <= m1 < m2 < items@.len() ==> (#[trigger] items@[m1]).1@ != (#[trigger] items@[m2]).1@,
            decreases cs.len() - i,
        {
            let c = &cs[i].0;
            if c.starts_with(prefix) && c.len() > prefix.len() {
                let mut label: Vec<char> = Vec::new();
                c.push_label(&mut label);
                let ghost before = items@;
                items.push((label, c.clone()));
                proof {
                    let n = before.len() as int;
                    assert(items@[n].1@ == cs@[i as int].0@);
                    assert forall|m: int| 0 <= m < items@.len() implies exists|a: int| 0 <= a < i + 1 && #[trigger] cs@[a].0@ == (#[trigger] items@[m]).1@ by {
                        if m < n {
                            assert(items@[m] == before[m]);
                            let a = choose|a: int| 0 <= a < i && #[trigger] cs@[a].0@ == before[m].1@;
                            assert(cs@[a].0@ == items@[m].1@);
                        } else {
                            assert(cs@[i as int].0@ == items@[m].1@);
                        }
                    }
                    assert forall|a: int| 0 <= a < i + 1 && completes(prefix@, (#[trigger] cs@[a]).0@) implies exists|m: int| 0 <= m < items@.len() && (#[trigger] items@[m]).1@ == cs@[a].0@ by {
                        if a < i {
                            let m = choose|m: int| 0 <= m < before.len() && (#[trigger] before[m]).1@ == cs@[a].0@;
                            assert(items@[m] == before[m]);
                        } else {
                            assert(items@[n].1@ == cs@[a].0@);
                        }
                    }
                    assert forall|m1: int, m2: int| 0 <= m1 < m2 < items@.len() implies (#[trigger] items@[m1]).1@ != (#[trigger] items@[m2]).1@ by {
                        assert(items@[m1] == before[m1] || m1 == n);
                        if m2 == n {
                            assert(items@[m1] == before[m1]);
                            let a = choose|a: int| 0 <= a < i && #[trigger] cs@[a].0@ == before[m1].1@;
                            assert(e[a].0 == cs@[a].0@);
                            assert(e[i as int].0 == cs@[i as int].0@);
                        } else {
                            assert(items@[m1] == before[m1] && items@[m2] == before[m2]);
                        }
                    }
                }
            } else {
                proof {
                    assert(!completes(prefix@, cs@[i as int].0@));
                }
            }
            i = i + 1;
        }
        let ghost collected = items@;
        proof {
            assert(collected.no_duplicates()) by {
                assert forall|m1: int, m2: int| 0 <= m1 < collected.len() && 0 <= m2 < collected.len() && m1 != m2 implies collected[m1] != collected[m2] by {
                    if m1 < m2 {
                        assert(collected[m1].1@ != collected[m2].1@);
                    } else {
                        assert(collected[m2].1@ != collected[m1].1@);
                    }
                }
            }
        }
        let sorted = sort_by_label(items);
        proof {
            lemma_same_multiset(collected, sorted@);
        }
        let mut out: Vec<(Chord, String)> = Vec::new();
        let mut j: usize = 0;
        while j < sorted.len()
            invariant
                j <= sorted@.len(),
                out@.len() == j,
                forall|m: int| 0 <= m < j ==> (#[trigger] out@[m]).0@ == sorted@[m].1@ && out@[m].1@ == sorted@[m].0@,
            decreases sorted.len() - j,
        {
            let c = sorted[j].1.clone();
            let label = string_from_chars(&sorted[j].0);
            out.push((c, label));
            j = j + 1;
        }
        proof {
            let e = chord_entries(cs@);
            assert forall|m: int| 0 <= m < out@.len() implies {
                &&& self.chord_map().contains_key((#[trigger] out@[m]).0@)
                &&& completes(prefix@, out@[m].0@)
                &&& out@[m].1@ == chord_label_spec(out@[m].0@)
            } by {
                assert(collected.contains(sorted@[m]));
                let k = choose|k: int| 0 <= k < collected.len() && collected[k] == sorted@[m];
                let a = choose|a: int| 0 <= a < cs@.len() && #[trigger] cs@[a].0@ == collected[k].1@;
                assert(e[a].0 == cs@[a].0@);
                lemma_assoc_dom(e, cs@[a].0@);
            }
            assert forall|c: Seq<Key>| #[trigger] self.chord_map().contains_key(c) && completes(prefix@, c) implies exists|m: int| 0 <= m < out@.len() && (#[trigger] out@[m]).0@ == c by {
                lemma_assoc_dom(e, c);
                let a = choose|a: int| 0 <= a < e.len() && #[trigger] e[a].0 == c;
                assert(e[a].0 == cs@[a].0@);
                let k = choose|k: int| 0 <= k < collected.len() && (#[trigger] collected[k]).1@ == cs@[a].0@;
                assert(sorted@.contains(collected[k]));
                let m = choose|m: int| 0 <= m < sorted@.len() && sorted@[m] == collected[k];
                assert(out@[m].0@ == c);
            }
            assert forall|m1: int, m2: int| 0 <= m1 < m2 < out@.len() implies (#[trigger] out@[m1]).0@ != (#[trigger] out@[m2]).0@ by {
                assert(sorted@[m1] != sorted@[m2]);
                assert(collected.contains(sorted@[m1]));
                assert(collected.contains(sorted@[m2]));
                let k1 = choose|k: int| 0 <= k < collected.len() && collected[k] == sorted@[m1];
                let k2 = choose|k: int| 0 <= k < collected.len() && collected[k] == sorted@[m2];
                if k1 < k2 {
                    assert(collected[k1].1@ != collected[k2].1@);
                } else {
                    assert(collected[k2].1@ != collected[k1].1@);
                }
            }
            assert forall|m1: int, m2: int| 0 <= m1 < m2 < out@.len() implies seq_le((#[trigger] out@[m1]).1@, (#[trigger] out@[m2]).1@) by {
                assert(seq_le(sorted@[m1].0@, sorted@[m2].0@));
            }
        }
        out
    }

    /// `d` lists every press binding, single keys and chords, each once with
    /// its label, in order of label: what [`Keys::descriptions`] gives.
    pub open spec fn is_description_list(&self, d: Seq<Bind>) -> bool {
        &&& forall|m: int| 0 <= m < d.len() ==> {
            &&& (#[trigger] d[m]).label@ == chord_label_spec(d[m].keys@)
            &&& d[m].kind == BindKind::Single ==> d[m].keys@.len() == 1 && self.single_map().contains_key(d[m].keys@[0])
            &&& d[m].kind == BindKind::Chord ==> self.chord_map().contains_key(d[m].keys@)
        }
        &&& forall|k: Key| #[trigger] self.single_map().contains_key(k) ==> exists|m: int| 0 <= m < d.len() && (#[trigger] d[m]).kind == BindKind::Single && d[m].keys@ == seq![k]
        &&& forall|c: Seq<Key>| #[trigger] self.chord_map().contains_key(c) ==> exists|m: int| 0 <= m < d.len() && (#[trigger] d[m]).kind == BindKind::Chord && d[m].keys@ == c
        &&& d.len() == self.single_map().dom().len() + self.chord_map().dom().len()
        &&& forall|m1: int, m2: int| 0 <= m1 < m2 < d.len() ==> seq_le((#[trigger] d[m1]).label@, (#[trigger] d[m2]).label@)
    }

    /// Every press binding, single keys and chords, with its label, in order of label.
    pub fn descriptions(&self) -> (r: Vec<Bind>)
        requires
            self.wf(),
        ensures
            forall|m: int| 0 <= m < r@.len() ==> {
                &&& (#[trigger] r@[m]).label@ == chord_label_spec(r@[m].keys@)
                &&& r@[m].kind == BindKind::Single ==> r@[m].keys@.len() == 1 && self.single_map().contains_key(r@[m].keys@[0])
                &&& r@[m].kind == BindKind::Chord ==> self.chord_map().contains_key(r@[m].keys@)
            },
            forall|k: Key| #[trigger] self.single_map().contains_key(k) ==> exists|m: int| 0 <= m < r@.len() && (#[trigger] r@[m]).kind == BindKind::Single && r@[m].keys@ == seq![k],
            forall|c: Seq<Key>| #[trigger] self.chord_map().contains_key(c) ==> exists|m: int| 0 <= m < r@.len() && (#[trigger] r@[m]).kind == BindKind::Chord && r@[m].keys@ == c,
            r@.len() == self.single_map().dom().len() + self.chord_map().dom().len(),
            forall|m1: int, m2: int| 0 <= m1 < m2 < r@.len() ==> seq_le((#[trigger] r@[m1]).label@, (#[trigger] r@[m2]).label@),
    {
        let ss = &self.single_bindings;
        let cs = &self.chord_bindings;
        let ghost e = chord_entries(cs@);
        let mut items: Vec<(Vec<char>, Bind)> = Vec::new();
        let mut i: usize = 0;
        while i < ss.len()
            invariant
                i <= ss@.len(),
                ss@ == self.single_bindings@,
                items@.len() == i,
                forall|m: int| 0 <= m < i ==> {
                    &&& (#[trigger] items@[m]).1.kind == BindKind::Single
                    &&& items@[m].1.keys@ == seq![ss@[m].0]
                    &&& items@[m].0@ == items@[m].1.label@
                    &&& items@[m].1.label@ == chord_label_spec(items@[m].1.keys@)
                },
            decreases ss.len() - i,
        {
            let keys = Chord::from_key(ss[i].0);
            let mut label: Vec<char> = Vec::new();
            keys.push_label(&mut label);
            let text = string_from_chars(&label);
            items.push((label, Bind { keys, label: text, kind: BindKind::Single }));
            i = i + 1;
        }
        let mut i: usize = 0;
        let ghost n = ss@.len();
        while i < cs.len()
            invariant
                i <= cs@.len(),
                ss@ == self.single_bindings@,
                cs@ == self.chord_bindings@,
                n == ss@.len(),
                items@.len() == n + i,
                forall|m: int| 0 <= m < n ==> {
                    &&& (#[trigger] items@[m]).1.kind == BindKind::Single
                    &&& items@[m].1.keys@ == seq![ss@[m].0]
                    &&& items@[m].0@ == items@[m].1.label@
                    &&& items@[m].1.label@ == chord_label_spec(items@[m].1.keys@)
                },
                forall|m: int| n <= m < n + i ==> {
                    &&& (#[trigger] items@[m]).1.kind == BindKind::Chord
                    &&& items@[m].1.keys@ == cs@[m - n].0@
                    &&& items@[m].0@ == items@[m].1.label@
                    &&& items@[m].1.label@ == chord_label_spec(items@[m].1.keys@)
                },
            decreases cs.len() - i,
        {
            let keys = cs[i].0.clone();
            let mut label: Vec<char> = Vec::new();
            keys.push_label(&mut label);
            let text = string_from_chars(&label);
            items.push((label, Bind { keys, label: text, kind: BindKind::Chord }));
            i = i + 1;
        }
        let ghost collected = items@;
        let sorted = sort_by_label(items);
        proof {
            lemma_same_multiset(collected, sorted@);
        }
        let ghost all = sorted@;
        let mut sorted = sorted;
        let mut out: Vec<Bind> = Vec::new();
        while sorted.len() > 0
            invariant
                out@.len() <= all.len(),
                sorted@ == all.subrange(out@.len() as int, all.len() as int),
                forall|m: int| 0 <= m < out@.len() ==> #[trigger] out@[m] == all[m].1,
            decreases sorted.len(),
        {
            let ghost k: int = out@.len() as int;
            let item = sorted.remove(0);
            proof {
                assert(item == all[k]);
                assert(sorted@ =~= all.subrange(k + 1, all.len() as int));
            }
            out.push(item.1);
        }
        proof {
            let ce = chord_entries(cs@);
            lemma_assoc_len(ss@);
            lemma_assoc_len(ce);
            assert forall|m: int| 0 <= m < out@.len() implies {
                &&& (#[trigger] out@[m]).label@ == chord_label_spec(out@[m].keys@)
                &&& out@[m].kind == BindKind::Single ==> out@[m].keys@.len() == 1 && self.single_map().contains_key(out@[m].keys@[0])
                &&& out@[m].kind == BindKind::Chord ==> self.chord_map().contains_key(out@[m].keys@)
            } by {
                assert(collected.contains(all[m]));
                let k = choose|k: int| 0 <= k < collected.len() && collected[k] == all[m];
                if k < n {
                    assert(collected[k].1.kind == BindKind::Single);
                    lemma_assoc_dom(ss@, ss@[k].0);
                } else {
                    assert(collected[k].1.kind == BindKind::Chord);
                    assert(ce[k - n].0 == cs@[k - n].0@);
                    lemma_assoc_dom(ce, cs@[k - n].0@);
                }
            }
            assert forall|kk: Key| #[trigger] self.single_map().contains_key(kk) implies exists|m: int| 0 <= m < out@.len() && (#[trigger] out@[m]).kind == BindKind::Single && out@[m].keys@ == seq![kk] by {
                lemma_assoc_dom(ss@, kk);
                let a = choose|a: int| 0 <= a < ss@.len() && #[trigger] ss@[a].0 == kk;
                assert(collected[a].1.keys@ == seq![kk]);
                assert(all.contains(collected[a]));
                let m = choose|m: int| 0 <= m < all.len() && all[m] == collected[a];
                assert(out@[m] == all[m].1);
            }
            assert forall|c: Seq<Key>| #[trigger] self.chord_map().contains_key(c) implies exists|m: int| 0 <= m < out@.len() && (#[trigger] out@[m]).kind == BindKind::Chord && out@[m].keys@ == c by {
                lemma_assoc_dom(ce, c);
                let a = choose|a: int| 0 <= a < ce.len() && #[trigger] ce[a].0 == c;
                assert(ce[a].0 == cs@[a].0@);
                assert(collected[n + a].1.keys@ == c);
                assert(all.contains(collected[n + a]));
                let m = choose|m: int| 0 <= m < all.len() && all[m] == collected[n + a];
                assert(out@[m] == all[m].1);
            }
            assert forall|m1: int, m2: int| 0 <= m1 < m2 < out@.len() implies seq_le((#[trigger] out@[m1]).label@, (#[trigger] out@[m2]).label@) by {
                assert(seq_le(all[m1].0@, all[m2].0@));
                assert(collected.contains(all[m1]));
                assert(collected.contains(all[m2]));
                let k1 = choose|k: int| 0 <= k < collected.len() && collected[k] == all[m1];
                let k2 = choose|k: int| 0 <= k < collected.len() && collected[k] == all[m2];
                assert(collected[k1].0@ == collected[k1].1.label@);
                assert(collected[k2].0@ == collected[k2].1.label@);
            }
        }
        out
    }

    /// `l` is the label of a press binding.
    pub open spec fn is_binding_label(&self, l: Seq<char>) -> bool {
        ||| exists|k: Key| #[trigger] self.single_map().contains_key(k) && l == chord_label_spec(seq![k])
        ||| exists|c: Seq<Key>| #[trigger] self.chord_map().contains_key(c) && l == chord_label_spec(c)
    }

    /// The labels of every press binding, in order.
    pub fn labels(&self) -> (r: Vec<String>)
        requires
            self.wf(),
        ensures
            forall|m: int| 0 <= m < r@.len() ==> self.is_binding_label((#[trigger] r@[m])@),
            forall|k: Key| #[trigger] self.single_map().contains_key(k) ==> exists|m: int| 0 <= m < r@.len() && (#[trigger] r@[m])@ == chord_label_spec(seq![k]),
            forall|c: Seq<Key>| #[trigger] self.chord_map().contains_key(c) ==> exists|m: int| 0 <= m < r@.len() && (#[trigger] r@[m])@ == chord_label_spec(c),
            r@.len() == self.single_map().dom().len() + self.chord_map().dom().len(),
            forall|m1: int, m2: int| 0 <= m1 < m2 < r@.len() ==> seq_le((#[trigger] r@[m1])@, (#[trigger] r@[m2])@),
            exists|d: Seq<Bind>| #[trigger] self.is_description_list(d) && d.len() == r@.len() && forall|m: int| 0 <= m < d.len() ==> (#[trigger] r@[m])@ == d[m].label@,
    {
        let descs = self.descriptions();
        proof {
            assert(self.is_description_list(descs@));
        }
        let ghost all = descs@;
        let mut rest = descs;
        let mut out: Vec<String> = Vec::new();
        while rest.len() > 0
            invariant
                out@.len() <= all.len(),
                rest@ == all.subrange(out@.len() as int, all.len() as int),
                forall|m: int| 0 <= m < out@.len() ==> (#[trigger] out@[m])@ == all[m].label@,
            decreases rest.len(),
        {
            let ghost k: int = out@.len() as int;
            let item = rest.remove(0);
            proof {
                assert(item == all[k]);
                assert(rest@ =~= all.subrange(k + 1, all.len() as int));
            }
            out.push(item.label);
        }
        proof {
            assert forall|m: int| 0 <= m < out@.len() implies self.is_binding_label((#[trigger] out@[m])@) by {
                let d = all[m];
                assert(out@[m]@ == d.label@);
                if d.kind == BindKind::Single {
                    let k0 = d.keys@[0];
                    assert(d.keys@ =~= seq![k0]);
                    assert(self.single_map().contains_key(k0) && out@[m]@ == chord_label_spec(seq![k0]));
                } else {
                    assert(self.chord_map().contains_key(d.keys@) && out@[m]@ == chord_label_spec(d.keys@));
                }
            }
            assert forall|k: Key| #[trigger] self.single_map().contains_key(k) implies exists|m: int| 0 <= m < out@.len() && (#[trigger] out@[m])@ == chord_label_spec(seq![k]) by {
                let m = choose|m: int| 0 <= m < all.len() && (#[trigger] all[m]).kind == BindKind::Single && all[m].keys@ == seq![k];
                assert(out@[m]@ == all[m].label@);
            }
            assert forall|c: Seq<Key>| #[trigger] self.chord_map().contains_key(c) implies exists|m: int| 0 <= m < out@.len() && (#[trigger] out@[m])@ == chord_label_spec(c) by {
                let m = choose|m: int| 0 <= m < all.len() && (#[trigger] all[m]).kind == BindKind::Chord && all[m].keys@ == c;
                assert(out@[m]@ == all[m].label@);
            }
            assert forall|m1: int, m2: int| 0 <= m1 < m2 < out@.len() implies seq_le((#[trigger] out@[m1])@, (#[trigger] out@[m2])@) by {
                assert(seq_le(all[m1].label@, all[m2].label@));
            }
        }
        out
    }
}


/// A key bound for press dispatches to the action it was bound to last:
/// binding `key` (as `on_press` does) and then dispatching it gives `action`,
/// and every other key dispatches as before.
pub proof fn law_press_binding_dispatches<A: Copy>(before: Keys<A>, after: Keys<A>, key: Key, action: A, other: Key)
    requires
        after.single_map() == before.single_map().insert(key, action),
        other != key,
    ensures
        after.single_map().contains_key(key),
        after.single_map()[key] == action,
        after.single_map().contains_key(other) == before.single_map().contains_key(other),
        before.single_map().contains_key(other) ==> after.single_map()[other] == before.single_map()[other],
{
}

/// Merging `src` into a binding set: a key or chord bound in `src` dispatches
/// to its action there; any other dispatches as before.
pub proof fn law_merge_prefers_source<A: Copy>(before: Keys<A>, src: Keys<A>, after: Keys<A>, key: Key, chord: Seq<Key>)
    requires
        after.single_map() == before.single_map().union_prefer_right(src.single_map()),
        after.chord_map() == before.chord_map().union_prefer_right(src.chord_map()),
    ensures
        src.single_map().contains_key(key) ==> after.single_map().contains_key(key) && after.single_map()[key] == src.single_map()[key],
        !src.single_map().contains_key(key) ==> {
            &&& after.single_map().contains_key(key) == before.single_map().contains_key(key)
            &&& before.single_map().contains_key(key) ==> after.single_map()[key] == before.single_map()[key]
        },
        src.chord_map().contains_key(chord) ==> after.chord_map().contains_key(chord) && after.chord_map()[chord] == src.chord_map()[chord],
        !src.chord_map().contains_key(chord) ==> {
            &&& after.chord_map().contains_key(chord) == before.chord_map().contains_key(chord)
            &&& before.chord_map().contains_key(chord) ==> after.chord_map()[chord] == before.chord_map()[chord]
        },
{
}


/// A chord prefix uses its own timeout only where it has one: a prefix with
/// no settings, or whose settings hold only a policy, times out after the
/// binding set's default. Likewise for the policy.
pub proof fn law_prefix_settings_fall_back<A: Copy>(k: Keys<A>, p: Seq<Key>)
    ensures
        !k.option_map().contains_key(p) ==> k.timeout_for_spec(p) == k.default_timeout(),
        !k.option_map().contains_key(p) ==> k.policy_for_spec(p) == k.default_policy(),
        k.option_map().contains_key(p) && k.option_map()[p].timeout is None ==> k.timeout_for_spec(p) == k.default_timeout(),
        k.option_map().contains_key(p) && k.option_map()[p].policy is None ==> k.policy_for_spec(p) == k.default_policy(),
        k.option_map().contains_key(p) ==> match k.option_map()[p].timeout {
            Some(t) => k.timeout_for_spec(p) == Some(t),
            None => k.timeout_for_spec(p) == k.default_timeout(),
        },
        k.option_map().contains_key(p) ==> match k.option_map()[p].policy {
            Some(q) => k.policy_for_spec(p) == q,
            None => k.policy_for_spec(p) == k.default_policy(),
        },
{
}

/// Giving a prefix a policy (as `prefix_policy` does) sets the policy of the
/// chords that begin with it and leaves their timeout as it was: the
/// default where the prefix had no timeout of its own.
pub proof fn law_prefix_policy_keeps_timeout<A: Copy>(before: Keys<A>, after: Keys<A>, p: Seq<Key>, policy: ChordPolicy, other: Seq<Key>)
    requires
        after.option_map() == before.option_map().insert(
            p,
            Prefix {
                timeout: if before.option_map().contains_key(p) { before.option_map()[p].timeout } else { None },
                policy: Some(policy),
            },
        ),
        after.default_timeout() == before.default_timeout(),
        after.default_policy() == before.default_policy(),
        other != p,
    ensures
        after.policy_for_spec(p) == policy,
        after.timeout_for_spec(p) == before.timeout_for_spec(p),
        before.option_map().contains_key(p) && before.option_map()[p].timeout is Some
            ==> after.timeout_for_spec(p) == before.option_map()[p].timeout,
        !(before.option_map().contains_key(p) && before.option_map()[p].timeout is Some)
            ==> after.timeout_for_spec(p) == before.default_timeout(),
        after.timeout_for_spec(other) == before.timeout_for_spec(other),
        after.policy_for_spec(other) == before.policy_for_spec(other),
{
}

/// Giving a prefix a timeout (as `prefix_timeout` does) sets the timeout of
/// the chords that begin with it and leaves their policy as it was.
pub proof fn law_prefix_timeout_keeps_policy<A: Copy>(before: Keys<A>, after: Keys<A>, p: Seq<Key>, timeout: Period, other: Seq<Key>)
    requires
        after.option_map() == before.option_map().insert(
            p,
            Prefix {
                timeout: Some(timeout),
                policy: if before.option_map().contains_key(p) { before.option_map()[p].policy } else { None },
            },
        ),
        after.default_timeout() == before.default_timeout(),
        after.default_policy() == before.default_policy(),
        other != p,
    ensures
        after.timeout_for_spec(p) == Some(timeout),
        after.policy_for_spec(p) == before.policy_for_spec(p),
        after.timeout_for_spec(other) == before.timeout_for_spec(other),
        after.policy_for_spec(other) == before.policy_for_spec(other),
{
}

/// Setting the default chord timeout (as `chord_timeout` does) reaches every
/// prefix without a timeout of its own, and no other.
pub proof fn law_default_timeout_reaches_unset_prefixes<A: Copy>(before: Keys<A>, after: Keys<A>, timeout: Period, p: Seq<Key>)
    requires
        after.option_map() == before.option_map(),
        after.default_timeout() == Some(timeout),
    ensures
        !(before.option_map().contains_key(p) && before.option_map()[p].timeout is Some)
            ==> after.timeout_for_spec(p) == Some(timeout),
        before.option_map().contains_key(p) && before.option_map()[p].timeout is Some
            ==> after.timeout_for_spec(p) == before.timeout_for_spec(p),
{
}

} // verus!
