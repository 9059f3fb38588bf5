use vstd::prelude::*;
use crate::effects::{Effects, EffectId, SlotId};
use crate::load::Load;
use crate::opts::QueryOpts;
use crate::period::Period;
use std::marker::PhantomData;
use std::collections::HashMap;

verus! {

broadcast use vstd::std_specs::hash::group_hash_axioms;

/// How a fetch of a query began.
#[derive(Debug, Clone, Copy, PartialEq, Eq, Structural)]
pub enum FetchStart {
    /// A fresh cached value was served; no fetch runs.
    Served,
    /// A fetch of the same key is under way already; nothing changed.
    Skipped,
    /// Start a fetch; its result is to be handed back with this generation.
    Started(u64),
}

/// A value fetched by key, with its loading status. Queries may share work:
/// a fetch of a key already under way is not started again, and a fetched
/// value may be served from cache for a while.
pub struct Query<T, E> {
    data: Option<T>,
    loading: bool,
    stale: bool,
    error: Option<E>,
    status: Load,
    has_value: bool,
    initial: T,
    fetched: bool,
    generation: u64,
    options: QueryOpts,
    data_slot: SlotId,
    effect_id: EffectId,
    fetch_id: u32,
    in_flight: Option<u64>,
    cache: HashMap<u64, (T, Period)>,
}

/// A cached value written at `written` is still fresh at `now` under `ttl`.
pub open spec fn fresh_spec(written: Period, now: Period, ttl: Period) -> bool {
    (if now.nanos >= written.nanos { now.nanos - written.nanos } else { 0 }) <= ttl.nanos
}

impl<T, E> Query<T, E> {
    /// The key of the fetch under way, where the query dedupes.
    pub closed spec fn in_flight_spec(&self) -> Option<u64> {
        self.in_flight
    }

    /// The values cached by key, each with the time it was written.
    pub closed spec fn cache_spec(&self) -> Map<u64, (T, Period)> {
        self.cache@
    }

    pub closed spec fn data_spec(&self) -> Option<T> {
        self.data
    }

    pub closed spec fn loading_spec(&self) -> bool {
        self.loading
    }

    pub closed spec fn stale_spec(&self) -> bool {
        self.stale
    }

    pub closed spec fn error_spec(&self) -> Option<E> {
        self.error
    }

    pub closed spec fn status_spec(&self) -> Load {
        self.status
    }

    pub closed spec fn has_value_spec(&self) -> bool {
        self.has_value
    }

    pub closed spec fn initial_spec(&self) -> T {
        self.initial
    }

    pub closed spec fn fetched_spec(&self) -> bool {
        self.fetched
    }

    pub closed spec fn generation_spec(&self) -> u64 {
        self.generation
    }

    pub closed spec fn options_spec(&self) -> QueryOpts {
        self.options
    }

    pub closed spec fn effect_id_spec(&self) -> EffectId {
        self.effect_id
    }

    pub closed spec fn data_slot_spec(&self) -> SlotId {
        self.data_slot
    }

    /// The status agrees with the flags: loading exactly in `Loading`, stale
    /// exactly in `Refreshing`; `Success` only with a value; a refresh only
    /// after a first fetch, and a first load only before one.
    pub open spec fn wf(&self) -> bool {
        &&& (self.status_spec() is Loading) == self.loading_spec()
        &&& (self.status_spec() is Refreshing) == self.stale_spec()
        &&& self.status_spec() is Success ==> self.has_value_spec()
        &&& self.stale_spec() ==> self.fetched_spec()
        &&& self.loading_spec() ==> !self.fetched_spec()
        &&& self.fetched_spec() == self.has_value_spec()
        &&& self.has_value_spec() ==> self.data_spec() is Some
    }

    /// A query that has fetched nothing yet.
    pub fn new(initial: T, options: QueryOpts, data_slot: SlotId, effect_id: EffectId, fetch_id: u32) -> (r: Query<T, E>)
        ensures
            r.wf(),
            r.data_spec() is None,
            r.error_spec() is None,
            r.status_spec() == Load::Initial,
            !r.has_value_spec(),
            r.initial_spec() == initial,
            r.generation_spec() == 0,
            r.options_spec() == options,
            r.data_slot_spec() == data_slot,
            r.effect_id_spec() == effect_id,
            r.in_flight_spec() is None,
            r.cache_spec() == Map::<u64, (T, Period)>::empty(),
    {
        let cache: HashMap<u64, (T, Period)> = HashMap::new();
        Query {
            data: None,
            loading: false,
            stale: false,
            error: None,
            status: Load::Initial,
            has_value: false,
            initial,
            fetched: false,
            generation: 0,
            options,
            data_slot,
            effect_id,
            fetch_id,
            in_flight: None,
            cache,
        }
    }

    /// Stops waiting for the fetch under way: its result will come back as
    /// outdated, no key is in flight, and the status settles on `Success`
    /// where there is a value, else on `Initial`.
    pub fn cancel(&mut self)
        requires
            old(self).wf(),
        ensures
            final(self).wf(),
            final(self).status_spec() == if old(self).has_value_spec() { Load::Success } else { Load::Initial },
            final(self).data_spec() == old(self).data_spec(),
            final(self).error_spec() == old(self).error_spec(),
            final(self).has_value_spec() == old(self).has_value_spec(),
            final(self).initial_spec() == old(self).initial_spec(),
            final(self).options_spec() == old(self).options_spec(),
            final(self).generation_spec() == old(self).generation_spec().wrapping_add(1),
            final(self).effect_id_spec() == old(self).effect_id_spec(),
            final(self).data_slot_spec() == old(self).data_slot_spec(),
            final(self).in_flight_spec() is None,
            final(self).cache_spec() == old(self).cache_spec(),
    {
        self.generation = self.generation.wrapping_add(1);
        self.in_flight = None;
        self.loading = false;
        self.stale = false;
        let next = if self.has_value() { Load::Success } else { Load::Initial };
        self.status = next;
    }

    /// Installs a query on `data_slot`: its fetch `callback` is registered
    /// as a new effect, and the query has fetched nothing yet.
    pub fn install<C>(
        initial: T,
        options: QueryOpts,
        effects: &mut Effects<C>,
        callback: C,
        data_slot: SlotId,
        fetch_id: u32,
    ) -> (r: Query<T, E>)
        requires
            old(effects).wf(),
            old(effects).next_id_spec() < u32::MAX,
        ensures
            r.wf(),
            r.data_spec() is None,
            r.error_spec() is None,
            r.status_spec() == Load::Initial,
            !r.has_value_spec(),
            r.initial_spec() == initial,
            r.generation_spec() == 0,
            r.options_spec() == options,
            r.data_slot_spec() == data_slot,
            r.effect_id_spec() == old(effects).next_id_spec(),
            r.in_flight_spec() is None,
            r.cache_spec() == Map::<u64, (T, Period)>::empty(),
            final(effects).wf(),
            final(effects).callbacks() == old(effects).callbacks().insert(r.effect_id_spec(), callback),
            final(effects).reads() == old(effects).reads().insert(r.effect_id_spec(), Seq::<SlotId>::empty()),
            final(effects).subscribers() == old(effects).subscribers(),
    {
        let effect_id = effects.register(callback);
        Query::new(initial, options, data_slot, effect_id, fetch_id)
    }

    /// The latest value, as [`Query::data`] gives it, the read of its slot
    /// recorded for the running effect `current`.
    pub fn data_tracked<C>(&self, effects: &mut Effects<C>, current: Option<EffectId>) -> (r: &T)
        requires
            old(effects).wf(),
        ensures
            *r == match self.data_spec() {
                Some(v) => v,
                None => self.initial_spec(),
            },
            final(effects).wf(),
            final(effects).callbacks() == old(effects).callbacks(),
            match current {
                Some(e) => old(effects).reads().contains_key(e) ==> final(effects).reads()[e].contains(self.data_slot_spec())
                    && final(effects).subscribers()[self.data_slot_spec()].contains(e),
                None => final(effects).reads() == old(effects).reads() && final(effects).subscribers() == old(effects).subscribers(),
            },
    {
        effects.track_read(current, self.data_slot);
        self.data()
    }

    /// The latest value: the fetched one, else the initial one.
    pub fn data(&self) -> (r: &T)
        ensures
            *r == match self.data_spec() {
                Some(v) => v,
                None => self.initial_spec(),
            },
    {
        match &self.data {
            Some(v) => v,
            None => &self.initial,
        }
    }

    /// The latest value, as [`Query::data`] gives it.
    pub fn latest(&self) -> (r: &T)
        ensures
            *r == match self.data_spec() {
                Some(v) => v,
                None => self.initial_spec(),
            },
    {
        self.data()
    }

    /// The fetched value, once there is one.
    pub fn value(&self) -> (r: Option<&T>)
        ensures
            self.wf() ==> (r is Some <==> self.has_value_spec()),
            r == if self.has_value_spec() {
                match self.data_spec() {
                    Some(v) => Some(&v),
                    None => None,
                }
            } else {
                None
            },
    {
        if !self.has_value {
            return None;
        }
        self.data.as_ref()
    }

    pub fn status(&self) -> (r: Load)
        ensures
            r == self.status_spec(),
    {
        self.status
    }

    pub fn has_value(&self) -> (r: bool)
        ensures
            r == self.has_value_spec(),
    {
        self.has_value
    }

    pub fn is_initial(&self) -> (r: bool)
        ensures
            r == (self.status_spec() is Initial),
    {
        self.status().is_initial()
    }

    pub fn is_loading(&self) -> (r: bool)
        ensures
            r == (self.status_spec() is Loading),
    {
        self.status().is_loading()
    }

    pub fn is_success(&self) -> (r: bool)
        ensures
            r == (self.status_spec() is Success),
    {
        self.status().is_success()
    }

    pub fn is_refreshing(&self) -> (r: bool)
        ensures
            r == (self.status_spec() is Refreshing),
    {
        self.status().is_refreshing()
    }

    pub fn is_error(&self) -> (r: bool)
        ensures
            r == (self.status_spec() is Error),
    {
        self.status().is_error()
    }

    pub fn is_pending(&self) -> (r: bool)
        ensures
            r == self.status_spec().pending_spec(),
    {
        self.status().is_pending()
    }

    pub fn is_settled(&self) -> (r: bool)
        ensures
            r == !self.status_spec().pending_spec(),
    {
        self.status().is_settled()
    }

    /// The first load is under way.
    pub fn loading(&self) -> (r: bool)
        ensures
            r == (self.status_spec() is Loading),
    {
        self.is_loading()
    }

    /// A refresh is under way while the last value is shown.
    pub fn stale(&self) -> (r: bool)
        ensures
            r == (self.status_spec() is Refreshing),
    {
        self.is_refreshing()
    }

    /// The error of the last failed fetch, until a fetch succeeds.
    pub fn error(&self) -> (r: Option<&E>)
        ensures
            r == match self.error_spec() {
                Some(e) => Some(&e),
                None => None,
            },
    {
        self.error.as_ref()
    }

    /// The effect to run again to fetch anew.
    pub fn refetch(&self) -> (r: EffectId)
        ensures
            r == self.effect_id_spec(),
    {
        self.effect_id
    }

    /// The slot that holds the value.
    pub fn id(&self) -> (r: SlotId)
        ensures
            r == self.data_slot_spec(),
    {
        self.data_slot
    }

    /// `f` applied to the latest value.
    pub fn with<R, F: FnOnce(&T) -> R>(&self, f: F) -> (r: R)
        requires
            f.requires((self.data_latest(),)),
        ensures
            f.ensures((self.data_latest(),), r),
    {
        f(self.data())
    }

    /// `f` applied to the fetched value, once there is one.
    pub fn map_value<R, F: FnOnce(&T) -> R>(&self, f: F) -> (r: Option<R>)
        requires
            self.has_value_spec() && self.data_spec() is Some ==> f.requires((&self.data_spec().unwrap(),)),
        ensures
            if self.has_value_spec() && self.data_spec() is Some {
                r is Some && f.ensures((&self.data_spec().unwrap(),), r.unwrap())
            } else {
                r is None
            },
    {
        match self.value() {
            Some(v) => Some(f(v)),
            None => None,
        }
    }

    /// The latest value as [`Query::data`] gives it.
    pub open spec fn data_latest(&self) -> &T {
        match self.data_spec() {
            Some(v) => &v,
            None => &self.initial_spec(),
        }
    }
}

impl<T: Clone, E> Query<T, E> {
    /// Begins a fetch of `key` at time `now`. Where the query caches and
    /// holds a fresh value of the key, a copy of it is served and no fetch
    /// runs. Where it dedupes and a fetch of the same key is under way,
    /// nothing changes; otherwise it records `key` as in flight. A fetch that
    /// starts makes the status `Refreshing` after a first fetch, else
    /// `Loading`, and begins a new generation.
    pub fn begin_fetch(&mut self, key: u64, now: Period) -> (r: FetchStart)
        requires
            old(self).wf(),
        ensures
            final(self).wf(),
            final(self).initial_spec() == old(self).initial_spec(),
            final(self).options_spec() == old(self).options_spec(),
            final(self).effect_id_spec() == old(self).effect_id_spec(),
            final(self).data_slot_spec() == old(self).data_slot_spec(),
            final(self).cache_spec() == old(self).cache_spec(),
            ({
                let hit = old(self).options_spec().cache_for matches Some(ttl)
                    && old(self).cache_spec().contains_key(key)
                    && fresh_spec(old(self).cache_spec()[key].1, now, ttl);
                if hit {
                    &&& r == FetchStart::Served
                    &&& final(self).data_spec() is Some
                    &&& cloned(old(self).cache_spec()[key].0, final(self).data_spec().unwrap())
                    &&& final(self).error_spec() is None
                    &&& final(self).status_spec() == Load::Success
                    &&& final(self).has_value_spec()
                    &&& final(self).generation_spec() == old(self).generation_spec()
                    &&& final(self).in_flight_spec() == old(self).in_flight_spec()
                } else if old(self).options_spec().dedupe && old(self).in_flight_spec() == Some(key) {
                    &&& r == FetchStart::Skipped
                    &&& final(self).data_spec() == old(self).data_spec()
                    &&& final(self).error_spec() == old(self).error_spec()
                    &&& final(self).status_spec() == old(self).status_spec()
                    &&& final(self).has_value_spec() == old(self).has_value_spec()
                    &&& final(self).generation_spec() == old(self).generation_spec()
                    &&& final(self).in_flight_spec() == old(self).in_flight_spec()
                } else {
                    &&& r == FetchStart::Started(final(self).generation_spec())
                    &&& final(self).generation_spec() == old(self).generation_spec().wrapping_add(1)
                    &&& final(self).data_spec() == old(self).data_spec()
                    &&& final(self).error_spec() == old(self).error_spec()
                    &&& final(self).has_value_spec() == old(self).has_value_spec()
                    &&& final(self).status_spec() == if old(self).fetched_spec() { Load::Refreshing } else { Load::Loading }
                    &&& final(self).in_flight_spec() == if old(self).options_spec().dedupe { Some(key) } else { old(self).in_flight_spec() }
                }
            }),
    {
        if let Some(ttl) = self.options.cache_for {
            let served = match self.cache.get(&key) {
                Some(entry) => {
                    let written = entry.1;
                    let age = now.saturating_sub(written);
                    if age.nanos <= ttl.nanos {
                        Some(entry.0.clone())
                    } else {
                        None
                    }
                },
                None => None,
            };
            if let Some(data) = served {
                self.data = Some(data);
                self.loading = false;
                self.stale = false;
                self.error = None;
                self.status = Load::Success;
                self.has_value = true;
                self.fetched = true;
                return FetchStart::Served;
            }
        }
        if self.options.dedupe {
            if self.in_flight == Some(key) {
                return FetchStart::Skipped;
            }
            self.in_flight = Some(key);
        }
        if self.fetched {
            self.stale = true;
            self.status = Load::Refreshing;
        } else {
            self.loading = true;
            self.status = Load::Loading;
        }
        self.generation = self.generation.wrapping_add(1);
        FetchStart::Started(self.generation)
    }

    /// Hands back the result of the fetch of `key` begun as `generation`,
    /// at time `now`. A result of another generation is dropped (false).
    /// Otherwise `key` is no longer in flight; a value makes the status
    /// `Success` and, where the query caches, is cached for `key` as written
    /// at `now`; an error makes the status `Error` and keeps the last value.
    pub fn complete(&mut self, generation: u64, key: u64, result: Result<T, E>, now: Period) -> (applied: bool)
        requires
            old(self).wf(),
        ensures
            final(self).wf(),
            applied == (generation == old(self).generation_spec()),
            final(self).initial_spec() == old(self).initial_spec(),
            final(self).options_spec() == old(self).options_spec(),
            final(self).generation_spec() == old(self).generation_spec(),
            final(self).effect_id_spec() == old(self).effect_id_spec(),
            final(self).data_slot_spec() == old(self).data_slot_spec(),
            !applied ==> {
                &&& final(self).data_spec() == old(self).data_spec()
                &&& final(self).error_spec() == old(self).error_spec()
                &&& final(self).status_spec() == old(self).status_spec()
                &&& final(self).has_value_spec() == old(self).has_value_spec()
                &&& final(self).in_flight_spec() == old(self).in_flight_spec()
                &&& final(self).cache_spec() == old(self).cache_spec()
            },
            applied ==> final(self).in_flight_spec() == if old(self).in_flight_spec() == Some(key) {
                None
            } else {
                old(self).in_flight_spec()
            },
            applied ==> match result {
                Ok(v) => {
                    &&& final(self).data_spec() == Some(v)
                    &&& final(self).error_spec() is None
                    &&& final(self).status_spec() == Load::Success
                    &&& final(self).has_value_spec()
                    &&& if old(self).options_spec().cache_for is Some {
                        &&& final(self).cache_spec().dom() == old(self).cache_spec().dom().insert(key)
                        &&& cloned(v, final(self).cache_spec()[key].0)
                        &&& final(self).cache_spec()[key].1 == now
                        &&& forall|k: u64| k != key && #[trigger] old(self).cache_spec().contains_key(k) ==> final(self).cache_spec()[k] == old(self).cache_spec()[k]
                    } else {
                        final(self).cache_spec() == old(self).cache_spec()
                    }
                },
                Err(e) => {
                    &&& final(self).data_spec() == old(self).data_spec()
                    &&& final(self).error_spec() == Some(e)
                    &&& final(self).status_spec() == Load::Error
                    &&& final(self).has_value_spec() == old(self).has_value_spec()
                    &&& final(self).cache_spec() == old(self).cache_spec()
                },
            },
    {
        if generation != self.generation {
            return false;
        }
        if self.in_flight == Some(key) {
            self.in_flight = None;
        }
        match result {
            Ok(data) => {
                if self.options.cache_for.is_some() {
                    let copy = data.clone();
                    self.cache.insert(key, (copy, now));
                }
                self.data = Some(data);
                self.loading = false;
                self.stale = false;
                self.error = None;
                self.status = Load::Success;
                self.has_value = true;
                self.fetched = true;
            },
            Err(e) => {
                self.error = Some(e);
                self.loading = false;
                self.stale = false;
                self.status = Load::Error;
            },
        }
        true
    }

    /// A copy of the fetched value, else `fallback`.
    pub fn value_or(&self, fallback: T) -> (r: T)
        ensures
            if self.has_value_spec() && self.data_spec() is Some {
                cloned(self.data_spec().unwrap(), r)
            } else {
                r == fallback
            },
    {
        match self.value() {
            Some(v) => v.clone(),
            None => fallback,
        }
    }

    /// A copy of the fetched value, else what `fallback` makes.
    pub fn value_or_else<F: FnOnce() -> T>(&self, fallback: F) -> (r: T)
        requires
            !(self.has_value_spec() && self.data_spec() is Some) ==> fallback.requires(()),
        ensures
            if self.has_value_spec() && self.data_spec() is Some {
                cloned(self.data_spec().unwrap(), r)
            } else {
                fallback.ensures((), r)
            },
    {
        match self.value() {
            Some(v) => v.clone(),
            None => fallback(),
        }
    }
}

/// A query being declared: how to compute its key and fetch it, an optional
/// placeholder, and its options.
pub struct QueryInit<KeyFn, FetchFn, K, T, E> {
    pub key_fn: KeyFn,
    pub fetch: FetchFn,
    pub placeholder: Option<T>,
    pub options: QueryOpts,
    pub _phantom: PhantomData<(K, E)>,
}

impl<KeyFn, FetchFn, K, T, E> QueryInit<KeyFn, FetchFn, K, T, E> {
    pub fn placeholder(self, value: T) -> (r: Self)
        ensures
            r.placeholder == Some(value),
            r.options == self.options,
            r.key_fn == self.key_fn,
            r.fetch == self.fetch,
    {
        QueryInit { placeholder: Some(value), ..self }
    }

    pub fn dedupe(self) -> (r: Self)
        ensures
            r.options == (QueryOpts { dedupe: true, ..self.options }),
            r.placeholder == self.placeholder,
            r.key_fn == self.key_fn,
            r.fetch == self.fetch,
    {
        let options = self.options.dedupe();
        QueryInit { options, ..self }
    }

    pub fn cache_for(self, ttl: Period) -> (r: Self)
        ensures
            r.options == (QueryOpts { cache_for: Some(ttl), ..self.options }),
            r.placeholder == self.placeholder,
            r.key_fn == self.key_fn,
            r.fetch == self.fetch,
    {
        let options = self.options.cache_for(ttl);
        QueryInit { options, ..self }
    }
}

/// Declares a query of the key that `key_fn` computes, fetched by `fetch`.
pub fn query<KeyFn, FetchFn, K, T, E>(key_fn: KeyFn, fetch: FetchFn) -> (r: QueryInit<KeyFn, FetchFn, K, T, E>)
    ensures
        r.key_fn == key_fn,
        r.fetch == fetch,
        r.placeholder is None,
        r.options == (QueryOpts { dedupe: false, cache_for: None }),
{
    QueryInit { key_fn, fetch, placeholder: None, options: QueryOpts { dedupe: false, cache_for: None }, _phantom: PhantomData }
}

} // verus!
