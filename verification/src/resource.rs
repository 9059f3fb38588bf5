use vstd::prelude::*;
use crate::effects::{Effects, EffectId, SlotId};
use crate::load::Load;
use crate::opts::ResourceOpts;
use crate::period::Period;
use crate::policy::{Refresh, Retry, delay_spec};
use std::marker::PhantomData;

verus! {

/// The first fetch identity given to resources.
pub const FIRST_RESOURCE_ID: u32 = 0x8000_0000;

/// The first fetch identity given to queries.
pub const FIRST_QUERY_ID: u32 = 0x9000_0000;

/// The task identity of the retry of the fetch `fetch_id`: bit 29 flipped.
pub open spec fn retry_task_spec(fetch_id: u32) -> u32 {
    fetch_id ^ 0x2000_0000u32
}

/// The task identity of the periodic refresh of the fetch `fetch_id`: bit 30 flipped.
pub open spec fn refresh_task_spec(fetch_id: u32) -> u32 {
    fetch_id ^ 0x4000_0000u32
}

/// The task identity of the retry of the fetch `fetch_id`.
pub fn retry_task_id(fetch_id: u32) -> (r: u32)
    ensures
        r == retry_task_spec(fetch_id),
{
    fetch_id ^ 0x2000_0000u32
}

/// The task identity of the periodic refresh of the fetch `fetch_id`.
pub fn refresh_task_id(fetch_id: u32) -> (r: u32)
    ensures
        r == refresh_task_spec(fetch_id),
{
    fetch_id ^ 0x4000_0000u32
}


/// Task identities never collide: for fetch identities with bits 29 and 30
/// clear (as those handed out from [`FIRST_RESOURCE_ID`] and
/// [`FIRST_QUERY_ID`] are), a retry task, a refresh task and a fetch never
/// share an identity, and distinct fetches get distinct tasks.
pub proof fn law_task_ids_distinct(a: u32, b: u32)
    requires
        a & 0x6000_0000u32 == 0,
        b & 0x6000_0000u32 == 0,
    ensures
        retry_task_spec(a) != refresh_task_spec(b),
        retry_task_spec(a) != b,
        refresh_task_spec(a) != b,
        retry_task_spec(a) == retry_task_spec(b) ==> a == b,
        refresh_task_spec(a) == refresh_task_spec(b) ==> a == b,
{
    assert(a ^ 0x2000_0000u32 != b ^ 0x4000_0000u32) by (bit_vector)
        requires a & 0x6000_0000u32 == 0, b & 0x6000_0000u32 == 0;
    assert(a ^ 0x2000_0000u32 != b) by (bit_vector)
        requires a & 0x6000_0000u32 == 0, b & 0x6000_0000u32 == 0;
    assert(a ^ 0x4000_0000u32 != b) by (bit_vector)
        requires a & 0x6000_0000u32 == 0, b & 0x6000_0000u32 == 0;
    assert(a ^ 0x2000_0000u32 == b ^ 0x2000_0000u32 ==> a == b) by (bit_vector);
    assert(a ^ 0x4000_0000u32 == b ^ 0x4000_0000u32 ==> a == b) by (bit_vector);
}

/// Fetch identities handed out from the first resource or query identity,
/// below the next band, have bits 29 and 30 clear.
pub proof fn law_first_ids_clear_task_bits(id: u32)
    requires
        FIRST_RESOURCE_ID <= id < 0xA000_0000u32,
    ensures
        id & 0x6000_0000u32 == 0,
{
    assert(0x8000_0000u32 <= id < 0xA000_0000u32 ==> id & 0x6000_0000u32 == 0) by (bit_vector);
}

/// A run begun after another has a generation of its own, so a result handed
/// back for the earlier run is dropped as outdated.
pub proof fn law_new_run_supersedes(generation: u64)
    ensures
        generation.wrapping_add(1) != generation,
{
}

/// How a run of a resource's effect began.
#[derive(Debug, Clone, Copy, PartialEq, Eq, Structural)]
pub struct RunStart {
    /// The run was not a retry: drop the retry scheduled, if any.
    pub cancel_retry: bool,
    /// Start refreshing with this period (only on the first run).
    pub start_refresh: Option<Period>,
    /// Hand the result back with this generation.
    pub generation: u64,
}

/// What the result of a fetch did.
#[derive(Debug, Clone, Copy, PartialEq, Eq, Structural)]
pub enum Completion {
    /// The result belonged to an older run and was dropped.
    Outdated,
    Succeeded,
    /// The fetch failed; retry after the delay given, if any.
    Failed(Option<Period>),
}

/// A value fetched without a key, with its loading status, retries,
/// periodic refresh, and optimistic updates that can be rolled back.
pub struct Resource<T, E> {
    data: Option<T>,
    loading: bool,
    stale: bool,
    error: Option<E>,
    status: Load,
    has_value: bool,
    placeholder: Option<T>,
    shadow: Option<T>,
    options: ResourceOpts,
    generation: u64,
    retry_attempts: u32,
    retry_trigger: bool,
    refresh_started: bool,
    data_slot: SlotId,
    effect_id: EffectId,
    fetch_id: u32,
}

impl<T, E> Resource<T, E> {
    pub closed spec fn data_spec(&self) -> Option<T> {
        self.data
    }

    pub closed spec fn loading_spec(&self) -> bool {
        self.loading
    }

    pub closed spec fn stale_spec(&self) -> bool {
        self.stale
    }

    pub closed spec fn error_spec(&self) -> Option<E> {
        self.error
    }

    pub closed spec fn status_spec(&self) -> Load {
        self.status
    }

    pub closed spec fn has_value_spec(&self) -> bool {
        self.has_value
    }

    pub closed spec fn placeholder_spec(&self) -> Option<T> {
        self.placeholder
    }

    pub closed spec fn shadow_spec(&self) -> Option<T> {
        self.shadow
    }

    pub closed spec fn options_spec(&self) -> ResourceOpts {
        self.options
    }

    pub closed spec fn generation_spec(&self) -> u64 {
        self.generation
    }

    pub closed spec fn retry_attempts_spec(&self) -> u32 {
        self.retry_attempts
    }

    pub closed spec fn retry_trigger_spec(&self) -> bool {
        self.retry_trigger
    }

    pub closed spec fn refresh_started_spec(&self) -> bool {
        self.refresh_started
    }

    pub closed spec fn effect_id_spec(&self) -> EffectId {
        self.effect_id
    }

    pub closed spec fn data_slot_spec(&self) -> SlotId {
        self.data_slot
    }

    /// The status agrees with the flags: loading exactly in `Loading`, stale
    /// exactly in `Refreshing`; `Success` and refreshes only with a value,
    /// first loads only without one.
    pub open spec fn wf(&self) -> bool {
        &&& (self.status_spec() is Loading) == self.loading_spec()
        &&& (self.status_spec() is Refreshing) == self.stale_spec()
        &&& self.status_spec() is Success ==> self.has_value_spec()
        &&& self.stale_spec() ==> self.has_value_spec()
        &&& self.loading_spec() ==> !self.has_value_spec()
        &&& self.has_value_spec() ==> self.data_spec() is Some
    }

    /// The settings that no status transition changes are those of `other`.
    pub open spec fn same_setup(&self, other: &Resource<T, E>) -> bool {
        &&& self.placeholder_spec() == other.placeholder_spec()
        &&& self.options_spec() == other.options_spec()
        &&& self.effect_id_spec() == other.effect_id_spec()
        &&& self.data_slot_spec() == other.data_slot_spec()
    }

    /// A resource that has fetched nothing yet.
    pub fn new(placeholder: Option<T>, options: ResourceOpts, data_slot: SlotId, effect_id: EffectId, fetch_id: u32) -> (r: Resource<T, E>)
        ensures
            r.wf(),
            r.data_spec() is None,
            r.error_spec() is None,
            r.status_spec() == Load::Initial,
            !r.has_value_spec(),
            r.placeholder_spec() == placeholder,
            r.shadow_spec() is None,
            r.options_spec() == options,
            r.generation_spec() == 0,
            r.retry_attempts_spec() == 0,
            !r.retry_trigger_spec(),
            !r.refresh_started_spec(),
            r.data_slot_spec() == data_slot,
            r.effect_id_spec() == effect_id,
    {
        Resource {
            data: None,
            loading: false,
            stale: false,
            error: None,
            status: Load::Initial,
            has_value: false,
            placeholder,
            shadow: None,
            options,
            generation: 0,
            retry_attempts: 0,
            retry_trigger: false,
            refresh_started: false,
            data_slot,
            effect_id,
            fetch_id,
        }
    }

    /// Installs a resource on `data_slot`: its run `callback` is registered
    /// as a new effect, and the resource has fetched nothing yet.
    pub fn install_with<C>(
        placeholder: Option<T>,
        options: ResourceOpts,
        effects: &mut Effects<C>,
        callback: C,
        data_slot: SlotId,
        fetch_id: u32,
    ) -> (r: Resource<T, E>)
        requires
            old(effects).wf(),
            old(effects).next_id_spec() < u32::MAX,
        ensures
            r.wf(),
            r.data_spec() is None,
            r.error_spec() is None,
            r.status_spec() == Load::Initial,
            !r.has_value_spec(),
            r.placeholder_spec() == placeholder,
            r.shadow_spec() is None,
            r.options_spec() == options,
            r.generation_spec() == 0,
            r.retry_attempts_spec() == 0,
            !r.retry_trigger_spec(),
            !r.refresh_started_spec(),
            r.data_slot_spec() == data_slot,
            r.effect_id_spec() == old(effects).next_id_spec(),
            final(effects).wf(),
            final(effects).callbacks() == old(effects).callbacks().insert(r.effect_id_spec(), callback),
            final(effects).reads() == old(effects).reads().insert(r.effect_id_spec(), Seq::<SlotId>::empty()),
            final(effects).subscribers() == old(effects).subscribers(),
    {
        let effect_id = effects.register(callback);
        Resource::new(placeholder, options, data_slot, effect_id, fetch_id)
    }

    /// Begins a run of the resource's effect. A run that is not a retry
    /// resets the retry count and drops the retry scheduled; the first run
    /// starts the periodic refresh; the status becomes `Refreshing` where
    /// there is a value, else `Loading`; a new generation begins.
    pub fn begin_run(&mut self) -> (r: RunStart)
        requires
            old(self).wf(),
        ensures
            final(self).wf(),
            final(self).same_setup(old(self)),
            r.cancel_retry == !old(self).retry_trigger_spec(),
            !final(self).retry_trigger_spec(),
            final(self).retry_attempts_spec() == if r.cancel_retry { 0 } else { old(self).retry_attempts_spec() },
            r.start_refresh == match old(self).options_spec().refresh {
                Refresh::Every(p) => if old(self).refresh_started_spec() { None } else { Some(p) },
                Refresh::Never => None::<Period>,
            },
            final(self).refresh_started_spec() == (old(self).refresh_started_spec() || r.start_refresh is Some),
            r.generation == final(self).generation_spec(),
            final(self).generation_spec() == old(self).generation_spec().wrapping_add(1),
            final(self).status_spec() == if old(self).has_value_spec() { Load::Refreshing } else { Load::Loading },
            final(self).data_spec() == old(self).data_spec(),
            final(self).error_spec() == old(self).error_spec(),
            final(self).has_value_spec() == old(self).has_value_spec(),
            final(self).shadow_spec() == old(self).shadow_spec(),
    {
        let was_retry = self.retry_trigger;
        self.retry_trigger = false;
        if !was_retry {
            self.retry_attempts = 0;
        }
        let start_refresh = match self.options.refresh {
            Refresh::Every(period) => {
                if !self.refresh_started {
                    self.refresh_started = true;
                    Some(period)
                } else {
                    None
                }
            },
            Refresh::Never => None,
        };
        if self.has_value {
            self.stale = true;
            self.status = Load::Refreshing;
        } else {
            self.loading = true;
            self.status = Load::Loading;
        }
        self.generation = self.generation.wrapping_add(1);
        RunStart { cancel_retry: !was_retry, start_refresh, generation: self.generation }
    }

    /// Hands back the result of the run of `generation`. A value makes the
    /// status `Success` and resets the retry count; an error makes it
    /// `Error`, counts one more retry, and asks for a retry after the delay
    /// that the retry policy gives, if any.
    pub fn complete(&mut self, generation: u64, result: Result<T, E>) -> (r: Completion)
        requires
            old(self).wf(),
        ensures
            final(self).wf(),
            final(self).same_setup(old(self)),
            final(self).generation_spec() == old(self).generation_spec(),
            final(self).shadow_spec() == old(self).shadow_spec(),
            final(self).retry_trigger_spec() == old(self).retry_trigger_spec(),
            final(self).refresh_started_spec() == old(self).refresh_started_spec(),
            generation != old(self).generation_spec() ==> {
                &&& r == Completion::Outdated
                &&& final(self).data_spec() == old(self).data_spec()
                &&& final(self).error_spec() == old(self).error_spec()
                &&& final(self).status_spec() == old(self).status_spec()
                &&& final(self).has_value_spec() == old(self).has_value_spec()
                &&& final(self).retry_attempts_spec() == old(self).retry_attempts_spec()
            },
            generation == old(self).generation_spec() ==> match result {
                Ok(v) => {
                    &&& r == Completion::Succeeded
                    &&& final(self).data_spec() == Some(v)
                    &&& final(self).error_spec() is None
                    &&& final(self).status_spec() == Load::Success
                    &&& final(self).has_value_spec()
                    &&& final(self).retry_attempts_spec() == 0
                },
                Err(e) => {
                    &&& final(self).retry_attempts_spec() == old(self).retry_attempts_spec().wrapping_add(1)
                    &&& r == Completion::Failed(delay_spec(old(self).options_spec().retry, final(self).retry_attempts_spec()))
                    &&& final(self).data_spec() == old(self).data_spec()
                    &&& final(self).error_spec() == Some(e)
                    &&& final(self).status_spec() == Load::Error
                    &&& final(self).has_value_spec() == old(self).has_value_spec()
                },
            },
    {
        if generation != self.generation {
            return Completion::Outdated;
        }
        match result {
            Ok(data) => {
                self.data = Some(data);
                self.loading = false;
                self.stale = false;
                self.error = None;
                self.status = Load::Success;
                self.has_value = true;
                self.retry_attempts = 0;
                Completion::Succeeded
            },
            Err(e) => {
                self.error = Some(e);
                self.loading = false;
                self.stale = false;
                self.status = Load::Error;
                self.retry_attempts = self.retry_attempts.wrapping_add(1);
                Completion::Failed(self.options.retry.delay_for_retry(self.retry_attempts))
            },
        }
    }

    /// A scheduled retry fired: the next run counts as a retry.
    pub fn retry_fired(&mut self)
        requires
            old(self).wf(),
        ensures
            final(self).wf(),
            final(self).same_setup(old(self)),
            final(self).retry_trigger_spec(),
            final(self).retry_attempts_spec() == old(self).retry_attempts_spec(),
            final(self).refresh_started_spec() == old(self).refresh_started_spec(),
            final(self).generation_spec() == old(self).generation_spec(),
            final(self).status_spec() == old(self).status_spec(),
            final(self).data_spec() == old(self).data_spec(),
            final(self).error_spec() == old(self).error_spec(),
            final(self).has_value_spec() == old(self).has_value_spec(),
            final(self).shadow_spec() == old(self).shadow_spec(),
    {
        self.retry_trigger = true;
    }

    /// Stops waiting for the fetch under way: its result will come back as
    /// outdated, and the status settles on `Success` where there is a value,
    /// else on `Initial`.
    pub fn cancel(&mut self)
        requires
            old(self).wf(),
        ensures
            final(self).wf(),
            final(self).same_setup(old(self)),
            final(self).status_spec() == if old(self).has_value_spec() { Load::Success } else { Load::Initial },
            final(self).data_spec() == old(self).data_spec(),
            final(self).error_spec() == old(self).error_spec(),
            final(self).has_value_spec() == old(self).has_value_spec(),
            final(self).shadow_spec() == old(self).shadow_spec(),
            final(self).generation_spec() == old(self).generation_spec().wrapping_add(1),
            final(self).retry_attempts_spec() == old(self).retry_attempts_spec(),
            final(self).retry_trigger_spec() == old(self).retry_trigger_spec(),
            final(self).refresh_started_spec() == old(self).refresh_started_spec(),
    {
        self.generation = self.generation.wrapping_add(1);
        self.loading = false;
        self.stale = false;
        let next = if self.has_value() { Load::Success } else { Load::Initial };
        self.status = next;
    }

    /// Cancels, then forgets the value and the error: the status is `Initial`.
    pub fn reset(&mut self)
        requires
            old(self).wf(),
        ensures
            final(self).wf(),
            final(self).same_setup(old(self)),
            final(self).status_spec() == Load::Initial,
            final(self).data_spec() is None,
            final(self).error_spec() is None,
            !final(self).has_value_spec(),
            final(self).shadow_spec() == old(self).shadow_spec(),
            final(self).generation_spec() == old(self).generation_spec().wrapping_add(1),
    {
        self.cancel();
        self.data = None;
        self.error = None;
        self.loading = false;
        self.stale = false;
        self.status = Load::Initial;
        self.has_value = false;
    }

    /// Undoes the last optimistic update, where one is kept.
    pub fn rollback(&mut self)
        requires
            old(self).wf(),
        ensures
            final(self).wf(),
            final(self).same_setup(old(self)),
            final(self).shadow_spec() is None,
            final(self).data_spec() == match old(self).shadow_spec() {
                Some(s) => Some(s),
                None => old(self).data_spec(),
            },
            final(self).status_spec() == old(self).status_spec(),
            final(self).has_value_spec() == old(self).has_value_spec(),
            final(self).error_spec() == old(self).error_spec(),
    {
        if let Some(shadow) = self.shadow.take() {
            self.data = Some(shadow);
        }
    }

    /// The latest value: the fetched one, else the placeholder.
    pub fn latest(&self) -> (r: Option<&T>)
        ensures
            r == match self.data_spec() {
                Some(v) => Some(&v),
                None => match self.placeholder_spec() {
                    Some(p) => Some(&p),
                    None => None,
                },
            },
    {
        match &self.data {
            Some(v) => Some(v),
            None => self.placeholder.as_ref(),
        }
    }

    /// The fetched value, once there is one.
    pub fn value(&self) -> (r: Option<&T>)
        ensures
            self.wf() ==> (r is Some <==> self.has_value_spec()),
            r == if self.has_value_spec() {
                match self.data_spec() {
                    Some(v) => Some(&v),
                    None => None,
                }
            } else {
                None
            },
    {
        if !self.has_value {
            return None;
        }
        self.data.as_ref()
    }

    pub fn status(&self) -> (r: Load)
        ensures
            r == self.status_spec(),
    {
        self.status
    }

    pub fn has_value(&self) -> (r: bool)
        ensures
            r == self.has_value_spec(),
    {
        self.has_value
    }

    pub fn is_initial(&self) -> (r: bool)
        ensures
            r == (self.status_spec() is Initial),
    {
        self.status().is_initial()
    }

    pub fn is_loading(&self) -> (r: bool)
        ensures
            r == (self.status_spec() is Loading),
    {
        self.status().is_loading()
    }

    pub fn is_success(&self) -> (r: bool)
        ensures
            r == (self.status_spec() is Success),
    {
        self.status().is_success()
    }

    pub fn is_refreshing(&self) -> (r: bool)
        ensures
            r == (self.status_spec() is Refreshing),
    {
        self.status().is_refreshing()
    }

    pub fn is_error(&self) -> (r: bool)
        ensures
            r == (self.status_spec() is Error),
    {
        self.status().is_error()
    }

    pub fn is_pending(&self) -> (r: bool)
        ensures
            r == self.status_spec().pending_spec(),
    {
        self.status().is_pending()
    }

    pub fn is_settled(&self) -> (r: bool)
        ensures
            r == !self.status_spec().pending_spec(),
    {
        self.status().is_settled()
    }

    /// The error of the last failed fetch, until a fetch succeeds.
    pub fn error(&self) -> (r: Option<&E>)
        ensures
            r == match self.error_spec() {
                Some(e) => Some(&e),
                None => None,
            },
    {
        self.error.as_ref()
    }

    /// The effect to run again to fetch anew.
    pub fn refetch(&self) -> (r: EffectId)
        ensures
            r == self.effect_id_spec(),
    {
        self.effect_id
    }

    /// The slot that holds the value.
    pub fn id(&self) -> (r: SlotId)
        ensures
            r == self.data_slot_spec(),
    {
        self.data_slot
    }
}

impl<T: Clone, E> Resource<T, E> {
    /// An optimistic update: keeps a copy of the value to roll back to, then
    /// replaces the value by what `f` makes of it. Without a value, nothing
    /// changes.
    pub fn mutate<F: FnOnce(T) -> T>(&mut self, f: F)
        requires
            old(self).wf(),
            old(self).data_spec() is Some ==> f.requires((old(self).data_spec().unwrap(),)),
        ensures
            final(self).wf(),
            final(self).same_setup(old(self)),
            final(self).status_spec() == old(self).status_spec(),
            final(self).has_value_spec() == old(self).has_value_spec(),
            final(self).error_spec() == old(self).error_spec(),
            old(self).data_spec() is None ==> final(self).data_spec() is None && final(self).shadow_spec() == old(self).shadow_spec(),
            old(self).data_spec() is Some ==> {
                &&& final(self).shadow_spec() is Some
                &&& cloned(old(self).data_spec().unwrap(), final(self).shadow_spec().unwrap())
                &&& final(self).data_spec() is Some
                &&& f.ensures((old(self).data_spec().unwrap(),), final(self).data_spec().unwrap())
            },
    {
        let owned = match self.data.take() {
            Some(v) => v,
            None => return,
        };
        let snapshot = owned.clone();
        self.shadow = Some(snapshot);
        let updated = f(owned);
        self.data = Some(updated);
    }
}

/// A resource being declared: its source, an optional placeholder, and its options.
pub struct ResourceInit<F, T, E> {
    pub source: F,
    pub placeholder: Option<T>,
    pub options: ResourceOpts,
    pub _phantom: PhantomData<E>,
}

impl<F, T, E> ResourceInit<F, T, E> {
    pub fn placeholder(self, value: T) -> (r: Self)
        ensures
            r.placeholder == Some(value),
            r.options == self.options,
            r.source == self.source,
    {
        ResourceInit { placeholder: Some(value), ..self }
    }

    pub fn retry(self, policy: Retry) -> (r: Self)
        ensures
            r.options == (ResourceOpts { retry: policy, ..self.options }),
            r.placeholder == self.placeholder,
            r.source == self.source,
    {
        let options = self.options.retry(policy);
        ResourceInit { options, ..self }
    }

    pub fn refresh_every(self, period: Period) -> (r: Self)
        ensures
            r.options == (ResourceOpts { refresh: Refresh::Every(period), ..self.options }),
            r.placeholder == self.placeholder,
            r.source == self.source,
    {
        let options = self.options.refresh_every(period);
        ResourceInit { options, ..self }
    }
}

/// Declares a resource fetched by `source`, without retries or refresh.
pub fn resource<F, T, E>(source: F) -> (r: ResourceInit<F, T, E>)
    ensures
        r.source == source,
        r.placeholder is None,
        r.options == (ResourceOpts { retry: Retry::none_spec(), refresh: Refresh::Never }),
{
    ResourceInit {
        source,
        placeholder: None,
        options: ResourceOpts { retry: Retry::none(), refresh: Refresh::Never },
        _phantom: PhantomData,
    }
}

} // verus!
