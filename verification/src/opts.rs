use vstd::prelude::*;
use crate::period::Period;
use crate::policy::{Refresh, Retry};

verus! {

/// How a resource retries and refreshes.
#[derive(Debug, Clone, Copy, PartialEq, Eq, Structural)]
pub struct ResourceOpts {
    pub retry: Retry,
    pub refresh: Refresh,
}

impl Default for ResourceOpts {
    fn default() -> (r: ResourceOpts)
        ensures
            r.retry.max_retries == 0,
            r.retry == Retry::none_spec(),
            r.refresh == Refresh::Never,
    {
        ResourceOpts { retry: Retry::none(), refresh: Refresh::Never }
    }
}

impl ResourceOpts {
    pub fn retry(self, retry: Retry) -> (r: ResourceOpts)
        ensures
            r == (ResourceOpts { retry, ..self }),
    {
        ResourceOpts { retry, ..self }
    }

    pub fn refresh_every(self, period: Period) -> (r: ResourceOpts)
        ensures
            r == (ResourceOpts { refresh: Refresh::Every(period), ..self }),
    {
        ResourceOpts { refresh: Refresh::Every(period), ..self }
    }
}

/// How a query shares work: whether a fetch of the key already under way is
/// not started again, and for how long a fetched value is served from cache.
#[derive(Debug, Clone, Copy, PartialEq, Eq, Default, Structural)]
pub struct QueryOpts {
    pub dedupe: bool,
    pub cache_for: Option<Period>,
}

impl QueryOpts {
    pub fn dedupe(self) -> (r: QueryOpts)
        ensures
            r == (QueryOpts { dedupe: true, ..self }),
    {
        QueryOpts { dedupe: true, ..self }
    }

    pub fn cache_for(self, ttl: Period) -> (r: QueryOpts)
        ensures
            r == (QueryOpts { cache_for: Some(ttl), ..self }),
    {
        QueryOpts { cache_for: Some(ttl), ..self }
    }
}

} // verus!
