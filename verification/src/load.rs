use vstd::prelude::*;

verus! {

/// Loading status of an asynchronous value (a query or a resource).
#[derive(Debug, Clone, Copy, PartialEq, Eq, Hash, Structural)]
pub enum Load {
    Initial,
    Loading,
    Success,
    Refreshing,
    Error,
}

impl Load {
    /// A fetch is under way: either the first one or a refresh.
    pub open spec fn pending_spec(self) -> bool {
        self is Loading || self is Refreshing
    }

    pub fn is_initial(self) -> (r: bool)
        ensures
            r == (self is Initial),
    {
        matches!(self, Load::Initial)
    }

    pub fn is_loading(self) -> (r: bool)
        ensures
            r == (self is Loading),
    {
        matches!(self, Load::Loading)
    }

    pub fn is_success(self) -> (r: bool)
        ensures
            r == (self is Success),
    {
        matches!(self, Load::Success)
    }

    pub fn is_refreshing(self) -> (r: bool)
        ensures
            r == (self is Refreshing),
    {
        matches!(self, Load::Refreshing)
    }

    pub fn is_error(self) -> (r: bool)
        ensures
            r == (self is Error),
    {
        matches!(self, Load::Error)
    }

    pub fn is_pending(self) -> (r: bool)
        ensures
            r == self.pending_spec(),
    {
        matches!(self, Load::Loading | Load::Refreshing)
    }

    pub fn is_settled(self) -> (r: bool)
        ensures
            r == !self.pending_spec(),
    {
        !self.is_pending()
    }
}

} // verus!
