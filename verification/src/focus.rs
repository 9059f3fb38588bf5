use vstd::prelude::*;
use crate::mouse::{FocusId, OwnerId};

verus! {

/// Whether an element gained or lost the focus.
#[derive(Debug, Clone, Copy, PartialEq, Eq, Structural)]
pub enum FocusEventKind {
    Focus,
    Blur,
}

/// A focus group being declared: its identity, the component that owns it,
/// and whether moving past its last member wraps to the first.
#[derive(Debug, Clone, Copy, PartialEq, Eq, Structural)]
pub struct FocusGroupBuilder {
    pub group_id: FocusId,
    pub owner_id: OwnerId,
    pub wrap: bool,
}

impl FocusGroupBuilder {
    /// A group that wraps around.
    pub fn new(group_id: FocusId, owner_id: OwnerId) -> (r: FocusGroupBuilder)
        ensures
            r == (FocusGroupBuilder { group_id, owner_id, wrap: true }),
    {
        FocusGroupBuilder { group_id, owner_id, wrap: true }
    }

    /// Sets whether moving past the last member wraps to the first.
    pub fn wrap(self, wrap: bool) -> (r: FocusGroupBuilder)
        ensures
            r == (FocusGroupBuilder { wrap, ..self }),
    {
        FocusGroupBuilder { wrap, ..self }
    }
}

} // verus!
