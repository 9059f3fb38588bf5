use vstd::prelude::*;
use crate::mouse::{FocusId, OwnerId};
use crate::focus::FocusGroupBuilder;

verus! {

/// The setup context of a component: the component that owns what it declares.
#[derive(Clone, Copy, Debug)]
pub struct Cx {
    pub owner_id: OwnerId,
}

impl Cx {
    pub fn new(owner_id: OwnerId) -> (r: Cx)
        ensures
            r.owner_id == owner_id,
    {
        Cx { owner_id }
    }

    /// Declares the focus group `group_id`, owned by this component; it wraps around.
    pub fn focus_group(self, group_id: FocusId) -> (r: FocusGroupBuilder)
        ensures
            r == (FocusGroupBuilder { group_id, owner_id: self.owner_id, wrap: true }),
    {
        FocusGroupBuilder::new(group_id, self.owner_id)
    }
}

/// The render context of a component.
#[derive(Clone, Copy, Debug)]
pub struct Rcx {
    pub owner_id: OwnerId,
}

impl Rcx {
    pub fn new(owner_id: OwnerId) -> (r: Rcx)
        ensures
            r.owner_id == owner_id,
    {
        Rcx { owner_id }
    }
}

/// A view whose rendering is cached per component.
pub struct CachedView<V> {
    pub owner_id: OwnerId,
    pub view: V,
}

impl<V> CachedView<V> {
    pub fn new(owner_id: OwnerId, view: V) -> (r: CachedView<V>)
        ensures
            r.owner_id == owner_id,
            r.view == view,
    {
        CachedView { owner_id, view }
    }
}

} // verus!
