//! The verified core of remy, a reactive framework for terminal interfaces:
//! key bindings and chords, mouse regions, effects and their dependency
//! tracking, the commit queue, and the status machines of queries and resources.
use vstd::prelude::*;

pub mod load;
pub mod flow;
pub mod period;
pub mod mods;
pub mod key;
pub mod text;
pub mod chord;
pub mod bind;
pub mod assoc;
pub mod keys;
pub mod dispatch;
pub mod walk;
pub mod mouse;
pub mod effects;
pub mod queue;
pub mod policy;
pub mod opts;
pub mod query;
pub mod resource;
pub mod id;
pub mod cx;
pub mod focus;
pub mod frame;
pub mod cache;
pub mod proxy;
pub mod memo;

verus! {

/// The longest chord that a binding may name.
pub const MAX_CHORD_LEN: usize = 4;

} // verus!
