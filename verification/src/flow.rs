use vstd::prelude::*;

verus! {

/// What a handler did with an input event.
#[derive(Debug, Clone, Copy, PartialEq, Eq, Structural)]
pub enum Flow {
    Ignored,
    Handled,
    Quit,
}

/// Values that a handler may return, turned into a [`Flow`].
pub trait IntoFlow {
    fn into_key_result(self) -> Flow;
}

impl IntoFlow for () {
    fn into_key_result(self) -> (r: Flow)
        ensures
            r == Flow::Handled,
    {
        Flow::Handled
    }
}

impl IntoFlow for Flow {
    fn into_key_result(self) -> (r: Flow)
        ensures
            r == self,
    {
        self
    }
}

/// The handler that ends the program.
pub fn quit() -> (r: Flow)
    ensures
        r == Flow::Quit,
{
    Flow::Quit
}

} // verus!
