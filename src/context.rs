use vstd::prelude::*;

verus! {

/// Handle on the state that the shell shares with every tab and window.
///
/// It is cheap to copy and carries no data of its own: panes and windows
/// receive it by reference on every frame, so that state shared between
/// them has one place to live.
#[derive(Clone, Copy, Debug, PartialEq, Eq, Structural)]
pub struct Context {}

impl Context {
    pub fn new() -> (r: Context)
        ensures
            r == (Context {}),
    {
        Context {}
    }
}

} // verus!
