use vstd::prelude::*;

verus! {

/// Requests the interface makes of the window layer.
#[derive(Clone, Copy, Debug, PartialEq, Eq, Structural)]
pub enum UserEvent {
    SetVSync(bool),
}

} // verus!
