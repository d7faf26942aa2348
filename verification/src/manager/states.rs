use vstd::prelude::*;

verus! {

/// Where a connected user stands.
#[derive(Copy, Clone, Eq, Hash, PartialEq, Debug)]
pub enum UserState {
    Loading,
    InGame,
    WaitingForHost,
}

} // verus!
