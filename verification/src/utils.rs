//! Helpers shared by the endpoints.

pub mod address;
pub mod canister;
pub mod natural;
pub mod retry;

use vstd::prelude::*;

use crate::types::State;

verus! {

/// Draws the next instance id: the counter goes up by one and its new value is
/// the id.
pub fn new_id(state: &mut State) -> (id: u64)
    requires
        old(state).id_counter < u64::MAX,
    ensures
        id == old(state).id_counter + 1,
        final(state).id_counter == id,
        final(state).metadata == old(state).metadata,
        final(state).middlewares@ == old(state).middlewares@,
{
    state.id_counter = state.id_counter + 1;
    state.id_counter
}

} // verus!
