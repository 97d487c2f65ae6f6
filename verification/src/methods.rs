pub mod canister;
pub mod middleware_instance_canister;

use vstd::prelude::*;

verus! {

/// The cycles that a new middleware instance is created with.
pub const INIT_CYCLES_BALANCE: u128 = 2_000_000_000_000;

} // verus!
