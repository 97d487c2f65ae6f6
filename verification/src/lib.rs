//! Verified core of the middleware canister: its state, the decisions of its
//! update calls, address normalisation, number conversions and the framing of
//! the data kept across upgrades.

pub mod instance_example;
pub mod methods;
pub mod migrations;
pub mod types;
pub mod utils;

use vstd::prelude::*;

verus! {

/// The result type of the canister's endpoints.
pub type MiddlewareResult<T> = Result<T, types::errors::MiddlewareError>;

} // verus!
