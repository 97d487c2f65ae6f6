//! The requests that the canister makes of the management canister and of
//! its instances, as plain values.

use candid::Principal;
use vstd::prelude::*;

use crate::utils::natural::Nat;

verus! {

/// How code is installed in a canister.
#[derive(Debug, Clone, Copy, PartialEq, Eq)]
pub enum InstallMode {
    /// A fresh install of a new canister.
    Install,
    /// Reinstalling a canister that was already installed.
    Reinstall,
    /// Upgrading an existing canister.
    Upgrade,
}

/// Settings of a canister; `None` leaves a setting as it is.
#[derive(Debug, PartialEq, Eq)]
pub struct CanisterSettingsArgs {
    pub controllers: Option<Vec<Principal>>,
    pub compute_allocation: Option<Nat>,
    pub memory_allocation: Option<Nat>,
    pub freezing_threshold: Option<Nat>,
}

/// A request to create a canister, with the cycles sent along.
#[derive(Debug, PartialEq, Eq)]
pub struct CreateCanisterRequest {
    pub settings: Option<CanisterSettingsArgs>,
    pub cycles: u128,
}

/// A request to install code in a canister, given by its principal's bytes.
#[derive(Debug, PartialEq, Eq)]
pub struct InstallCodeRequest {
    pub mode: InstallMode,
    pub canister_id: Vec<u8>,
    pub wasm_module: Vec<u8>,
    /// The argument handed to the canister's init.
    pub arg: Vec<u8>,
}

/// A request to change the settings of a canister, given by its principal's
/// bytes.
#[derive(Debug, PartialEq, Eq)]
pub struct UpdateSettingsRequest {
    pub canister_id: Vec<u8>,
    pub settings: CanisterSettingsArgs,
}

/// A request to deposit cycles into a canister.
#[derive(Debug, PartialEq, Eq)]
pub struct DepositCyclesRequest {
    pub canister_id: Principal,
    pub cycles: u128,
}

/// A call of a method of a middleware instance, whose canister is given by
/// its principal's bytes.
#[derive(Debug, PartialEq, Eq)]
pub struct InstanceCallRequest {
    pub canister_id: Vec<u8>,
    pub method: String,
    pub args: Vec<u8>,
}

/// The start of adding an instance: the id drawn for it, the user's
/// normalised address, the cycles to accept from the call, and the request
/// that creates its canister.
#[derive(Debug, PartialEq, Eq)]
pub struct NewInstance {
    pub id: u64,
    pub user: String,
    pub cycles_to_accept: u128,
    pub create: CreateCanisterRequest,
}

} // verus!
