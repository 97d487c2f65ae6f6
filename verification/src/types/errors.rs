use vstd::prelude::*;
use vstd::std_specs::convert::FromSpecImpl;

use ic_cdk::api::call::RejectionCode;

verus! {

/// The reject code of an inter-canister call, as the system reports it.
#[verifier::external_type_specification]
#[verifier::external_body]
pub struct ExRejectionCode(RejectionCode);

/// Errors of the canister's endpoints.
#[derive(Debug, Clone, PartialEq, Eq)]
pub enum MiddlewareError {
    FailedToSendCycles(String),
    MiddlewareNotFound(u64),
    CommunicationWithMiddlewareInstanceFailed(String),
    FailedToGetCanisterStatus(String),
    UtilsError(UtilsError),
    FailedToUpdateSettings(String),
    FailedToCreate(String),
    FailedToStop(String),
    FailedToDelete(String),
    FailedToInstallCode(String),
    FailedToUpgrade(String),
    MiddlewareInstanceError(String),
    /// The call carried fewer cycles (first) than a new instance needs (second).
    NotEnoughCycles(u128, u128),
}

/// Errors of the utility layer (address parsing, authorisation, ...).
#[derive(Debug, Clone, PartialEq, Eq)]
pub enum UtilsError {
    TimerIsNotInitialized,
    UnableToGetAssetData(String),
    InvalidAddressFormat(String),
    InvalidSIWEMessage(String),
    FromHexError(String),
    FailedToGetmiddlewareEvmAddress(String),
    NotAController,
    UnableToGetRandom(String),
}

impl From<UtilsError> for MiddlewareError {
    fn from(err: UtilsError) -> (res: Self) {
        MiddlewareError::UtilsError(err)
    }
}

impl FromSpecImpl<UtilsError> for MiddlewareError {
    open spec fn obeys_from_spec() -> bool {
        true
    }

    open spec fn from_spec(err: UtilsError) -> Self {
        MiddlewareError::UtilsError(err)
    }
}

/// The failure of a call to another canister: only the reject message is kept.
#[derive(Debug, Clone, PartialEq, Eq)]
pub struct CanisterCommunicationError {
    pub message: String,
}

impl From<(RejectionCode, String)> for CanisterCommunicationError {
    fn from(reject: (RejectionCode, String)) -> (res: Self) {
        let (_, message) = reject;
        CanisterCommunicationError { message }
    }
}

impl FromSpecImpl<(RejectionCode, String)> for CanisterCommunicationError {
    open spec fn obeys_from_spec() -> bool {
        true
    }

    open spec fn from_spec(reject: (RejectionCode, String)) -> Self {
        CanisterCommunicationError { message: reject.1 }
    }
}

} // verus!
