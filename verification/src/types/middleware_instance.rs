use candid::Principal;
use vstd::prelude::*;

use crate::utils::natural::Nat;

verus! {

/// The id of a canister or of a user on the Internet Computer.
#[verifier::external_type_specification]
#[verifier::external_body]
pub struct ExPrincipal(Principal);

/// A middleware instance: a canister created for a user.
#[derive(Debug)]
pub struct MiddlewareInstance {
    pub id: u64,
    /// The bytes of the principal of the instance's canister.
    pub canister_id: Vec<u8>,
    /// The user's address, normalised (`0x` and 40 lower-case hex digits).
    pub user: String,
}

/// The value of a [`MiddlewareInstance`]: its id, the bytes of its canister's
/// principal, and its user as a sequence of characters.
pub type MiddlewareInstanceView = (u64, Seq<u8>, Seq<char>);

impl View for MiddlewareInstance {
    type V = MiddlewareInstanceView;

    open spec fn view(&self) -> MiddlewareInstanceView {
        (self.id, self.canister_id@, self.user@)
    }
}

impl MiddlewareInstance {
    /// A copy of this instance.
    pub fn duplicate(&self) -> (res: MiddlewareInstance)
        ensures
            res@ == self@,
    {
        MiddlewareInstance {
            id: self.id,
            canister_id: self.canister_id.clone(),
            user: self.user.clone(),
        }
    }
}

/// A filter on the list of instances.
#[derive(Debug, Clone, PartialEq, Eq)]
pub struct GetMiddlewareInstancesFilter {
    pub chain_id: Option<Nat>,
    pub search: Option<String>,
}

/// The request to add an instance. It has no fields yet.
#[derive(Debug, Clone, Copy, PartialEq, Eq)]
pub struct AddMiddlewareInstanceRequest {}

} // verus!
