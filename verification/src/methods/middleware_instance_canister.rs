//! The decisions of forwarding a call to a middleware instance.

use vstd::prelude::*;

use crate::methods::canister::{instance_canister, not_a_controller};
use crate::types::errors::MiddlewareError;
use crate::types::lookup;
use crate::types::management::InstanceCallRequest;
use crate::types::State;
use crate::MiddlewareResult;

verus! {

/// The call to forward to an instance, for a controller and a registered
/// instance: its method `call` on the instance's canister, with the given
/// arguments.
pub fn call_request(state: &State, caller_is_controller: bool, id: u64, args: Vec<u8>) -> (res:
    MiddlewareResult<InstanceCallRequest>)
    ensures
        !caller_is_controller ==> res == Err::<InstanceCallRequest, MiddlewareError>(not_a_controller()),
        caller_is_controller ==> match lookup(state.middlewares@, id) {
            Ok(inst) => res matches Ok(r) && {
                &&& r.canister_id@ == inst.1
                &&& r.method@ == "call"@
                &&& r.args@ == args@
            },
            Err(e) => res == Err::<InstanceCallRequest, MiddlewareError>(e),
        },
{
    let canister_id = instance_canister(state, caller_is_controller, id)?;
    Ok(InstanceCallRequest { canister_id, method: "call".to_owned(), args })
}

/// The outcome of forwarding a call to an instance. The outer result is the
/// call itself: its failure becomes `CommunicationWithMiddlewareInstanceFailed`
/// with the system's message. The inner result is the instance's answer: its
/// error becomes `MiddlewareInstanceError`, its bytes are returned.
pub fn middleware_instance_replied(reply: Result<Result<Vec<u8>, String>, String>) -> (res:
    MiddlewareResult<Vec<u8>>)
    ensures
        match reply {
            Ok(Ok(bytes)) => res matches Ok(b) && b@ == bytes@,
            Ok(Err(msg)) => res matches Err(MiddlewareError::MiddlewareInstanceError(m)) && m@
                == msg@,
            Err(msg) => res matches Err(
                MiddlewareError::CommunicationWithMiddlewareInstanceFailed(m),
            ) && m@ == msg@,
        },
{
    match reply {
        Ok(Ok(bytes)) => Ok(bytes),
        Ok(Err(msg)) => Err(MiddlewareError::MiddlewareInstanceError(msg)),
        Err(msg) => Err(MiddlewareError::CommunicationWithMiddlewareInstanceFailed(msg)),
    }
}

} // verus!
