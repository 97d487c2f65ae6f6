use vstd::prelude::*;

use crate::types::errors::UtilsError;

verus! {

/// Lets a call through only when its caller controls this canister.
pub fn validate_caller(caller_is_controller: bool) -> (res: Result<(), UtilsError>)
    ensures
        res == (if caller_is_controller { Ok(()) } else { Err(UtilsError::NotAController) }),
{
    if caller_is_controller {
        Ok(())
    } else {
        Err(UtilsError::NotAController)
    }
}

} // verus!
