use vstd::prelude::*;

use super::middleware_instance::MiddlewareInstance;

verus! {

/// One entry of the list of instances: its id and the instance.
#[derive(Debug)]
pub struct GetMiddlewareInstanceResult {
    pub id: u64,
    pub middleware_instance_example: MiddlewareInstance,
}

} // verus!
