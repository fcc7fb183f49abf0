//! A round-robin load balancer: the worker-selection logic, the routing of
//! the target server and the small text formats the program reads and
//! writes, each with its contract.

pub mod application;
pub mod domain;
pub mod target;
pub mod utils;

use vstd::prelude::*;

verus! {

/// The body of an error answer.
pub struct ErrorResponse {
    pub error: String,
}

} // verus!
