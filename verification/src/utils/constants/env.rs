//! The names of the environment variables that configure the balancer.

use vstd::prelude::*;

verus! {

pub const LB_IP_ADDR_ENV_VAR: &'static str = "PROXBEN_LB_IP_ADDR";

pub const LB_PORT_ENV_VAR: &'static str = "PROXBEN_LB_PORT";

pub const LB_SECRET_SOME_ENV_VAR: &'static str = "PROXBEN_SECRET_SOME";

} // verus!
