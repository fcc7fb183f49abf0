//! Where the balancer listens unless told otherwise, and the names of the
//! settings that tell it otherwise.

pub mod env;

use vstd::prelude::*;

verus! {

/// The address the balancer binds to when none is configured.
pub const DEFAULT_LB_IP_ADDR: &'static str = "0.0.0.0";

/// The port the balancer binds to when none is configured.
pub const DEFAULT_LB_PORT: &'static str = "7777";

/// The bind address: the configured one where there is one, else
/// `DEFAULT_LB_IP_ADDR`.
pub fn set_bind_ip_addr(configured: Option<String>) -> (addr: String)
    ensures
        addr@ == (match configured {
            Some(v) => v@,
            None => DEFAULT_LB_IP_ADDR@,
        }),
{
    match configured {
        Some(v) => v,
        None => String::from_str(DEFAULT_LB_IP_ADDR),
    }
}

/// The bind port: the configured one where there is one, else
/// `DEFAULT_LB_PORT`.
pub fn set_bind_port(configured: Option<String>) -> (port: String)
    ensures
        port@ == (match configured {
            Some(v) => v@,
            None => DEFAULT_LB_PORT@,
        }),
{
    match configured {
        Some(v) => v,
        None => String::from_str(DEFAULT_LB_PORT),
    }
}

} // verus!
