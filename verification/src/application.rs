//! Where the balancer listens: the loopback address and the configured port.

use vstd::prelude::*;
use crate::utils::decimal::{decimal_text, parse_bounded, push_decimal, lemma_decimal_roundtrip};

verus! {

/// The address the balancer listens on for the port `port`: the loopback
/// address, a colon and the port in decimal, as a socket address prints.
pub fn listen_address(port: u16) -> (addr: String)
    ensures
        addr@ == "127.0.0.1:"@ + decimal_text(port as nat),
{
    let mut addr = String::from_str("127.0.0.1:");
    push_decimal(&mut addr, port as u64);
    addr
}

/// The port can be read back from the address: what follows the colon is
/// read as `port`.
pub proof fn lemma_listen_address_port(port: u16)
    ensures
        parse_bounded(("127.0.0.1:"@ + decimal_text(port as nat)).skip(10), u16::MAX as int)
            == Some(port as int),
{
    reveal_strlit("127.0.0.1:");
    assert(("127.0.0.1:"@ + decimal_text(port as nat)).skip(10) =~= decimal_text(port as nat));
    lemma_decimal_roundtrip(port as nat, u16::MAX as int);
}

} // verus!
