//! Discovery input.
//!
//! Peer discovery is an external data source: a DNS-backed service
//! registry answers with address and port text, and the engine treats
//! what parses as the authoritative peer set for the next registration.
//! The parsing is exact — an endpoint is accepted precisely when both
//! fields are canonical renderings — and each accepted endpoint becomes
//! a fresh, disconnected peer.

use vstd::prelude::*;
use crate::addr::{addr_value, PeerAddr};
use crate::digits::{parse_dec_capped, parse_dec_spec};
use crate::peer::Peer;

verus! {

/// Read one discovered endpoint from its address and port text.
/// Accepts exactly the canonical dotted-decimal address and a canonical
/// decimal port no larger than the port space.
pub fn parse_endpoint(addr_text: &str, port_text: &str) -> (r: Option<(PeerAddr, u16)>)
    ensures
        r matches Some(ep) ==> addr_value(addr_text@) == Some(ep.0) && parse_dec_spec(
            port_text@,
            65535,
        ) == Some(ep.1 as u32),
        r is None ==> addr_value(addr_text@) is None || parse_dec_spec(port_text@, 65535) is None,
{
    let parsed_addr = PeerAddr::parse(addr_text);
    let parsed_port = parse_dec_capped(port_text, 65535);
    match (parsed_addr, parsed_port) {
        (Some(a), Some(p)) => Some((a, p as u16)),
        _ => None,
    }
}

/// Map the discovered endpoints to fresh, disconnected peers, one per
/// endpoint and in the same order, all sharing the given credentials.
pub fn peers_from_endpoints(
    endpoints: &Vec<(PeerAddr, u16)>,
    user: Option<&str>,
    keyfile: Option<&str>,
) -> (r: Vec<Peer>)
    ensures
        r@.len() == endpoints@.len(),
        forall|i: int|
            0 <= i < r@.len() ==> {
                &&& (#[trigger] r@[i]).addr == endpoints@[i].0
                &&& !r@[i].is_connected()
                &&& r@[i].user@ == (match user {
                    Some(u) => u@,
                    None => "root"@,
                })
                &&& (match (keyfile, r@[i].keyfile) {
                    (Some(k), Some(rk)) => rk@ == k@,
                    (None, None) => true,
                    _ => false,
                })
            },
{
    let mut out: Vec<Peer> = Vec::new();
    let mut i: usize = 0;
    while i < endpoints.len()
        invariant
            0 <= i <= endpoints@.len(),
            out@.len() == i,
            forall|j: int|
                0 <= j < i ==> {
                    &&& (#[trigger] out@[j]).addr == endpoints@[j].0
                    &&& !out@[j].is_connected()
                    &&& out@[j].user@ == (match user {
                        Some(u) => u@,
                        None => "root"@,
                    })
                    &&& (match (keyfile, out@[j].keyfile) {
                        (Some(k), Some(rk)) => rk@ == k@,
                        (None, None) => true,
                        _ => false,
                    })
                },
        decreases endpoints@.len() - i,
    {
        let ep = endpoints[i];
        out.push(Peer::new(ep.0, user, keyfile));
        i = i + 1;
    }
    out
}

} // verus!
