//! Controlled fault injection for distributed-systems testing: a verified
//! engine that simulates directional network partitions between a registered
//! fleet of peers by driving each peer's inbound packet-filter rules.
//!
//! The engine owns the peer registry and every peer's remote session slot,
//! lowers partition/heal/inspect/restore intents into concrete remote
//! command lines, and gives exact semantics to each firewall mutation.
//! The surrounding process performs the actual remote I/O and hands the
//! observed outcomes back to the engine for interpretation.

pub mod digits;
pub mod addr;
pub mod ids;
pub mod errors;
pub mod commands;
pub mod firewall;
pub mod peer;
pub mod supervisor;
pub mod protocol;
pub mod discovery;

use vstd::prelude::*;

verus! {

/// The error type every engine operation fails with.
pub type Error = crate::errors::PartitionSimError;

/// Command-line configuration of the control surface: the TCP port it
/// listens on.
#[derive(Debug, Clone, Copy, PartialEq, Eq, Structural)]
pub struct Args {
    pub port: u16,
}

impl Default for Args {
    /// The port the control surface listens on when none is given.
    fn default() -> (r: Args)
        ensures
            r.port == 3000,
    {
        Args { port: 3000 }
    }
}

} // verus!
