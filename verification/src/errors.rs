//! The engine's error taxonomy.
//!
//! Every operation of the engine either succeeds with a well-typed result
//! or fails with exactly one of these kinds, propagated unchanged to the
//! caller.  Each carries plain values only; `message` renders the
//! human-readable text the control surface reports, with an exact
//! specification.

use vstd::prelude::*;
use vstd::string::*;
use crate::digits::{dec_text_signed, render_dec_i32};
use crate::ids::{id_text, render_id};

verus! {

#[derive(Debug, Clone, PartialEq, Eq)]
pub enum PartitionSimError {
    /// No peer with this identifier is registered.
    PeerNotFound { id: u128 },
    /// A peer's remote session was needed before `connect` had succeeded.
    SessionUninitialized,
    /// Establishing or using a remote session failed.
    SessionError { detail: String },
    /// A remote connect or command execution exceeded its time bound.
    RemoteTimeout,
    /// The remote tool ran and returned a failing exit status.
    CommandFailed { exit_code: i32, stdout: String, stderr: String },
    /// Installing the local public key on a peer failed.
    BootstrapFailed,
    /// The discovery source did not yield a usable peer set.
    DiscoveryFailed { detail: String },
    /// The operation was issued against a registry that has since been
    /// replaced by a reload.
    RegistryReloading,
    /// A textual peer identifier was not in canonical form.
    IdentifierParseError,
}

/// The human-readable text of each error kind.
pub open spec fn message_text(e: PartitionSimError) -> Seq<char> {
    match e {
        PartitionSimError::PeerNotFound { id } => "peer not found: "@ + id_text(id),
        PartitionSimError::SessionUninitialized =>
            "session uninitialized: connect the peer first"@,
        PartitionSimError::SessionError { detail } => "session error: "@ + detail@,
        PartitionSimError::RemoteTimeout => "remote operation timed out"@,
        PartitionSimError::CommandFailed { exit_code, stdout, stderr } =>
            "remote command exited with status "@ + dec_text_signed(exit_code as int)
                + "; stderr: "@ + stderr@ + "; stdout: "@ + stdout@,
        PartitionSimError::BootstrapFailed =>
            "failed to install the public key on a peer"@,
        PartitionSimError::DiscoveryFailed { detail } => "discovery failed: "@ + detail@,
        PartitionSimError::RegistryReloading =>
            "the registry was replaced while the operation was in flight"@,
        PartitionSimError::IdentifierParseError =>
            "could not parse the peer identifier"@,
    }
}

impl PartitionSimError {
    /// Render the error as the text the control surface reports.
    pub fn message(&self) -> (r: String)
        ensures
            r@ =~= message_text(*self),
    {
        match self {
            PartitionSimError::PeerNotFound { id } => {
                let mut s = String::from_str("peer not found: ");
                let t = render_id(*id);
                s.append(t.as_str());
                s
            },
            PartitionSimError::SessionUninitialized => {
                String::from_str("session uninitialized: connect the peer first")
            },
            PartitionSimError::SessionError { detail } => {
                let mut s = String::from_str("session error: ");
                s.append(detail.as_str());
                s
            },
            PartitionSimError::RemoteTimeout => {
                String::from_str("remote operation timed out")
            },
            PartitionSimError::CommandFailed { exit_code, stdout, stderr } => {
                let mut s = String::from_str("remote command exited with status ");
                let t = render_dec_i32(*exit_code);
                s.append(t.as_str());
                s.append("; stderr: ");
                s.append(stderr.as_str());
                s.append("; stdout: ");
                s.append(stdout.as_str());
                s
            },
            PartitionSimError::BootstrapFailed => {
                String::from_str("failed to install the public key on a peer")
            },
            PartitionSimError::DiscoveryFailed { detail } => {
                let mut s = String::from_str("discovery failed: ");
                s.append(detail.as_str());
                s
            },
            PartitionSimError::RegistryReloading => {
                String::from_str("the registry was replaced while the operation was in flight")
            },
            PartitionSimError::IdentifierParseError => {
                String::from_str("could not parse the peer identifier")
            },
        }
    }
}

} // verus!
