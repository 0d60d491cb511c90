//! Peers and their remote sessions.
//!
//! A peer is an identity, a network address, a credential reference, and
//! an owned session slot.  Connecting is split at the I/O boundary: the
//! engine decides whether a session is needed (`connect_request`, a no-op
//! for a connected peer) and the surrounding process establishes it and
//! hands it back (`install_session`).  The slot holds at most one live
//! session, and only these operations touch it.

use vstd::prelude::*;
use vstd::string::*;
use crate::addr::{addr_text, PeerAddr};
use crate::errors::PartitionSimError;
use crate::ids::random_id;

verus! {

/// Declares `openssh::Session` to the verifier: an opaque established
/// channel to one peer, able to run a command line and report exit
/// status and captured output.  It is created and driven only by the
/// surrounding process; the engine owns and hands out the value.
#[verifier::external_type_specification]
#[verifier::external_body]
pub struct ExSession(openssh::Session);

/// What the surrounding process needs in order to establish a session:
/// where to connect and as whom, with host-key acceptance and without
/// interactive prompts.
#[derive(Debug, Clone)]
pub struct ConnectRequest {
    /// Destination address in dotted-decimal text.
    pub host: String,
    /// User name to authenticate as.
    pub user: String,
    /// Private-key file to authenticate with, when one is configured.
    pub keyfile: Option<String>,
}

/// A cluster node under test.
pub struct Peer {
    /// Process-unique opaque identifier, assigned at creation and never
    /// changed; the sole external reference to the peer.
    pub id: u128,
    /// Network address, immutable after creation.
    pub addr: PeerAddr,
    /// User name the remote session authenticates as.
    pub user: String,
    /// Optional private-key file path for authentication.
    pub keyfile: Option<String>,
    /// The session slot: at most one live session, `None` until a
    /// connect succeeds.
    pub session: Option<openssh::Session>,
}

impl Peer {
    /// Whether the session slot holds an established session.
    pub open spec fn is_connected(self) -> bool {
        self.session is Some
    }

    /// Identity and credentials agree; used to state that an operation
    /// touches nothing but the session slot.
    pub open spec fn same_identity(self, other: Peer) -> bool {
        &&& self.id == other.id
        &&& self.addr == other.addr
        &&& self.user == other.user
        &&& self.keyfile == other.keyfile
    }

    /// A fresh, disconnected peer with a newly generated identifier.
    /// The user defaults to `root` when none is given.
    pub fn new(addr: PeerAddr, user: Option<&str>, keyfile: Option<&str>) -> (r: Peer)
        ensures
            r.addr == addr,
            !r.is_connected(),
            r.user@ == (match user {
                Some(u) => u@,
                None => "root"@,
            }),
            (match (keyfile, r.keyfile) {
                (Some(k), Some(rk)) => rk@ == k@,
                (None, None) => true,
                _ => false,
            }),
    {
        let user_owned = match user {
            Some(u) => u.to_owned(),
            None => String::from_str("root"),
        };
        let keyfile_owned = match keyfile {
            Some(k) => Some(k.to_owned()),
            None => None,
        };
        Peer { id: random_id(), addr, user: user_owned, keyfile: keyfile_owned, session: None }
    }

    /// A disconnected peer with a caller-chosen identifier, for drivers
    /// that assign identities themselves.
    pub fn with_id(id: u128, addr: PeerAddr, user: &str, keyfile: Option<&str>) -> (r: Peer)
        ensures
            r.id == id,
            r.addr == addr,
            !r.is_connected(),
            r.user@ == user@,
            (match (keyfile, r.keyfile) {
                (Some(k), Some(rk)) => rk@ == k@,
                (None, None) => true,
                _ => false,
            }),
    {
        let keyfile_owned = match keyfile {
            Some(k) => Some(k.to_owned()),
            None => None,
        };
        Peer { id, addr, user: user.to_owned(), keyfile: keyfile_owned, session: None }
    }

    /// Connecting is idempotent: a connected peer needs nothing and is
    /// left alone, a disconnected one names exactly what to establish.
    pub fn connect_request(&self) -> (r: Option<ConnectRequest>)
        ensures
            r is None <==> self.is_connected(),
            r matches Some(req) ==> {
                &&& req.host@ == addr_text(self.addr)
                &&& req.user@ == self.user@
                &&& (match (self.keyfile, req.keyfile) {
                    (Some(k), Some(rk)) => rk@ == k@,
                    (None, None) => true,
                    _ => false,
                })
            },
    {
        match &self.session {
            Some(_) => None,
            None => {
                let keyfile = match &self.keyfile {
                    Some(k) => Some(k.clone()),
                    None => None,
                };
                Some(ConnectRequest { host: self.addr.to_text(), user: self.user.clone(), keyfile })
            },
        }
    }

    /// Install an established session in the slot.  Everything but the
    /// slot is left untouched.
    pub fn install_session(&mut self, session: openssh::Session)
        ensures
            final(self).is_connected(),
            final(self).same_identity(*old(self)),
    {
        self.session = Some(session);
    }

    /// The live session, or `SessionUninitialized` when `connect` never
    /// succeeded for this peer.
    pub fn session(&self) -> (r: Result<&openssh::Session, PartitionSimError>)
        ensures
            r is Ok <==> self.is_connected(),
            r matches Err(e) ==> e == PartitionSimError::SessionUninitialized,
    {
        match &self.session {
            Some(s) => Ok(s),
            None => Err(PartitionSimError::SessionUninitialized),
        }
    }
}

} // verus!
