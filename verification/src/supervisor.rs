//! The peer registry and execution engine.
//!
//! The supervisor owns all peers, indexed by identifier, and is the sole
//! mutator of their session slots.  Remote work is split at the I/O
//! boundary into three verified decisions: `start_execute` resolves the
//! peer and lowers the command into a ticket (failing with `PeerNotFound`
//! before any remote I/O can happen), the surrounding process performs
//! the remote call on the peer's session, and `finish_execute` interprets
//! what came back.  Tickets carry the registry epoch: a reload invalidates
//! every ticket issued before it, so no operation ever completes against
//! a replaced registry.
//!
//! Exclusivity per peer is by construction: every session slot is owned
//! by exactly one `Peer` owned by exactly one registry, and all mutation
//! goes through `&mut self`, so two operations on one peer's state can
//! never interleave.

use vstd::prelude::*;
use vstd::string::*;
use crate::addr::PeerAddr;
use crate::commands::ssh::{copy_id_argv, SshCommands};
use crate::commands::{Commands, Instruction};
use crate::errors::PartitionSimError;
use crate::ids::id_text;
use crate::ids::render_id;
use crate::peer::Peer;

verus! {

/// Whether some peer in the sequence carries the identifier.
pub open spec fn has_id(peers: Seq<Peer>, id: u128) -> bool {
    exists|i: int| 0 <= i < peers.len() && #[trigger] peers[i].id == id
}

/// No two peers in the sequence share an identifier.
pub open spec fn distinct_ids(peers: Seq<Peer>) -> bool {
    forall|i: int, j: int|
        0 <= i < j < peers.len() ==> #[trigger] peers[i].id != #[trigger] peers[j].id
}

/// Whether the peer at `i` repeats an identifier seen earlier in the
/// sequence.
pub open spec fn seen_before(peers: Seq<Peer>, i: int) -> bool {
    exists|j: int| 0 <= j < i && #[trigger] peers[j].id == peers[i].id
}

/// The sequence with every repeated identifier dropped, keeping the first
/// peer that carried it.
pub open spec fn keep_first(peers: Seq<Peer>) -> Seq<Peer>
    decreases peers.len(),
{
    if peers.len() == 0 {
        peers
    } else if seen_before(peers, peers.len() - 1) {
        keep_first(peers.drop_last())
    } else {
        keep_first(peers.drop_last()).push(peers.last())
    }
}

pub proof fn lemma_keep_first(peers: Seq<Peer>)
    ensures
        distinct_ids(keep_first(peers)),
        forall|id: u128| has_id(keep_first(peers), id) <==> has_id(peers, id),
        forall|i: int|
            0 <= i < keep_first(peers).len() ==> peers.contains(#[trigger] keep_first(peers)[i]),
    decreases peers.len(),
{
    if peers.len() > 0 {
        let prefix = peers.drop_last();
        lemma_keep_first(prefix);
        assert(forall|i: int| 0 <= i < prefix.len() ==> prefix[i] == peers[i]);
        assert forall|i: int|
            0 <= i < keep_first(peers).len() implies peers.contains(
            #[trigger] keep_first(peers)[i],
        ) by {
            if i < keep_first(prefix).len() {
                assert(prefix.contains(keep_first(prefix)[i]));
                let w = choose|k: int| 0 <= k < prefix.len() && prefix[k] == keep_first(prefix)[i];
                assert(peers[w] == keep_first(peers)[i]);
            } else {
                assert(keep_first(peers)[i] == peers[peers.len() - 1]);
            }
        }
        assert forall|id: u128| has_id(keep_first(peers), id) <==> has_id(peers, id) by {
            if has_id(peers, id) {
                let w = choose|k: int| 0 <= k < peers.len() && #[trigger] peers[k].id == id;
                if w < peers.len() - 1 {
                    assert(prefix[w].id == id);
                    assert(has_id(prefix, id));
                    assert(has_id(keep_first(prefix), id));
                } else {
                    if seen_before(peers, peers.len() - 1) {
                        let v = choose|j: int|
                            0 <= j < peers.len() - 1 && #[trigger] peers[j].id == peers[
                                peers.len() - 1].id;
                        assert(prefix[v].id == id);
                        assert(has_id(prefix, id));
                        assert(has_id(keep_first(prefix), id));
                    } else {
                        assert(keep_first(peers).last().id == id);
                        assert(has_id(keep_first(peers), id));
                    }
                }
                if has_id(keep_first(prefix), id) {
                    let u = choose|k: int|
                        0 <= k < keep_first(prefix).len() && #[trigger] keep_first(prefix)[k].id
                            == id;
                    assert(keep_first(peers)[u].id == id);
                }
            }
            if has_id(keep_first(peers), id) {
                let w = choose|k: int|
                    0 <= k < keep_first(peers).len() && #[trigger] keep_first(peers)[k].id == id;
                if w < keep_first(prefix).len() {
                    assert(has_id(keep_first(prefix), id));
                    assert(has_id(prefix, id));
                    let v = choose|k: int| 0 <= k < prefix.len() && #[trigger] prefix[k].id == id;
                    assert(peers[v].id == id);
                } else {
                    assert(peers[peers.len() - 1].id == id);
                }
            }
        }
        if !seen_before(peers, peers.len() - 1) {
            assert forall|i: int, j: int|
                0 <= i < j < keep_first(peers).len() implies #[trigger] keep_first(peers)[i].id
                != #[trigger] keep_first(peers)[j].id by {
                if j < keep_first(prefix).len() {
                } else {
                    assert(keep_first(peers)[j] == peers.last());
                    assert(keep_first(peers)[i] == keep_first(prefix)[i]);
                    if keep_first(prefix)[i].id == peers.last().id {
                        assert(has_id(keep_first(prefix), peers.last().id));
                        assert(has_id(prefix, peers.last().id));
                        let v = choose|k: int|
                            0 <= k < prefix.len() && #[trigger] prefix[k].id == peers.last().id;
                        assert(peers[v].id == peers[peers.len() - 1].id);
                        assert(seen_before(peers, peers.len() - 1));
                    }
                }
            }
        }
    }
}

/// A lowered command bound to a target peer and to the registry epoch it
/// was issued under.  The surrounding process runs the instruction on the
/// peer's session and hands the outcome back to `finish_execute`.
#[derive(Debug)]
pub struct ExecTicket {
    /// Registry epoch at issue time; a reload invalidates the ticket.
    pub epoch: u64,
    /// The peer the instruction must run on.
    pub peer_id: u128,
    /// The concrete command line to run.
    pub instruction: Instruction,
}

/// Everything a remote execution attempt can come back with.
#[derive(Debug)]
pub enum RemoteOutcome {
    /// The command ran to completion, with its exit status and captured
    /// output.
    Completed { exit_code: i32, stdout: String, stderr: String },
    /// The session or transport failed before completion.
    TransportError { detail: String },
    /// The caller's time bound elapsed first.
    TimedOut,
}

/// The raw result of a completed remote command.
#[derive(Debug, Clone, PartialEq, Eq)]
pub struct CmdOutput {
    pub exit_code: i32,
    pub stdout: String,
    pub stderr: String,
}

/// A peer's identity as the control surface reports it: identifier and
/// address, both as text.
#[derive(Debug, Clone, PartialEq, Eq)]
pub struct PeerInfo {
    pub uuid: String,
    pub address: String,
}

/// The peer registry and execution engine.
pub struct Supervisor {
    peers: Vec<Peer>,
    path_to_key: String,
    epoch: u64,
}

impl Supervisor {
    /// The registered peers, in insertion order.
    pub closed spec fn peers_seq(self) -> Seq<Peer> {
        self.peers@
    }

    /// The registry generation: bumped by every replacement.
    pub closed spec fn epoch(self) -> u64 {
        self.epoch
    }

    /// Path of the local public key used for bootstrap.
    pub closed spec fn key_path(self) -> Seq<char> {
        self.path_to_key@
    }

    /// The registered identifiers, in insertion order.
    pub open spec fn ids(self) -> Seq<u128> {
        self.peers_seq().map_values(|p: Peer| p.id)
    }

    pub open spec fn peer_count(self) -> nat {
        self.peers_seq().len()
    }

    /// The registry's invariant: identifiers are unique.
    pub open spec fn wf(self) -> bool {
        distinct_ids(self.peers_seq())
    }

    pub open spec fn has_peer(self, id: u128) -> bool {
        has_id(self.peers_seq(), id)
    }

    /// Index of the peer carrying `id`; meaningful under `wf` when
    /// `has_peer(id)`.
    pub open spec fn peer_index(self, id: u128) -> int {
        choose|i: int| 0 <= i < self.peers_seq().len() && #[trigger] self.peers_seq()[i].id == id
    }

    /// The peer carrying `id`.
    pub open spec fn peer_at(self, id: u128) -> Peer {
        self.peers_seq()[self.peer_index(id)]
    }

    /// The network address of the peer carrying `id`.
    pub open spec fn addr_of(self, id: u128) -> PeerAddr {
        self.peer_at(id).addr
    }

    /// Build a registry from a peer sequence, keeping the first peer for
    /// any repeated identifier, so that identifiers index uniquely.  The
    /// bootstrap key starts at the default path; `with_key` overrides it.
    pub fn new(peers: Vec<Peer>) -> (r: Supervisor)
        ensures
            r.wf(),
            r.epoch() == 0,
            r.key_path() == "/root/.ssh/id_ed25519.pub"@,
            r.peers_seq() == keep_first(peers@),
            forall|id: u128| r.has_peer(id) <==> has_id(peers@, id),
    {
        let deduped = dedup_by_id(peers);
        proof {
            lemma_keep_first(peers@);
        }
        Supervisor {
            peers: deduped,
            path_to_key: String::from_str("/root/.ssh/id_ed25519.pub"),
            epoch: 0,
        }
    }

    /// Replace the entire registry atomically: the old peers and their
    /// sessions are discarded, insertion order comes from the input, and
    /// the epoch advances, so tickets issued before the reload can no
    /// longer complete.
    pub fn register(&mut self, peers: Vec<Peer>)
        requires
            old(self).epoch() < u64::MAX,
        ensures
            final(self).wf(),
            final(self).epoch() == old(self).epoch() + 1,
            final(self).key_path() == old(self).key_path(),
            final(self).peers_seq() == keep_first(peers@),
            forall|id: u128| final(self).has_peer(id) <==> has_id(peers@, id),
    {
        let deduped = dedup_by_id(peers);
        proof {
            lemma_keep_first(peers@);
        }
        self.peers = deduped;
        self.epoch = self.epoch + 1;
    }

    /// The same registry with the bootstrap key at the given path.
    pub fn with_key(self, path_to_key: &str) -> (r: Supervisor)
        ensures
            r.peers_seq() == self.peers_seq(),
            r.epoch() == self.epoch(),
            r.key_path() == path_to_key@,
    {
        Supervisor { path_to_key: path_to_key.to_owned(), ..self }
    }

    /// The current registry generation.
    pub fn current_epoch(&self) -> (r: u64)
        ensures
            r == self.epoch(),
    {
        self.epoch
    }

    /// The registered identifiers, in insertion order.
    pub fn get_peer_ids(&self) -> (r: Vec<u128>)
        ensures
            r@ =~= self.ids(),
    {
        let mut out: Vec<u128> = Vec::new();
        let mut i: usize = 0;
        while i < self.peers.len()
            invariant
                0 <= i <= self.peers.len(),
                out@.len() == i,
                forall|j: int| 0 <= j < i ==> out@[j] == self.peers_seq()[j].id,
            decreases self.peers.len() - i,
        {
            out.push(self.peers[i].id);
            i = i + 1;
        }
        out
    }

    /// Look a peer up by identifier; fails with `PeerNotFound` when no
    /// peer carries it.
    pub fn get_peer(&self, peer_id: u128) -> (r: Result<&Peer, PartitionSimError>)
        requires
            self.wf(),
        ensures
            r is Ok <==> self.has_peer(peer_id),
            r matches Ok(p) ==> *p == self.peer_at(peer_id) && p.id == peer_id,
            r matches Err(e) ==> e == (PartitionSimError::PeerNotFound { id: peer_id }),
    {
        let mut i: usize = 0;
        while i < self.peers.len()
            invariant
                self.wf(),
                0 <= i <= self.peers.len(),
                forall|j: int| 0 <= j < i ==> self.peers_seq()[j].id != peer_id,
            decreases self.peers.len() - i,
        {
            if self.peers[i].id == peer_id {
                proof {
                    assert(self.peers_seq()[i as int].id == peer_id);
                    assert(self.has_peer(peer_id));
                    let k = self.peer_index(peer_id);
                    assert(0 <= k < self.peers_seq().len() && self.peers_seq()[k].id == peer_id);
                    assert(k == i);
                }
                return Ok(&self.peers[i]);
            }
            i = i + 1;
        }
        Err(PartitionSimError::PeerNotFound { id: peer_id })
    }

    /// Position of the peer carrying the identifier, scanning in
    /// insertion order.
    fn find_index(&self, peer_id: u128) -> (r: Option<usize>)
        ensures
            r matches Some(i) ==> i < self.peers_seq().len() && self.peers_seq()[i as int].id
                == peer_id,
            r is None <==> !self.has_peer(peer_id),
    {
        let mut i: usize = 0;
        while i < self.peers.len()
            invariant
                0 <= i <= self.peers.len(),
                forall|j: int| 0 <= j < i ==> self.peers_seq()[j].id != peer_id,
            decreases self.peers.len() - i,
        {
            if self.peers[i].id == peer_id {
                return Some(i);
            }
            i = i + 1;
        }
        None
    }

    /// Look a peer up by identifier for mutation.  The caller's writes
    /// through the reference are the only change: the rest of the
    /// registry, the epoch and the key path stay as they were.
    pub fn get_peer_mut(&mut self, peer_id: u128) -> (r: Result<&mut Peer, PartitionSimError>)
        requires
            old(self).wf(),
        ensures
            r is Ok <==> old(self).has_peer(peer_id),
            r matches Err(e) ==> *final(self) == *old(self) && e
                == (PartitionSimError::PeerNotFound { id: peer_id }),
            r matches Ok(p) ==> {
                &&& *p == old(self).peer_at(peer_id)
                &&& final(self).peers_seq() == old(self).peers_seq().update(
                    old(self).peer_index(peer_id),
                    *final(p),
                )
                &&& final(self).epoch() == old(self).epoch()
                &&& final(self).key_path() == old(self).key_path()
            },
    {
        match self.find_index(peer_id) {
            Some(k) => {
                proof {
                    assert(old(self).peers_seq()[k as int].id == peer_id);
                    assert(old(self).has_peer(peer_id));
                    let w = old(self).peer_index(peer_id);
                    assert(0 <= w < old(self).peers_seq().len() && old(self).peers_seq()[w].id
                        == peer_id);
                    assert(w == k);
                }
                Ok(&mut self.peers[k])
            },
            None => Err(PartitionSimError::PeerNotFound { id: peer_id }),
        }
    }

    /// Install an established session in the peer's slot.  Only that slot
    /// changes; identity, the other peers, the epoch and the key path all
    /// stay as they were.
    pub fn install_session(&mut self, peer_id: u128, session: openssh::Session) -> (r: Result<
        (),
        PartitionSimError,
    >)
        requires
            old(self).wf(),
        ensures
            r is Ok <==> old(self).has_peer(peer_id),
            r matches Err(e) ==> *final(self) == *old(self) && e
                == (PartitionSimError::PeerNotFound { id: peer_id }),
            r is Ok ==> {
                &&& final(self).wf()
                &&& final(self).peers_seq().len() == old(self).peers_seq().len()
                &&& final(self).peer_at(peer_id).is_connected()
                &&& final(self).peer_at(peer_id).same_identity(old(self).peer_at(peer_id))
                &&& forall|j: int|
                    0 <= j < old(self).peers_seq().len() && j != old(self).peer_index(peer_id)
                        ==> final(self).peers_seq()[j] == old(self).peers_seq()[j]
                &&& final(self).epoch() == old(self).epoch()
                &&& final(self).key_path() == old(self).key_path()
            },
    {
        let mut i: usize = 0;
        while i < self.peers.len()
            invariant
                *self == *old(self),
                old(self).wf(),
                0 <= i <= self.peers.len(),
                forall|j: int| 0 <= j < i ==> self.peers_seq()[j].id != peer_id,
            decreases self.peers.len() - i,
        {
            if self.peers[i].id == peer_id {
                proof {
                    assert(old(self).peers_seq()[i as int].id == peer_id);
                    assert(old(self).has_peer(peer_id));
                    let k = old(self).peer_index(peer_id);
                    assert(0 <= k < old(self).peers_seq().len() && old(self).peers_seq()[k].id
                        == peer_id);
                    assert(k == i);
                }
                self.peers[i].install_session(session);
                proof {
                    assert(self.peers_seq().len() == old(self).peers_seq().len());
                    assert(self.peers_seq()[i as int].same_identity(
                        old(self).peers_seq()[i as int],
                    ));
                    assert forall|j: int|
                        0 <= j < self.peers_seq().len() implies #[trigger] self.peers_seq()[j].id
                        == old(self).peers_seq()[j].id by {
                        if j != i {
                            assert(self.peers_seq()[j] == old(self).peers_seq()[j]);
                        }
                    }
                    assert(self.wf());
                    assert(self.peers_seq()[i as int].id == peer_id);
                    let k2 = self.peer_index(peer_id);
                    assert(0 <= k2 < self.peers_seq().len() && self.peers_seq()[k2].id == peer_id);
                    assert(k2 == i);
                    assert(self.peer_at(peer_id).is_connected());
                    assert(self.peer_at(peer_id).same_identity(old(self).peer_at(peer_id)));
                }
                return Ok(());
            }
            i = i + 1;
        }
        Err(PartitionSimError::PeerNotFound { id: peer_id })
    }

    /// The live session for a peer: `PeerNotFound` when the identifier is
    /// unknown, `SessionUninitialized` when `connect` never succeeded.
    pub fn get_session(&self, peer_id: u128) -> (r: Result<&openssh::Session, PartitionSimError>)
        requires
            self.wf(),
        ensures
            r is Ok <==> self.has_peer(peer_id) && self.peer_at(peer_id).is_connected(),
            !self.has_peer(peer_id) ==> (r matches Err(e) && e == (PartitionSimError::PeerNotFound {
                id: peer_id,
            })),
            self.has_peer(peer_id) && !self.peer_at(peer_id).is_connected() ==> (r matches Err(e)
                && e == PartitionSimError::SessionUninitialized),
    {
        match self.get_peer(peer_id) {
            Ok(p) => p.session(),
            Err(e) => Err(e),
        }
    }

    /// Whether a session must still be established before commands can
    /// run on the peer; a connected peer needs nothing (idempotent
    /// connect).
    pub fn connect_request(&self, peer_id: u128) -> (r: Result<
        Option<crate::peer::ConnectRequest>,
        PartitionSimError,
    >)
        requires
            self.wf(),
        ensures
            r is Ok <==> self.has_peer(peer_id),
            r matches Err(e) ==> e == (PartitionSimError::PeerNotFound { id: peer_id }),
            r matches Ok(o) ==> (o is None <==> self.peer_at(peer_id).is_connected()),
            r matches Ok(o) ==> (o matches Some(req) ==> {
                &&& req.host@ == crate::addr::addr_text(self.addr_of(peer_id))
                &&& req.user@ == self.peer_at(peer_id).user@
                &&& (match (self.peer_at(peer_id).keyfile, req.keyfile) {
                    (Some(k), Some(rk)) => rk@ == k@,
                    (None, None) => true,
                    _ => false,
                })
            }),
    {
        match self.get_peer(peer_id) {
            Ok(p) => Ok(p.connect_request()),
            Err(e) => Err(e),
        }
    }

    /// Resolve the target peer and lower the command into a ticket.  This
    /// fails with `PeerNotFound` for an unregistered identifier before
    /// any remote work can begin, and performs none itself.
    pub fn start_execute(&self, peer_id: u128, command: Commands) -> (r: Result<
        ExecTicket,
        PartitionSimError,
    >)
        requires
            self.wf(),
        ensures
            r is Ok <==> self.has_peer(peer_id),
            r matches Ok(t) ==> t.epoch == self.epoch() && t.peer_id == peer_id && t.instruction@
                =~= command.spec_build(),
            r matches Err(e) ==> e == (PartitionSimError::PeerNotFound { id: peer_id }),
    {
        match self.get_peer(peer_id) {
            Ok(_) => Ok(
                ExecTicket { epoch: self.epoch, peer_id, instruction: command.build() },
            ),
            Err(e) => Err(e),
        }
    }

    /// Interpret what a remote execution attempt came back with.  A
    /// ticket from a replaced registry is rejected with
    /// `RegistryReloading`; otherwise the outcome maps one-to-one:
    /// completion to its raw output, a timeout to `RemoteTimeout`, a
    /// transport failure to `SessionError`.
    pub fn finish_execute(&self, ticket: ExecTicket, outcome: RemoteOutcome) -> (r: Result<
        CmdOutput,
        PartitionSimError,
    >)
        ensures
            ticket.epoch != self.epoch() ==> (r matches Err(e) && e
                == PartitionSimError::RegistryReloading),
            ticket.epoch == self.epoch() ==> match outcome {
                RemoteOutcome::Completed { exit_code, stdout, stderr } => r matches Ok(o) && o
                    == (CmdOutput { exit_code, stdout, stderr }),
                RemoteOutcome::TimedOut => r matches Err(e) && e
                    == PartitionSimError::RemoteTimeout,
                RemoteOutcome::TransportError { detail } => r matches Err(e) && e
                    == (PartitionSimError::SessionError { detail }),
            },
    {
        if ticket.epoch != self.epoch {
            return Err(PartitionSimError::RegistryReloading);
        }
        match outcome {
            RemoteOutcome::Completed { exit_code, stdout, stderr } => Ok(
                CmdOutput { exit_code, stdout, stderr },
            ),
            RemoteOutcome::TimedOut => Err(PartitionSimError::RemoteTimeout),
            RemoteOutcome::TransportError { detail } => Err(
                PartitionSimError::SessionError { detail },
            ),
        }
    }

    /// The bootstrap command line for one peer: install the local public
    /// key so that sessions authenticate without passwords.  Run locally,
    /// not through a session.
    pub fn copy_id(&self, peer_id: u128) -> (r: Result<Instruction, PartitionSimError>)
        requires
            self.wf(),
        ensures
            r is Ok <==> self.has_peer(peer_id),
            r matches Ok(ins) ==> ins@ =~= copy_id_argv(self.addr_of(peer_id), self.key_path()),
            r matches Err(e) ==> e == (PartitionSimError::PeerNotFound { id: peer_id }),
    {
        match self.get_peer(peer_id) {
            Ok(p) => {
                let cmd = SshCommands::CopyId {
                    addr: p.addr,
                    path_to_key: self.path_to_key.clone(),
                };
                Ok(cmd.build())
            },
            Err(e) => Err(e),
        }
    }

    /// The bootstrap command lines for the whole fleet, in insertion
    /// order.  The surrounding process runs them one by one and stops at
    /// the first failure.
    pub fn set_up_ssh(&self) -> (r: Vec<Instruction>)
        requires
            self.wf(),
        ensures
            r@.len() == self.peer_count(),
            forall|i: int|
                0 <= i < r@.len() ==> #[trigger] r@[i]@ =~= copy_id_argv(
                    self.peers_seq()[i].addr,
                    self.key_path(),
                ),
    {
        let mut out: Vec<Instruction> = Vec::new();
        let mut i: usize = 0;
        while i < self.peers.len()
            invariant
                self.wf(),
                0 <= i <= self.peers.len(),
                out@.len() == i,
                forall|j: int|
                    0 <= j < i ==> #[trigger] out@[j]@ =~= copy_id_argv(
                        self.peers_seq()[j].addr,
                        self.key_path(),
                    ),
            decreases self.peers.len() - i,
        {
            let cmd = SshCommands::CopyId {
                addr: self.peers[i].addr,
                path_to_key: self.path_to_key.clone(),
            };
            out.push(cmd.build());
            i = i + 1;
        }
        out
    }

    /// How one bootstrap run ended: success is owed exactly on a zero
    /// exit status; anything else is `BootstrapFailed`.
    pub fn copy_id_result(exit_code: i32) -> (r: Result<(), PartitionSimError>)
        ensures
            r is Ok <==> exit_code == 0,
            r matches Err(e) ==> e == PartitionSimError::BootstrapFailed,
    {
        if exit_code == 0 {
            Ok(())
        } else {
            Err(PartitionSimError::BootstrapFailed)
        }
    }

    /// Identifier and address of every registered peer, as text, in
    /// insertion order.
    pub fn peer_infos(&self) -> (r: Vec<PeerInfo>)
        ensures
            r@.len() == self.peer_count(),
            forall|i: int|
                0 <= i < r@.len() ==> (#[trigger] r@[i]).uuid@ == id_text(self.peers_seq()[i].id)
                    && r@[i].address@ == crate::addr::addr_text(self.peers_seq()[i].addr),
    {
        let mut out: Vec<PeerInfo> = Vec::new();
        let mut i: usize = 0;
        while i < self.peers.len()
            invariant
                0 <= i <= self.peers.len(),
                out@.len() == i,
                forall|j: int|
                    0 <= j < i ==> (#[trigger] out@[j]).uuid@ == id_text(self.peers_seq()[j].id)
                        && out@[j].address@ == crate::addr::addr_text(self.peers_seq()[j].addr),
            decreases self.peers.len() - i,
        {
            let uuid = render_id(self.peers[i].id);
            let address = self.peers[i].addr.to_text();
            out.push(PeerInfo { uuid, address });
            i = i + 1;
        }
        out
    }
}

impl Default for Supervisor {
    /// An empty registry at epoch zero with the default key path.
    fn default() -> (r: Supervisor)
        ensures
            r.wf(),
            r.peer_count() == 0,
            r.epoch() == 0,
            r.key_path() == "/root/.ssh/id_ed25519.pub"@,
    {
        Supervisor {
            peers: Vec::new(),
            path_to_key: String::from_str("/root/.ssh/id_ed25519.pub"),
            epoch: 0,
        }
    }
}

/// Keep the first peer for every identifier, dropping later repeats.
fn dedup_by_id(peers: Vec<Peer>) -> (r: Vec<Peer>)
    ensures
        r@ == keep_first(peers@),
    decreases peers@.len(),
{
    let ghost orig = peers@;
    let mut rest = peers;
    if rest.len() == 0 {
        return rest;
    }
    let last = match rest.pop() {
        Some(p) => p,
        None => {
            proof {
                assert(false);
            }
            return rest;
        },
    };
    proof {
        assert(rest@ =~= orig.drop_last());
        assert(last == orig.last());
    }
    let dup = contains_id(&rest, last.id);
    proof {
        if dup {
            let w = choose|j: int| 0 <= j < rest@.len() && #[trigger] rest@[j].id == last.id;
            assert(orig[w].id == orig[orig.len() - 1].id);
            assert(seen_before(orig, orig.len() - 1));
        } else {
            if seen_before(orig, orig.len() - 1) {
                let w = choose|j: int|
                    0 <= j < orig.len() - 1 && #[trigger] orig[j].id == orig[orig.len() - 1].id;
                assert(rest@[w].id == last.id);
                assert(has_id(rest@, last.id));
            }
        }
    }
    let mut r = dedup_by_id(rest);
    if !dup {
        r.push(last);
    }
    r
}

/// Whether some peer in the vector carries the identifier.
fn contains_id(peers: &Vec<Peer>, id: u128) -> (r: bool)
    ensures
        r == has_id(peers@, id),
{
    let mut i: usize = 0;
    while i < peers.len()
        invariant
            0 <= i <= peers.len(),
            forall|j: int| 0 <= j < i ==> peers@[j].id != id,
        decreases peers.len() - i,
    {
        if peers[i].id == id {
            return true;
        }
        i = i + 1;
    }
    false
}

} // verus!
