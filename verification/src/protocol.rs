//! The partition protocol, built entirely from `start_execute` and the
//! command abstraction.
//!
//! Partitioning a pair resolves the source's address and asks the target
//! to drop its traffic; healing deletes exactly that one rule; `rules`
//! lists a peer's table; a full restore sweeps every peer in insertion
//! order.  Every operation either yields a ticket for the surrounding
//! process to run, or fails with `PeerNotFound` before any remote work.
//! `complete` interprets what came back: captured output on a zero exit
//! status, a structured `CommandFailed` otherwise, with the underlying
//! transport errors passed through verbatim.

use vstd::prelude::*;
use crate::commands::ip::IpTablesCommands;
use crate::commands::Commands;
use crate::errors::PartitionSimError;
use crate::supervisor::{CmdOutput, ExecTicket, RemoteOutcome, Supervisor};

verus! {

/// Captured stdout on success; the structured failure a non-zero exit
/// status converts into, carrying the status and both captured streams.
pub fn require_success(output: CmdOutput) -> (r: Result<String, PartitionSimError>)
    ensures
        output.exit_code == 0 ==> (r matches Ok(s) && s == output.stdout),
        output.exit_code != 0 ==> (r matches Err(e) && e == (PartitionSimError::CommandFailed {
            exit_code: output.exit_code,
            stdout: output.stdout,
            stderr: output.stderr,
        })),
{
    if output.exit_code == 0 {
        Ok(output.stdout)
    } else {
        Err(PartitionSimError::CommandFailed {
            exit_code: output.exit_code,
            stdout: output.stdout,
            stderr: output.stderr,
        })
    }
}

impl Supervisor {
    /// Block traffic from `source_peer_id` into `target_peer_id`: the
    /// ticket asks the target to drop everything arriving from the
    /// source's address.  The reverse direction is unaffected.  Fails
    /// with `PeerNotFound` when either identifier is unknown, the source
    /// checked first, and performs no remote work itself.
    pub fn partition(&self, source_peer_id: u128, target_peer_id: u128) -> (r: Result<
        ExecTicket,
        PartitionSimError,
    >)
        requires
            self.wf(),
        ensures
            r is Ok <==> self.has_peer(source_peer_id) && self.has_peer(target_peer_id),
            r matches Ok(t) ==> {
                &&& t.epoch == self.epoch()
                &&& t.peer_id == target_peer_id
                &&& t.instruction@ =~= (IpTablesCommands::DropFrom {
                    source_addr: self.addr_of(source_peer_id),
                }).spec_build()
            },
            !self.has_peer(source_peer_id) ==> (r matches Err(e) && e
                == (PartitionSimError::PeerNotFound { id: source_peer_id })),
            self.has_peer(source_peer_id) && !self.has_peer(target_peer_id) ==> (r matches Err(e)
                && e == (PartitionSimError::PeerNotFound { id: target_peer_id })),
    {
        let source = match self.get_peer(source_peer_id) {
            Ok(p) => p,
            Err(e) => {
                return Err(e);
            },
        };
        let command = Commands::IpTables(IpTablesCommands::DropFrom { source_addr: source.addr });
        self.start_execute(target_peer_id, command)
    }

    /// Remove the one blocking rule a partition of this pair installed:
    /// the ticket asks the target to delete the first drop rule for the
    /// source's address.  Unrelated blocks are untouched.  Fails with
    /// `PeerNotFound` when either identifier is unknown, the source
    /// checked first.
    pub fn heal(&self, source_peer_id: u128, target_peer_id: u128) -> (r: Result<
        ExecTicket,
        PartitionSimError,
    >)
        requires
            self.wf(),
        ensures
            r is Ok <==> self.has_peer(source_peer_id) && self.has_peer(target_peer_id),
            r matches Ok(t) ==> {
                &&& t.epoch == self.epoch()
                &&& t.peer_id == target_peer_id
                &&& t.instruction@ =~= (IpTablesCommands::RestoreFrom {
                    source_addr: self.addr_of(source_peer_id),
                }).spec_build()
            },
            !self.has_peer(source_peer_id) ==> (r matches Err(e) && e
                == (PartitionSimError::PeerNotFound { id: source_peer_id })),
            self.has_peer(source_peer_id) && !self.has_peer(target_peer_id) ==> (r matches Err(e)
                && e == (PartitionSimError::PeerNotFound { id: target_peer_id })),
    {
        let source = match self.get_peer(source_peer_id) {
            Ok(p) => p,
            Err(e) => {
                return Err(e);
            },
        };
        let command = Commands::IpTables(
            IpTablesCommands::RestoreFrom { source_addr: source.addr },
        );
        self.start_execute(target_peer_id, command)
    }

    /// List a peer's current inbound rules: a non-mutating query whose
    /// captured output is the diagnostic listing.
    pub fn rules(&self, peer_id: u128) -> (r: Result<ExecTicket, PartitionSimError>)
        requires
            self.wf(),
        ensures
            r is Ok <==> self.has_peer(peer_id),
            r matches Ok(t) ==> {
                &&& t.epoch == self.epoch()
                &&& t.peer_id == peer_id
                &&& t.instruction@ =~= IpTablesCommands::Get.spec_build()
            },
            r matches Err(e) ==> e == (PartitionSimError::PeerNotFound { id: peer_id }),
    {
        self.start_execute(peer_id, Commands::IpTables(IpTablesCommands::Get))
    }

    /// One flush ticket per registered peer, in insertion order.  The
    /// surrounding process runs them one by one and surfaces the first
    /// failure; a later sweep must then be retried whole.
    pub fn restore_all(&self) -> (r: Vec<ExecTicket>)
        requires
            self.wf(),
        ensures
            r@.len() == self.peer_count(),
            forall|i: int|
                0 <= i < r@.len() ==> {
                    &&& (#[trigger] r@[i]).epoch == self.epoch()
                    &&& r@[i].peer_id == self.ids()[i]
                    &&& r@[i].instruction@ =~= IpTablesCommands::Restore.spec_build()
                },
    {
        let ids = self.get_peer_ids();
        let mut out: Vec<ExecTicket> = Vec::new();
        let mut i: usize = 0;
        while i < ids.len()
            invariant
                self.wf(),
                ids@ =~= self.ids(),
                0 <= i <= ids@.len(),
                ids@.len() == self.peer_count(),
                out@.len() == i,
                forall|j: int|
                    0 <= j < i ==> {
                        &&& (#[trigger] out@[j]).epoch == self.epoch()
                        &&& out@[j].peer_id == self.ids()[j]
                        &&& out@[j].instruction@ =~= IpTablesCommands::Restore.spec_build()
                    },
            decreases ids.len() - i,
        {
            proof {
                assert(self.has_peer(ids@[i as int])) by {
                    assert(self.peers_seq()[i as int].id == ids@[i as int]);
                }
            }
            let t = match self.start_execute(
                ids[i],
                Commands::IpTables(IpTablesCommands::Restore),
            ) {
                Ok(t) => t,
                Err(_) => {
                    proof {
                        assert(false);
                    }
                    return out;
                },
            };
            out.push(t);
            i = i + 1;
        }
        out
    }

    /// Interpret a finished protocol operation: the ticket is checked
    /// against the registry epoch, transport failures and timeouts pass
    /// through, and a completed run yields its captured stdout exactly
    /// when the remote tool exited with status zero.
    pub fn complete(&self, ticket: ExecTicket, outcome: RemoteOutcome) -> (r: Result<
        String,
        PartitionSimError,
    >)
        ensures
            ticket.epoch != self.epoch() ==> (r matches Err(e) && e
                == PartitionSimError::RegistryReloading),
            ticket.epoch == self.epoch() ==> match outcome {
                RemoteOutcome::Completed { exit_code, stdout, stderr } => {
                    &&& exit_code == 0 ==> (r matches Ok(s) && s == stdout)
                    &&& exit_code != 0 ==> (r matches Err(e) && e
                        == (PartitionSimError::CommandFailed { exit_code, stdout, stderr }))
                },
                RemoteOutcome::TimedOut => r matches Err(e) && e
                    == PartitionSimError::RemoteTimeout,
                RemoteOutcome::TransportError { detail } => r matches Err(e) && e
                    == (PartitionSimError::SessionError { detail }),
            },
    {
        match self.finish_execute(ticket, outcome) {
            Ok(output) => require_success(output),
            Err(e) => Err(e),
        }
    }
}

} // verus!
