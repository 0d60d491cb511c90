//! The registry, the execution engine and the partition protocol.

use partition_sim::addr::PeerAddr;
use partition_sim::commands::fs::FsCommands;
use partition_sim::commands::ip::IpTablesCommands;
use partition_sim::commands::Commands;
use partition_sim::discovery::{parse_endpoint, peers_from_endpoints};
use partition_sim::errors::PartitionSimError;
use partition_sim::firewall::RuleSet;
use partition_sim::ids::render_id;
use partition_sim::peer::Peer;
use partition_sim::supervisor::{RemoteOutcome, Supervisor};
use partition_sim::Args;

fn two_peer_registry() -> (Supervisor, u128, u128) {
    let a = Peer::with_id(1, PeerAddr::new(10, 0, 0, 1), "root", None);
    let b = Peer::with_id(2, PeerAddr::new(10, 0, 0, 2), "root", None);
    let sup = Supervisor::new(vec![a, b]);
    (sup, 1, 2)
}

fn completed(exit_code: i32, stdout: &str, stderr: &str) -> RemoteOutcome {
    RemoteOutcome::Completed {
        exit_code,
        stdout: String::from(stdout),
        stderr: String::from(stderr),
    }
}

#[test]
fn args_default_port() {
    let args = Args::default();
    assert_eq!(args.port, 3000);
}

#[test]
fn peer_new_defaults_user_to_root() {
    let p = Peer::new(PeerAddr::new(192, 168, 1, 137), None, Some("/k"));
    assert_eq!(p.user, "root");
    assert_eq!(p.keyfile, Some(String::from("/k")));
    assert!(p.session.is_none());
    let q = Peer::new(PeerAddr::new(192, 168, 1, 137), Some("pi"), None);
    assert_eq!(q.user, "pi");
    assert_eq!(q.keyfile, None);
}

#[test]
fn connect_request_names_the_destination() {
    let p = Peer::with_id(9, PeerAddr::new(192, 168, 1, 137), "pi", Some("/k"));
    let req = p.connect_request().expect("a disconnected peer needs a session");
    assert_eq!(req.host, "192.168.1.137");
    assert_eq!(req.user, "pi");
    assert_eq!(req.keyfile, Some(String::from("/k")));
}

#[test]
fn session_before_connect_is_uninitialized() {
    let p = Peer::with_id(9, PeerAddr::new(10, 0, 0, 1), "root", None);
    match p.session() {
        Err(PartitionSimError::SessionUninitialized) => {},
        _ => panic!("expected SessionUninitialized"),
    }
}

#[test]
fn registry_keeps_insertion_order_and_ids() {
    let (sup, a, b) = two_peer_registry();
    assert_eq!(sup.get_peer_ids(), vec![a, b]);
    let pa = sup.get_peer(a).expect("registered");
    assert_eq!(pa.addr, PeerAddr::new(10, 0, 0, 1));
    let pb = sup.get_peer(b).expect("registered");
    assert_eq!(pb.addr, PeerAddr::new(10, 0, 0, 2));
}

#[test]
fn registry_drops_repeated_identifiers() {
    let first = Peer::with_id(1, PeerAddr::new(10, 0, 0, 1), "root", None);
    let repeat = Peer::with_id(1, PeerAddr::new(10, 0, 0, 9), "root", None);
    let other = Peer::with_id(2, PeerAddr::new(10, 0, 0, 2), "root", None);
    let sup = Supervisor::new(vec![first, repeat, other]);
    assert_eq!(sup.get_peer_ids(), vec![1, 2]);
    assert_eq!(sup.get_peer(1).unwrap().addr, PeerAddr::new(10, 0, 0, 1));
}

#[test]
fn mutable_lookup_writes_through() {
    let (mut sup, a, b) = two_peer_registry();
    let p = sup.get_peer_mut(a).expect("registered");
    p.keyfile = Some(String::from("/new-key"));
    assert_eq!(sup.get_peer(a).unwrap().keyfile, Some(String::from("/new-key")));
    assert_eq!(sup.get_peer(b).unwrap().keyfile, None);
    match sup.get_peer_mut(42) {
        Err(PartitionSimError::PeerNotFound { id }) => assert_eq!(id, 42),
        _ => panic!("expected PeerNotFound"),
    }
}

#[test]
fn lookup_of_unknown_identifier_is_peer_not_found() {
    let (sup, _, _) = two_peer_registry();
    match sup.get_peer(42) {
        Err(PartitionSimError::PeerNotFound { id }) => assert_eq!(id, 42),
        _ => panic!("expected PeerNotFound"),
    }
}

#[test]
fn execute_against_unknown_identifier_does_no_remote_work() {
    // The ticket is refused before any instruction exists to run.
    let (sup, _, _) = two_peer_registry();
    match sup.start_execute(42, Commands::Fs(FsCommands::Ls)) {
        Err(PartitionSimError::PeerNotFound { id }) => assert_eq!(id, 42),
        _ => panic!("expected PeerNotFound"),
    }
}

#[test]
fn start_execute_lowers_the_command() {
    let (sup, a, _) = two_peer_registry();
    let t = sup.start_execute(a, Commands::Fs(FsCommands::Ls)).unwrap();
    assert_eq!(t.peer_id, a);
    assert_eq!(t.instruction.program, "ls");
    assert_eq!(t.instruction.args, vec!["-l", "-a", "-h"]);
}

#[test]
fn supervisor_connect_request_is_idempotent_per_state() {
    let (sup, a, _) = two_peer_registry();
    let req = sup.connect_request(a).unwrap().expect("disconnected peer");
    assert_eq!(req.host, "10.0.0.1");
    assert_eq!(req.user, "root");
    match sup.connect_request(42) {
        Err(PartitionSimError::PeerNotFound { id }) => assert_eq!(id, 42),
        _ => panic!("expected PeerNotFound"),
    }
}

#[test]
fn partition_targets_the_drop_rule() {
    let (sup, a, b) = two_peer_registry();
    let t = sup.partition(a, b).unwrap();
    assert_eq!(t.peer_id, b);
    assert_eq!(t.instruction.program, "sudo");
    assert_eq!(
        t.instruction.args,
        vec!["/usr/sbin/iptables", "-A", "INPUT", "-s", "10.0.0.1", "-j", "DROP"]
    );
}

#[test]
fn heal_targets_the_delete_rule() {
    let (sup, a, b) = two_peer_registry();
    let t = sup.heal(a, b).unwrap();
    assert_eq!(t.peer_id, b);
    assert_eq!(
        t.instruction.args,
        vec!["/usr/sbin/iptables", "-D", "INPUT", "-s", "10.0.0.1", "-j", "DROP"]
    );
}

#[test]
fn partition_and_heal_check_both_identifiers() {
    let (sup, a, _) = two_peer_registry();
    match sup.partition(41, a) {
        Err(PartitionSimError::PeerNotFound { id }) => assert_eq!(id, 41),
        _ => panic!("expected PeerNotFound for the source"),
    }
    match sup.partition(a, 42) {
        Err(PartitionSimError::PeerNotFound { id }) => assert_eq!(id, 42),
        _ => panic!("expected PeerNotFound for the target"),
    }
    match sup.heal(41, 42) {
        Err(PartitionSimError::PeerNotFound { id }) => assert_eq!(id, 41),
        _ => panic!("expected PeerNotFound for the source"),
    }
}

#[test]
fn rules_is_a_pure_query() {
    let (sup, a, _) = two_peer_registry();
    let t = sup.rules(a).unwrap();
    assert_eq!(t.peer_id, a);
    assert_eq!(t.instruction.args, vec!["/usr/sbin/iptables", "-L", "INPUT", "-n"]);
}

#[test]
fn restore_all_sweeps_in_insertion_order() {
    let (sup, a, b) = two_peer_registry();
    let tickets = sup.restore_all();
    assert_eq!(tickets.len(), 2);
    assert_eq!(tickets[0].peer_id, a);
    assert_eq!(tickets[1].peer_id, b);
    for t in &tickets {
        assert_eq!(t.instruction.args, vec!["/usr/sbin/iptables", "-F"]);
    }
}

#[test]
fn complete_returns_stdout_on_success() {
    let (sup, a, _) = two_peer_registry();
    let t = sup.rules(a).unwrap();
    let r = sup.complete(t, completed(0, "Chain INPUT (policy ACCEPT)\n", ""));
    assert_eq!(r.unwrap(), "Chain INPUT (policy ACCEPT)\n");
}

#[test]
fn complete_types_every_failure() {
    let (sup, a, b) = two_peer_registry();

    let t = sup.heal(a, b).unwrap();
    match sup.complete(t, completed(1, "", "iptables: Bad rule")) {
        Err(PartitionSimError::CommandFailed { exit_code, stdout, stderr }) => {
            assert_eq!(exit_code, 1);
            assert_eq!(stdout, "");
            assert_eq!(stderr, "iptables: Bad rule");
        },
        _ => panic!("expected CommandFailed"),
    }

    let t = sup.rules(a).unwrap();
    match sup.complete(t, RemoteOutcome::TimedOut) {
        Err(PartitionSimError::RemoteTimeout) => {},
        _ => panic!("expected RemoteTimeout"),
    }

    let t = sup.rules(a).unwrap();
    match sup.complete(t, RemoteOutcome::TransportError { detail: String::from("broken pipe") }) {
        Err(PartitionSimError::SessionError { detail }) => assert_eq!(detail, "broken pipe"),
        _ => panic!("expected SessionError"),
    }
}

#[test]
fn reload_invalidates_outstanding_tickets() {
    let (mut sup, a, _) = two_peer_registry();
    let stale = sup.rules(a).unwrap();
    let replacement = vec![Peer::with_id(3, PeerAddr::new(10, 0, 0, 3), "root", None)];
    sup.register(replacement);
    assert_eq!(sup.get_peer_ids(), vec![3]);
    match sup.complete(stale, completed(0, "", "")) {
        Err(PartitionSimError::RegistryReloading) => {},
        _ => panic!("expected RegistryReloading"),
    }
    let fresh = sup.rules(3).unwrap();
    assert!(sup.complete(fresh, completed(0, "", "")).is_ok());
}

#[test]
fn bootstrap_lowers_and_interprets() {
    let (sup, _, _) = two_peer_registry();
    let sup = sup.with_key("/home/infinity/.ssh/id_ed25519.pub");
    let instructions = sup.set_up_ssh();
    assert_eq!(instructions.len(), 2);
    assert_eq!(instructions[0].program, "sshpass");
    assert_eq!(instructions[0].args[4], "/home/infinity/.ssh/id_ed25519.pub");
    assert_eq!(instructions[0].args[10], "root@10.0.0.1");
    assert_eq!(instructions[1].args[10], "root@10.0.0.2");
    let one = sup.copy_id(1).unwrap();
    assert_eq!(one.args, instructions[0].args);
    assert!(Supervisor::copy_id_result(0).is_ok());
    match Supervisor::copy_id_result(1) {
        Err(PartitionSimError::BootstrapFailed) => {},
        _ => panic!("expected BootstrapFailed"),
    }
}

#[test]
fn peer_infos_render_identity_as_text() {
    let (sup, a, b) = two_peer_registry();
    let infos = sup.peer_infos();
    assert_eq!(infos.len(), 2);
    assert_eq!(infos[0].uuid, render_id(a));
    assert_eq!(infos[0].address, "10.0.0.1");
    assert_eq!(infos[1].uuid, render_id(b));
    assert_eq!(infos[1].address, "10.0.0.2");
}

#[test]
fn discovery_parses_canonical_endpoints() {
    assert_eq!(
        parse_endpoint("192.168.192.4", "9001"),
        Some((PeerAddr::new(192, 168, 192, 4), 9001))
    );
    assert_eq!(parse_endpoint("192.168.192.4", "99999"), None);
    assert_eq!(parse_endpoint("192.168.192", "9001"), None);
    let endpoints = vec![
        (PeerAddr::new(192, 168, 192, 4), 9001),
        (PeerAddr::new(192, 168, 192, 5), 9001),
    ];
    let peers = peers_from_endpoints(&endpoints, None, Some("/root/.ssh/id_ed25519"));
    assert_eq!(peers.len(), 2);
    assert_eq!(peers[0].addr, PeerAddr::new(192, 168, 192, 4));
    assert_eq!(peers[0].user, "root");
    assert_eq!(peers[1].keyfile, Some(String::from("/root/.ssh/id_ed25519")));
}

#[test]
fn partition_heal_restore_scenario() {
    // Register two peers, partition them, inspect, heal, restore the fleet;
    // each ticket drives the per-peer rule-table model.
    let (sup, a, b) = two_peer_registry();
    let addr_a = PeerAddr::new(10, 0, 0, 1);
    let mut table_a = RuleSet::new();
    let mut table_b = RuleSet::new();

    let t = sup.partition(a, b).unwrap();
    assert_eq!(t.peer_id, b);
    table_b.apply(&IpTablesCommands::DropFrom { source_addr: addr_a });
    assert!(table_b.blocks(addr_a));

    let t = sup.rules(b).unwrap();
    assert_eq!(t.peer_id, b);
    table_b.apply(&IpTablesCommands::Get);
    assert!(table_b.blocks(addr_a));

    let t = sup.heal(a, b).unwrap();
    assert_eq!(t.peer_id, b);
    table_b.apply(&IpTablesCommands::RestoreFrom { source_addr: addr_a });
    assert!(!table_b.blocks(addr_a));

    let tickets = sup.restore_all();
    assert_eq!(tickets.len(), 2);
    table_a.apply(&IpTablesCommands::Restore);
    table_b.apply(&IpTablesCommands::Restore);
    assert_eq!(table_a.rule_count(), 0);
    assert_eq!(table_b.rule_count(), 0);
}
