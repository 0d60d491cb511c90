//! Command lowering and the firewall rule-table model.

use partition_sim::addr::PeerAddr;
use partition_sim::commands::fs::FsCommands;
use partition_sim::commands::ip::IpTablesCommands;
use partition_sim::commands::ssh::SshCommands;
use partition_sim::commands::Commands;
use partition_sim::firewall::RuleSet;

fn words(program: &str, args: &[&str]) -> (String, Vec<String>) {
    (String::from(program), args.iter().map(|a| String::from(*a)).collect())
}

#[test]
fn iptables_lowering_is_exact() {
    let a = PeerAddr::new(10, 0, 0, 1);

    let ins = IpTablesCommands::Restore.build();
    let (program, args) = words("sudo", &["/usr/sbin/iptables", "-F"]);
    assert_eq!(ins.program, program);
    assert_eq!(ins.args, args);

    let ins = (IpTablesCommands::DropFrom { source_addr: a }).build();
    let (program, args) = words(
        "sudo",
        &["/usr/sbin/iptables", "-A", "INPUT", "-s", "10.0.0.1", "-j", "DROP"],
    );
    assert_eq!(ins.program, program);
    assert_eq!(ins.args, args);

    let ins = (IpTablesCommands::RestoreFrom { source_addr: a }).build();
    let (program, args) = words(
        "sudo",
        &["/usr/sbin/iptables", "-D", "INPUT", "-s", "10.0.0.1", "-j", "DROP"],
    );
    assert_eq!(ins.program, program);
    assert_eq!(ins.args, args);

    let ins = IpTablesCommands::Get.build();
    let (program, args) = words("sudo", &["/usr/sbin/iptables", "-L", "INPUT", "-n"]);
    assert_eq!(ins.program, program);
    assert_eq!(ins.args, args);
}

#[test]
fn fs_lowering_is_exact() {
    let ins = FsCommands::Ls.build();
    let (program, args) = words("ls", &["-l", "-a", "-h"]);
    assert_eq!(ins.program, program);
    assert_eq!(ins.args, args);
}

#[test]
fn copy_id_lowering_is_exact() {
    let cmd = SshCommands::CopyId {
        addr: PeerAddr::new(192, 168, 1, 137),
        path_to_key: String::from("/root/.ssh/id_ed25519.pub"),
    };
    let ins = cmd.build();
    let (program, args) = words(
        "sshpass",
        &[
            "-f",
            "/password.txt",
            "ssh-copy-id",
            "-i",
            "/root/.ssh/id_ed25519.pub",
            "-o",
            "StrictHostKeyChecking=no",
            "-o",
            "UserKnownHostsFile=/dev/null",
            "-f",
            "root@192.168.1.137",
        ],
    );
    assert_eq!(ins.program, program);
    assert_eq!(ins.args, args);
}

#[test]
fn command_wrapper_dispatches() {
    let from_fs = Commands::from(FsCommands::Ls);
    assert_eq!(from_fs, Commands::Fs(FsCommands::Ls));
    let from_ip = Commands::from(IpTablesCommands::Get);
    assert_eq!(from_ip, Commands::IpTables(IpTablesCommands::Get));
    let ins = from_ip.build();
    assert_eq!(ins.program, "sudo");
    let ins = from_fs.build();
    assert_eq!(ins.program, "ls");
}

#[test]
fn partition_then_rules_shows_block() {
    let a = PeerAddr::new(10, 0, 0, 1);
    let mut table = RuleSet::new();
    assert!(!table.blocks(a));
    table.apply(&IpTablesCommands::DropFrom { source_addr: a });
    assert!(table.blocks(a));
    assert_eq!(table.rule_count(), 1);
    assert_eq!(table.rule_at(0), a);
}

#[test]
fn heal_after_partition_removes_block() {
    let a = PeerAddr::new(10, 0, 0, 1);
    let mut table = RuleSet::new();
    table.apply(&IpTablesCommands::DropFrom { source_addr: a });
    table.apply(&IpTablesCommands::RestoreFrom { source_addr: a });
    assert!(!table.blocks(a));
    assert_eq!(table.rule_count(), 0);
}

#[test]
fn heal_leaves_unrelated_blocks_alone() {
    let a = PeerAddr::new(10, 0, 0, 1);
    let b = PeerAddr::new(10, 0, 0, 2);
    let mut table = RuleSet::new();
    table.apply(&IpTablesCommands::DropFrom { source_addr: b });
    table.apply(&IpTablesCommands::DropFrom { source_addr: a });
    table.apply(&IpTablesCommands::RestoreFrom { source_addr: a });
    assert!(table.blocks(b));
    assert!(!table.blocks(a));
    assert_eq!(table.rule_count(), 1);
}

#[test]
fn heal_removes_one_rule_at_a_time() {
    let a = PeerAddr::new(10, 0, 0, 1);
    let mut table = RuleSet::new();
    table.apply(&IpTablesCommands::DropFrom { source_addr: a });
    table.apply(&IpTablesCommands::DropFrom { source_addr: a });
    assert_eq!(table.rule_count(), 2);
    table.apply(&IpTablesCommands::RestoreFrom { source_addr: a });
    assert!(table.blocks(a));
    table.apply(&IpTablesCommands::RestoreFrom { source_addr: a });
    assert!(!table.blocks(a));
}

#[test]
fn heal_without_block_changes_nothing() {
    let a = PeerAddr::new(10, 0, 0, 1);
    let b = PeerAddr::new(10, 0, 0, 2);
    let mut table = RuleSet::new();
    table.apply(&IpTablesCommands::DropFrom { source_addr: b });
    table.apply(&IpTablesCommands::RestoreFrom { source_addr: a });
    assert!(table.blocks(b));
    assert_eq!(table.rule_count(), 1);
}

#[test]
fn restore_clears_every_block() {
    let a = PeerAddr::new(10, 0, 0, 1);
    let b = PeerAddr::new(10, 0, 0, 2);
    let mut table = RuleSet::new();
    table.apply(&IpTablesCommands::DropFrom { source_addr: a });
    table.apply(&IpTablesCommands::DropFrom { source_addr: b });
    table.apply(&IpTablesCommands::DropFrom { source_addr: a });
    table.apply(&IpTablesCommands::Restore);
    assert_eq!(table.rule_count(), 0);
    assert!(!table.blocks(a));
    assert!(!table.blocks(b));
}

#[test]
fn get_mutates_nothing() {
    let a = PeerAddr::new(10, 0, 0, 1);
    let mut table = RuleSet::new();
    table.apply(&IpTablesCommands::DropFrom { source_addr: a });
    table.apply(&IpTablesCommands::Get);
    assert!(table.blocks(a));
    assert_eq!(table.rule_count(), 1);
}

#[test]
fn racing_partition_and_heal_end_in_a_serial_outcome() {
    // Per-peer exclusivity means a concurrent partition/heal pair lands in
    // one of its two serial orders; both leave a well-formed table.
    let a = PeerAddr::new(10, 0, 0, 1);

    let mut partition_first = RuleSet::new();
    partition_first.apply(&IpTablesCommands::DropFrom { source_addr: a });
    partition_first.apply(&IpTablesCommands::RestoreFrom { source_addr: a });
    assert!(!partition_first.blocks(a));
    assert_eq!(partition_first.rule_count(), 0);

    let mut heal_first = RuleSet::new();
    heal_first.apply(&IpTablesCommands::RestoreFrom { source_addr: a });
    heal_first.apply(&IpTablesCommands::DropFrom { source_addr: a });
    assert!(heal_first.blocks(a));
    assert_eq!(heal_first.rule_count(), 1);
}
