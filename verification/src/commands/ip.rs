//! Inbound packet-filter commands.
//!
//! These lower to `iptables` invocations run with superuser elevation on
//! the remote peer; the engine assumes the remote environment grants that
//! without interactive prompts.  Their effect on a peer's rule table is
//! specified in the `firewall` module.

use vstd::prelude::*;
use vstd::string::*;
use crate::addr::{addr_text, PeerAddr};
use crate::commands::Instruction;

verus! {

#[derive(Debug, Clone, Copy, PartialEq, Eq, Structural)]
pub enum IpTablesCommands {
    /// Flush every inbound rule on the target peer, unconditionally.
    Restore,
    /// Delete the first inbound drop rule for the given source address.
    /// The remote tool itself fails when no such rule exists.
    RestoreFrom { source_addr: PeerAddr },
    /// Append a rule dropping all inbound traffic from the given source
    /// address.  Issued twice, it appends two identical rules.
    DropFrom { source_addr: PeerAddr },
    /// List the current inbound rules; mutates nothing.
    Get,
}

impl IpTablesCommands {
    /// The word list this command lowers to.
    pub open spec fn spec_build(self) -> Seq<Seq<char>> {
        match self {
            IpTablesCommands::Restore => seq!["sudo"@, "/usr/sbin/iptables"@, "-F"@],
            IpTablesCommands::RestoreFrom { source_addr } => seq![
                "sudo"@,
                "/usr/sbin/iptables"@,
                "-D"@,
                "INPUT"@,
                "-s"@,
                addr_text(source_addr),
                "-j"@,
                "DROP"@,
            ],
            IpTablesCommands::DropFrom { source_addr } => seq![
                "sudo"@,
                "/usr/sbin/iptables"@,
                "-A"@,
                "INPUT"@,
                "-s"@,
                addr_text(source_addr),
                "-j"@,
                "DROP"@,
            ],
            IpTablesCommands::Get => seq!["sudo"@, "/usr/sbin/iptables"@, "-L"@, "INPUT"@, "-n"@],
        }
    }

    /// Lower the command into its concrete command line.
    pub fn build(&self) -> (r: Instruction)
        ensures
            r@ =~= self.spec_build(),
    {
        match self {
            IpTablesCommands::Restore => {
                let mut args: Vec<String> = Vec::new();
                args.push(String::from_str("/usr/sbin/iptables"));
                args.push(String::from_str("-F"));
                Instruction { program: String::from_str("sudo"), args }
            },
            IpTablesCommands::RestoreFrom { source_addr } => {
                let mut args: Vec<String> = Vec::new();
                args.push(String::from_str("/usr/sbin/iptables"));
                args.push(String::from_str("-D"));
                args.push(String::from_str("INPUT"));
                args.push(String::from_str("-s"));
                args.push(source_addr.to_text());
                args.push(String::from_str("-j"));
                args.push(String::from_str("DROP"));
                Instruction { program: String::from_str("sudo"), args }
            },
            IpTablesCommands::DropFrom { source_addr } => {
                let mut args: Vec<String> = Vec::new();
                args.push(String::from_str("/usr/sbin/iptables"));
                args.push(String::from_str("-A"));
                args.push(String::from_str("INPUT"));
                args.push(String::from_str("-s"));
                args.push(source_addr.to_text());
                args.push(String::from_str("-j"));
                args.push(String::from_str("DROP"));
                Instruction { program: String::from_str("sudo"), args }
            },
            IpTablesCommands::Get => {
                let mut args: Vec<String> = Vec::new();
                args.push(String::from_str("/usr/sbin/iptables"));
                args.push(String::from_str("-L"));
                args.push(String::from_str("INPUT"));
                args.push(String::from_str("-n"));
                Instruction { program: String::from_str("sudo"), args }
            },
        }
    }
}

} // verus!
