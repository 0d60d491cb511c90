//! Bootstrap commands.
//!
//! One-time installation of the local public key on a peer, run on the
//! local system rather than through a remote session, so that remote
//! sessions can then authenticate without passwords.

use vstd::prelude::*;
use vstd::string::*;
use crate::addr::{addr_text, PeerAddr};
use crate::commands::Instruction;

verus! {

#[derive(Debug, Clone, PartialEq, Eq)]
pub enum SshCommands {
    /// Copy the public key at `path_to_key` onto the peer at `addr`.
    CopyId { addr: PeerAddr, path_to_key: String },
}

/// The word list a key-copy command lowers to, for a peer address and a
/// public-key path.
pub open spec fn copy_id_argv(addr: PeerAddr, path_to_key: Seq<char>) -> Seq<Seq<char>> {
    seq![
        "sshpass"@,
        "-f"@,
        "/password.txt"@,
        "ssh-copy-id"@,
        "-i"@,
        path_to_key,
        "-o"@,
        "StrictHostKeyChecking=no"@,
        "-o"@,
        "UserKnownHostsFile=/dev/null"@,
        "-f"@,
        "root@"@ + addr_text(addr),
    ]
}

impl SshCommands {
    /// The word list this command lowers to.
    pub open spec fn spec_build(self) -> Seq<Seq<char>> {
        match self {
            SshCommands::CopyId { addr, path_to_key } => copy_id_argv(addr, path_to_key@),
        }
    }

    /// Lower the command into its concrete command line.
    pub fn build(&self) -> (r: Instruction)
        ensures
            r@ =~= self.spec_build(),
    {
        match self {
            SshCommands::CopyId { addr, path_to_key } => {
                let mut args: Vec<String> = Vec::new();
                args.push(String::from_str("-f"));
                args.push(String::from_str("/password.txt"));
                args.push(String::from_str("ssh-copy-id"));
                args.push(String::from_str("-i"));
                args.push(path_to_key.clone());
                args.push(String::from_str("-o"));
                args.push(String::from_str("StrictHostKeyChecking=no"));
                args.push(String::from_str("-o"));
                args.push(String::from_str("UserKnownHostsFile=/dev/null"));
                args.push(String::from_str("-f"));
                let mut dest = String::from_str("root@");
                let t = addr.to_text();
                dest.append(t.as_str());
                args.push(dest);
                Instruction { program: String::from_str("sshpass"), args }
            },
        }
    }
}

} // verus!
