//! Filesystem diagnostic commands.
//!
//! Used only to validate connectivity without touching the remote
//! firewall state: a directory listing is harmless wherever it runs.

use vstd::prelude::*;
use vstd::string::*;
use crate::commands::Instruction;

verus! {

#[derive(Debug, Clone, Copy, PartialEq, Eq, Structural)]
pub enum FsCommands {
    /// List the contents of the remote working directory.
    Ls,
}

impl FsCommands {
    /// The word list this command lowers to.
    pub open spec fn spec_build(self) -> Seq<Seq<char>> {
        match self {
            FsCommands::Ls => seq!["ls"@, "-l"@, "-a"@, "-h"@],
        }
    }

    /// Lower the command into its concrete command line.
    pub fn build(&self) -> (r: Instruction)
        ensures
            r@ =~= self.spec_build(),
    {
        match self {
            FsCommands::Ls => {
                let mut args: Vec<String> = Vec::new();
                args.push(String::from_str("-l"));
                args.push(String::from_str("-a"));
                args.push(String::from_str("-h"));
                Instruction { program: String::from_str("ls"), args }
            },
        }
    }
}

} // verus!
