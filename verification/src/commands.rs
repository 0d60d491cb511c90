//! The command abstraction.
//!
//! A command is pure data: a closed set of intents that lower
//! deterministically into a concrete command line.  Lowering has no side
//! effect; the instruction only acts when the surrounding process hands
//! it to a remote session (or, for bootstrap, runs it locally).  Each
//! variant's lowering is specified exactly, argument by argument.

pub mod fs;
pub mod ip;
pub mod ssh;

use vstd::prelude::*;

use crate::commands::fs::FsCommands;
use crate::commands::ip::IpTablesCommands;

verus! {

/// A concrete command line: a program and its arguments, in order.
#[derive(Debug)]
pub struct Instruction {
    pub program: String,
    pub args: Vec<String>,
}

impl View for Instruction {
    type V = Seq<Seq<char>>;

    /// An instruction is its word list: the program followed by the
    /// arguments.
    open spec fn view(&self) -> Seq<Seq<char>> {
        seq![self.program@] + self.args.deep_view()
    }
}

/// Every command a remote session can be asked to run.
#[derive(Debug, Clone, Copy, PartialEq, Eq, Structural)]
pub enum Commands {
    /// Inbound packet-filter mutations and queries.
    IpTables(IpTablesCommands),
    /// Non-destructive filesystem diagnostics.
    Fs(FsCommands),
}

impl Commands {
    /// The word list this command lowers to.
    pub open spec fn spec_build(self) -> Seq<Seq<char>> {
        match self {
            Commands::IpTables(c) => c.spec_build(),
            Commands::Fs(c) => c.spec_build(),
        }
    }

    /// Lower the command into its concrete command line.
    pub fn build(&self) -> (r: Instruction)
        ensures
            r@ =~= self.spec_build(),
    {
        match self {
            Commands::IpTables(c) => c.build(),
            Commands::Fs(c) => c.build(),
        }
    }
}

impl From<IpTablesCommands> for Commands {
    fn from(command: IpTablesCommands) -> (r: Commands) {
        Commands::IpTables(command)
    }
}

impl vstd::std_specs::convert::FromSpecImpl<IpTablesCommands> for Commands {
    open spec fn obeys_from_spec() -> bool {
        true
    }

    open spec fn from_spec(command: IpTablesCommands) -> Commands {
        Commands::IpTables(command)
    }
}

impl From<FsCommands> for Commands {
    fn from(command: FsCommands) -> (r: Commands) {
        Commands::Fs(command)
    }
}

impl vstd::std_specs::convert::FromSpecImpl<FsCommands> for Commands {
    open spec fn obeys_from_spec() -> bool {
        true
    }

    open spec fn from_spec(command: FsCommands) -> Commands {
        Commands::Fs(command)
    }
}

} // verus!
