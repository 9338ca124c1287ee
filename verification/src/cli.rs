use vstd::prelude::*;

verus! {

/// The command line: one subcommand.
pub struct Args {
    pub command: Command,
}

/// What the helper is asked to do.
pub enum Command {
    /// Test a specific chapter.
    TestChapter { chapter: u32 },
    /// Set up the database: optionally create the tables, then seed
    /// `accounts` accounts.
    Setup { accounts: u32, with_tables: bool },
    /// Set up chapter 4 (one million accounts).
    SetupCh04,
    /// Run sustained load until interrupted.
    SustainedLoad { invocations_per_sec: u32, accounts: u32 },
}

/// Accounts seeded by `Setup` when none is given.
pub const DEFAULT_SETUP_ACCOUNTS: u32 = 1000;

/// Invocations per second of `SustainedLoad` when none is given.
pub const DEFAULT_INVOCATIONS_PER_SEC: u32 = 100;

/// Accounts `SustainedLoad` transfers between when none is given.
pub const DEFAULT_LOAD_ACCOUNTS: u32 = 1000;

impl Command {
    /// How many invocation clients the command needs: one to test a
    /// chapter, sixteen (to spread the load over connections) for the
    /// sustained load, none for the setup commands.
    pub fn client_pool_size(&self) -> (n: Option<usize>)
        ensures
            n == match self {
                Command::TestChapter { .. } => Some(1usize),
                Command::SustainedLoad { .. } => Some(16usize),
                _ => None::<usize>,
            },
    {
        match self {
            Command::TestChapter { .. } => Some(1),
            Command::SustainedLoad { .. } => Some(16),
            Command::Setup { .. } => None,
            Command::SetupCh04 => None,
        }
    }
}

} // verus!
