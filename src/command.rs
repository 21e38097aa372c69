use vstd::prelude::*;

verus! {

/// What the program was asked to do.
#[derive(Clone, Copy, Debug, PartialEq, Eq, Structural)]
pub enum Command {
    /// Mail a greeting to every friend whose birthday is today.
    Send,
    /// Run the interactive menu.
    Run,
    /// Serve the HTTP API.
    Serve,
}

/// The parsed command line.
#[derive(Clone, Copy, Debug)]
pub struct Opts {
    pub command: Option<Command>,
}

impl Opts {
    /// The command asked for; the interactive menu when none was given.
    pub fn chosen(&self) -> (r: Command)
        ensures
            r == match self.command {
                Some(c) => c,
                None => Command::Run,
            },
    {
        match self.command {
            Some(c) => c,
            None => Command::Run,
        }
    }
}

} // verus!
