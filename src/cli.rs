//! The command line: what the arguments ask for.
use vstd::prelude::*;

verus! {

/// The arguments of the command line.
pub struct Args {
    pub arg_source: Vec<String>,
    pub flag_r: bool,
    pub flag_h: bool,
    pub flag_v: bool,
}

/// What the program is asked to do.
#[derive(Debug, PartialEq)]
pub enum Command {
    /// Print the version.
    Version,
    /// Read and evaluate lines until the input ends.
    Repl,
    /// Print the usage.
    Help,
    /// Evaluate the file at this path.
    Run(String),
}

impl Args {
    /// The version flag wins over the others, then the session flag, then the help
    /// flag; with none of them, the first source path is run, and without one the
    /// usage is printed.
    pub fn command(&self) -> (r: Command)
        ensures
            self.flag_v ==> r == Command::Version,
            !self.flag_v && self.flag_r ==> r == Command::Repl,
            !self.flag_v && !self.flag_r && self.flag_h ==> r == Command::Help,
            !self.flag_v && !self.flag_r && !self.flag_h && self.arg_source@.len() > 0 ==> (r matches Command::Run(p) && p@ == self.arg_source@[0]@),
            !self.flag_v && !self.flag_r && !self.flag_h && self.arg_source@.len() == 0 ==> r == Command::Help,
    {
        if self.flag_v {
            Command::Version
        } else if self.flag_r {
            Command::Repl
        } else if self.flag_h || self.arg_source.len() == 0 {
            Command::Help
        } else {
            Command::Run(self.arg_source[0].clone())
        }
    }
}

} // verus!
