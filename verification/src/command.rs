//! Command lines and how commands end.

use crate::text::texts;
use vstd::prelude::*;
use vstd::string::*;

verus! {

/// A command line.
#[derive(Debug)]
pub struct Command {
    /// The program.
    pub program: String,
    /// Its arguments.
    pub args: Vec<String>,
}

/// A command line, as plain values.
#[verifier::ext_equal]
pub struct CommandView {
    pub program: Seq<char>,
    pub args: Seq<Seq<char>>,
}

impl View for Command {
    type V = CommandView;

    open spec fn view(&self) -> CommandView {
        CommandView { program: self.program@, args: texts(self.args@) }
    }
}

/// How a command ended.
#[derive(Debug)]
pub struct CommandOutput {
    /// Whether it ended with success.
    pub success: bool,
    /// What it wrote to its output.
    pub stdout: String,
    /// What it wrote to its error output.
    pub stderr: String,
}

/// Builds a command line.
pub fn command(program: &str, args: Vec<String>) -> (r: Command)
    ensures
        r@ == (CommandView { program: program@, args: texts(args@) }),
{
    Command { program: String::from_str(program), args }
}

} // verus!
