//! A plain model of an external command invocation: the program name, an
//! optional working directory, and its arguments. Running a command is the
//! caller's business; the library only decides what to run.

use vstd::prelude::*;

verus! {

/// A command to run: program name, optional working directory, arguments.
#[derive(Debug, Clone, PartialEq, Eq)]
pub struct Command {
    /// The program to run.
    pub name: String,
    /// The directory to run it in, if any.
    pub working_directory: Option<String>,
    /// The arguments to pass.
    pub args: Vec<String>,
}

impl Command {
    /// Construct a new command with no working directory and no arguments.
    pub fn new(name: String) -> (r: Command)
        ensures
            r.name == name,
            r.working_directory is None,
            r.args@ =~= Seq::<String>::empty(),
    {
        Command { name, working_directory: None, args: Vec::new() }
    }

    /// Push an argument to the command.
    pub fn arg(&mut self, arg: String)
        ensures
            final(self).args@ == old(self).args@.push(arg),
            final(self).name == old(self).name,
            final(self).working_directory == old(self).working_directory,
    {
        self.args.push(arg);
    }

    /// Push a collection of arguments to the command.
    pub fn args(&mut self, args: &Vec<String>)
        ensures
            final(self).args@ == old(self).args@ + args@,
            final(self).name == old(self).name,
            final(self).working_directory == old(self).working_directory,
    {
        let ghost orig = self.args@;
        let mut i: usize = 0;
        while i < args.len()
            invariant
                0 <= i <= args@.len(),
                self.args@ == orig + args@.subrange(0, i as int),
                self.name == old(self).name,
                self.working_directory == old(self).working_directory,
            decreases args@.len() - i,
        {
            self.args.push(args[i].clone());
            proof {
                assert(self.args@ =~= orig + args@.subrange(0, i + 1));
            }
            i = i + 1;
        }
        proof {
            assert(orig + args@.subrange(0, args@.len() as int) =~= orig + args@);
        }
    }

    /// Configure the working directory of this command.
    pub fn working_directory(&mut self, path: String)
        ensures
            final(self).working_directory == Some(path),
            final(self).name == old(self).name,
            final(self).args == old(self).args,
    {
        self.working_directory = Some(path);
    }
}

/// The decoded outcome of a command that ran to completion.
#[derive(Debug, Clone, PartialEq, Eq)]
pub struct Output {
    /// Whether the command exited successfully.
    pub success: bool,
    /// What it printed to stdout.
    pub stdout: String,
    /// What it printed to stderr.
    pub stderr: String,
}

/// Why a command could not be run at all.
#[derive(Debug, Clone, PartialEq, Eq)]
pub enum RunError {
    /// The program was not found.
    NotFound,
    /// Anything else, with a description.
    Failed(String),
}

} // verus!
