//! Translation of solver configurations into command lines, and the record of
//! a finished solver run.
use vstd::prelude::*;
use vstd::string::*;

pub mod cvc4;
pub mod token;
pub mod z3;

use crate::token::{push_token, views};

verus! {

/// A request's configuration: which solver runs, with which options.
#[derive(Debug)]
pub enum Argments {
    Z3(z3::Argments),
    Cvc4(cvc4::Argments),
}

/// What a solver run needs: the executable, its arguments, and the value of
/// the library search path to run it with.
#[derive(Debug)]
pub struct Invocation {
    pub program: String,
    pub args: Vec<String>,
    pub library_path: String,
}

/// The library search path the solvers run with: the working directory
/// first, then the inherited entry.
pub open spec fn library_search_path() -> Seq<char> {
    ".:$LD_LIBRARY_PATH"@
}

impl Argments {
    /// The executable of the chosen solver.
    pub open spec fn program(self) -> Seq<char> {
        match self {
            Argments::Z3(_) => "./z3"@,
            Argments::Cvc4(_) => "./cvc4"@,
        }
    }

    /// The chosen solver's option tokens.
    pub open spec fn command_line(self) -> Seq<Seq<char>> {
        match self {
            Argments::Z3(a) => a.command_line(),
            Argments::Cvc4(a) => a.command_line(),
        }
    }

    /// The run of the chosen solver on the problem at `staging_path`: its
    /// option tokens, then the path as the last argument.
    pub fn invocation(self, staging_path: &str) -> (r: Invocation)
        ensures
            r.program@ == self.program(),
            views(r.args@) == self.command_line().push(staging_path@),
            r.library_path@ == library_search_path(),
    {
        let (program, mut args) = match self {
            Argments::Z3(a) => (String::from_str("./z3"), a.to_commandline()),
            Argments::Cvc4(a) => (String::from_str("./cvc4"), a.to_commandline()),
        };
        push_token(&mut args, String::from_str(staging_path));
        Invocation { program, args, library_path: String::from_str(".:$LD_LIBRARY_PATH") }
    }
}

/// What a finished solver run reports, whatever its exit code.
#[derive(Debug)]
pub struct Output {
    pub exit: i32,
    pub stdout: String,
    pub stderr: String,
}

/// Why a request produced no [`Output`].
#[derive(Clone, Copy, Debug, PartialEq, Eq)]
pub enum Failure {
    /// The problem could not be written to the staging file.
    Staging,
    /// The solver could not be started.
    Spawn,
    /// The solver ended without an exit code (it was killed by a signal).
    NoExitCode,
    /// Standard output or standard error was not valid UTF-8.
    Decode,
}

/// The result of a run that was spawned: its exit code, if it had one, and
/// each stream as text, if it decoded. A nonzero exit code is data, not a
/// failure; a missing code or an undecodable stream fails the request.
pub fn outcome(exit: Option<i32>, stdout: Option<String>, stderr: Option<String>) -> (r: Result<
    Output,
    Failure,
>)
    ensures
        exit is None ==> r == Err::<Output, Failure>(Failure::NoExitCode),
        exit is Some && (stdout is None || stderr is None) ==> r == Err::<Output, Failure>(
            Failure::Decode,
        ),
        r is Ok <==> (exit is Some && stdout is Some && stderr is Some),
        r is Ok ==> r->Ok_0.exit == exit->Some_0 && r->Ok_0.stdout == stdout->Some_0
            && r->Ok_0.stderr == stderr->Some_0,
{
    match exit {
        None => Err(Failure::NoExitCode),
        Some(code) => match (stdout, stderr) {
            (Some(out), Some(err)) => Ok(Output { exit: code, stdout: out, stderr: err }),
            _ => Err(Failure::Decode),
        },
    }
}

/// Building the command line twice from the same configuration gives the
/// same tokens both times.
pub proof fn lemma_deterministic(a: Argments, b: Argments, first: Seq<String>, second: Seq<String>)
    requires
        a == b,
        views(first) == a.command_line(),
        views(second) == b.command_line(),
    ensures
        views(first) == views(second),
{
}

} // verus!
