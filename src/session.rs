//! One step of an interactive session: what to do with a typed line.
//!
//! The loop that reads lines and shows answers stays outside the library; it
//! hands each line to `Engine::respond` and acts on the reply.

use vstd::prelude::*;

use crate::command::{execution, Command, CommandView, EngineError};
use crate::compiler::{resolution, Action, Compiler, CompilerError};
use crate::engine::{join_lines, listed, Engine, Selection};
use crate::result::Res;

verus! {

/// Why a line gave no roll.
#[derive(Clone, Copy, Debug, PartialEq, Eq, Structural)]
pub enum Failure {
    /// The line could not be resolved
    Unresolved(CompilerError),
    /// The operation it resolved to failed
    Rejected(EngineError),
}

/// What the session loop must do after a line.
#[derive(Debug, PartialEq)]
pub enum Reply {
    /// Stop reading lines
    Quit,
    /// Show every command, by name
    Commands(Vec<(String, Command)>),
    /// Show a listing
    Show(String),
    /// Show the result of a roll
    Rolled(Res),
    /// Report an error and go on
    Failed(Failure),
}

/// `r` is the reply of the engine whose bindings are `b` to a line that
/// resolves, under the table `reg`, as `line` does.
pub open spec fn reply_to(
    reg: Map<Seq<char>, CommandView>,
    b: Seq<(String, Command)>,
    line: Seq<char>,
    r: Reply,
) -> bool {
    match resolution(reg, line) {
        Err(e) => r == Reply::Failed(Failure::Unresolved(e)),
        Ok((args, c)) => match c {
            CommandView::Exit => r == Reply::Quit,
            CommandView::List => r matches Reply::Commands(v) && v@ == b,
            CommandView::Aliases => r matches Reply::Show(t) && t@ == join_lines(
                listed(b, Selection::Aliases),
            ),
            CommandView::Macros => r matches Reply::Show(t) && t@ == join_lines(
                listed(b, Selection::Macros),
            ),
            CommandView::Builtin { cmd, .. } => match r {
                Reply::Rolled(res) => execution(cmd, args, Ok(res)),
                Reply::Failed(Failure::Rejected(e)) => execution(cmd, args, Err(e)),
                _ => false,
            },
            _ => r == Reply::Failed(Failure::Unresolved(CompilerError::InvalidBuiltin)),
        },
    }
}

impl Engine {
    /// Resolves a line with `cc` and carries out what it asks: a listing of
    /// this engine's commands, a roll, leaving, or an error to report.
    pub fn respond(&self, cc: &Compiler, line: &str) -> (r: Reply)
        ensures
            reply_to(cc@, self.cmds.bindings(), line@, r),
    {
        match cc.compile(line) {
            Action::Exit => Reply::Quit,
            Action::List => Reply::Commands(self.list()),
            Action::Aliases => Reply::Show(self.aliases()),
            Action::Macros => Reply::Show(self.macros()),
            Action::Execute(cmd, input) => match cmd.execute(input.as_str()) {
                Ok(res) => Reply::Rolled(res),
                Err(e) => Reply::Failed(Failure::Rejected(e)),
            },
            Action::Error(e) => Reply::Failed(Failure::Unresolved(e)),
        }
    }
}

} // verus!
