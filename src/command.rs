//! Commands: what a name is bound to, and the core operations.

use vstd::prelude::*;

use crate::dice::{set_outcome, set_rollable, Dice, Rollable};
use crate::parse::{open_roll, parse_open_bonus, parse_with_bonus, regular_roll};
use crate::result::Res;

verus! {

/// The core operations: everything a line resolves to in the end.
#[derive(Clone, Copy, Debug, PartialEq, Eq, Hash, Structural)]
pub enum Cmd {
    /// Roll of dice
    Dice,
    /// Not an operation
    Invalid,
    /// Roll of an open die
    Open,
}

/// The operation named by a keyword.
pub open spec fn cmd_of(s: Seq<char>) -> Cmd {
    if s == "dice"@ {
        Cmd::Dice
    } else if s == "open"@ {
        Cmd::Open
    } else {
        Cmd::Invalid
    }
}

/// Everything a name can be bound to.
#[derive(Debug, PartialEq, Eq, Hash)]
pub enum Command {
    /// A text that replaces the name, followed by the rest of the line
    Macro { name: String, cmd: String },
    /// A core operation
    Builtin { name: String, cmd: Cmd },
    /// Another name of an existing command
    Alias { name: String, cmd: String },
    /// A comment line of an alias file
    Comment,
    /// Leave the program
    Exit,
    /// List all commands
    List,
    /// List the aliases
    Aliases,
    /// List the macros
    Macros,
}

/// A command with its texts seen as sequences of characters.
pub enum CommandView {
    Macro { name: Seq<char>, cmd: Seq<char> },
    Builtin { name: Seq<char>, cmd: Cmd },
    Alias { name: Seq<char>, cmd: Seq<char> },
    Comment,
    Exit,
    List,
    Aliases,
    Macros,
}

impl View for Command {
    type V = CommandView;

    open spec fn view(&self) -> CommandView {
        match self {
            Command::Macro { name, cmd } => CommandView::Macro { name: name@, cmd: cmd@ },
            Command::Builtin { name, cmd } => CommandView::Builtin { name: name@, cmd: *cmd },
            Command::Alias { name, cmd } => CommandView::Alias { name: name@, cmd: cmd@ },
            Command::Comment => CommandView::Comment,
            Command::Exit => CommandView::Exit,
            Command::List => CommandView::List,
            Command::Aliases => CommandView::Aliases,
            Command::Macros => CommandView::Macros,
        }
    }
}

impl Clone for Command {
    fn clone(&self) -> (r: Self)
        ensures
            r == *self,
    {
        match self {
            Command::Macro { name, cmd } => Command::Macro { name: name.clone(), cmd: cmd.clone() },
            Command::Builtin { name, cmd } => Command::Builtin { name: name.clone(), cmd: *cmd },
            Command::Alias { name, cmd } => Command::Alias { name: name.clone(), cmd: cmd.clone() },
            Command::Comment => Command::Comment,
            Command::Exit => Command::Exit,
            Command::List => Command::List,
            Command::Aliases => Command::Aliases,
            Command::Macros => Command::Macros,
        }
    }
}

/// The kind of a command, as listings show it.
pub open spec fn kind_tag(c: CommandView) -> Seq<char> {
    match c {
        CommandView::Alias { .. } => "alias"@,
        CommandView::Builtin { .. } => "builtin"@,
        CommandView::Macro { .. } => "macro"@,
        _ => "special"@,
    }
}

impl Command {
    /// The kind of the command: `alias`, `builtin`, `macro`, or `special`
    /// for the others.
    pub fn tag(&self) -> (t: &'static str)
        ensures
            t@ == kind_tag(self@),
    {
        match self {
            Command::Alias { .. } => "alias",
            Command::Builtin { .. } => "builtin",
            Command::Macro { .. } => "macro",
            _ => "special",
        }
    }
}

/// Why an operation could not run.
#[derive(Clone, Copy, Debug, PartialEq, Eq, Structural)]
pub enum EngineError {
    /// The operation is not one of the core operations
    InvalidCommand,
    /// The arguments are not dice notation
    ParsingDiceset,
    /// A die cannot be rolled: a regular die without faces, an open die with
    /// fewer than two, or totals beyond an `isize`
    Unrollable,
    /// Only a core operation can be executed
    OnlyBuiltins,
}

/// `r` is a possible result of rolling what the notation read, `ds`, stands for.
pub open spec fn roll_result(ds: Option<Seq<Dice>>, r: Result<Res, EngineError>) -> bool {
    match ds {
        None => r == Err::<Res, EngineError>(EngineError::ParsingDiceset),
        Some(ds) => if set_rollable(ds) {
            r matches Ok(res) && exists|parts: Seq<Seq<usize>>| set_outcome(ds, parts, res)
        } else {
            r == Err::<Res, EngineError>(EngineError::Unrollable)
        },
    }
}

/// `r` is a possible result of operation `c` on the arguments `input`.
pub open spec fn execution(c: Cmd, input: Seq<char>, r: Result<Res, EngineError>) -> bool {
    match c {
        Cmd::Dice => roll_result(regular_roll(input), r),
        Cmd::Open => roll_result(open_roll(input), r),
        Cmd::Invalid => r == Err::<Res, EngineError>(EngineError::InvalidCommand),
    }
}

impl Cmd {
    /// The operation named by a keyword, `Invalid` when there is none.
    pub fn from_keyword(value: &str) -> (c: Cmd)
        ensures
            c == cmd_of(value@),
    {
        let v = String::from_str(value);
        if v == String::from_str("dice") {
            Cmd::Dice
        } else if v == String::from_str("open") {
            Cmd::Open
        } else {
            Cmd::Invalid
        }
    }

    /// Runs the operation on its arguments: parses them with the ordinary or
    /// the open grammar, then rolls.
    pub fn execute(&self, input: &str) -> (r: Result<Res, EngineError>)
        ensures
            execution(*self, input@, r),
    {
        let parsed = match self {
            Cmd::Dice => parse_with_bonus(input),
            Cmd::Open => parse_open_bonus(input),
            Cmd::Invalid => {
                return Err(EngineError::InvalidCommand);
            },
        };
        match parsed {
            Err(_) => Err(EngineError::ParsingDiceset),
            Ok(ds) => {
                if ds.is_rollable() {
                    Ok(ds.roll())
                } else {
                    Err(EngineError::Unrollable)
                }
            },
        }
    }
}

impl Command {
    /// Executes a core operation; other commands cannot be executed.
    pub fn execute(&self, input: &str) -> (r: Result<Res, EngineError>)
        ensures
            match self {
                Command::Builtin { cmd, .. } => execution(*cmd, input@, r),
                _ => r == Err::<Res, EngineError>(EngineError::OnlyBuiltins),
            },
    {
        match self {
            Command::Builtin { cmd, .. } => cmd.execute(input),
            _ => Err(EngineError::OnlyBuiltins),
        }
    }
}

} // verus!
