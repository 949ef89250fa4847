//! The resolver: turns a typed line into an action, expanding aliases and
//! macros on the way.
//!
//! The first word of the line (its leading run of ASCII letters and digits)
//! names a command; the rest of the line is kept as its arguments. An alias or
//! a macro is replaced by its text followed by those arguments, and the result
//! is resolved again, until a core operation or a control command is reached.
//! A name met twice in one chain is a cycle; a chain of `MAX_RECUR` expansions
//! is too deep.

use vstd::prelude::*;

use crate::command::{Command, CommandView};
use crate::registry::Registry;
use crate::text::{alnum_run, chars_of, is_alnum, skip_alnum};

verus! {

/// The number of expansions at which resolution gives up.
pub const MAX_RECUR: usize = 5;

/// Why a line could not be resolved.
#[derive(Clone, Copy, Debug, PartialEq, Eq, Structural)]
pub enum CompilerError {
    /// The first word names no command
    UnknownCommand,
    /// Too many aliases or macros in a row
    MaxRecursionReached,
    /// A name came back in its own expansion
    CycleDetected,
    /// The chain reached a command that is neither an operation nor a control
    InvalidBuiltin,
}

/// What a line resolves to.
#[derive(Debug, PartialEq)]
pub enum Action {
    /// List the aliases
    Aliases,
    /// The line could not be resolved
    Error(CompilerError),
    /// Run a core operation on the rest of the line
    Execute(Command, String),
    /// Leave
    Exit,
    /// List all commands
    List,
    /// List the macros
    Macros,
}

/// The first word of a line.
pub open spec fn keyword(line: Seq<char>) -> Seq<char> {
    line.take(alnum_run(line, 0))
}

/// What follows the first word of a line, separators included.
pub open spec fn arguments(line: Seq<char>) -> Seq<char> {
    line.skip(alnum_run(line, 0))
}

/// Resolution of `line` against the table `reg`, with `left` expansions
/// still allowed and the names `seen` already expanded in this chain: the
/// arguments and the command reached, or why there is none.
pub open spec fn resolve(
    reg: Map<Seq<char>, CommandView>,
    line: Seq<char>,
    left: nat,
    seen: Seq<Seq<char>>,
) -> Result<(Seq<char>, CommandView), CompilerError>
    decreases left,
{
    let name = keyword(line);
    let args = arguments(line);
    if !reg.contains_key(name) {
        Err(CompilerError::UnknownCommand)
    } else if seen.contains(name) {
        Err(CompilerError::CycleDetected)
    } else {
        match reg[name] {
            CommandView::Builtin { .. }
            | CommandView::Exit
            | CommandView::List
            | CommandView::Aliases
            | CommandView::Macros => Ok((args, reg[name])),
            CommandView::Alias { cmd, .. } | CommandView::Macro { cmd, .. } => if left <= 1 {
                Err(CompilerError::MaxRecursionReached)
            } else {
                resolve(reg, cmd + args, (left - 1) as nat, seen.push(name))
            },
            CommandView::Comment => Err(CompilerError::InvalidBuiltin),
        }
    }
}

/// Resolution of a whole line, from the full allowance and no name seen.
pub open spec fn resolution(reg: Map<Seq<char>, CommandView>, line: Seq<char>) -> Result<
    (Seq<char>, CommandView),
    CompilerError,
> {
    resolve(reg, line, MAX_RECUR as nat, Seq::empty())
}

/// `a` is the action for `line` under the table `reg`.
pub open spec fn compiled(reg: Map<Seq<char>, CommandView>, line: Seq<char>, a: Action) -> bool {
    match resolution(reg, line) {
        Err(e) => a == Action::Error(e),
        Ok((args, c)) => match c {
            CommandView::Exit => a == Action::Exit,
            CommandView::List => a == Action::List,
            CommandView::Aliases => a == Action::Aliases,
            CommandView::Macros => a == Action::Macros,
            CommandView::Builtin { .. } => a matches Action::Execute(cmd, rest) && cmd@ == c
                && rest@ == args,
            _ => a == Action::Error(CompilerError::InvalidBuiltin),
        },
    }
}

/// A non-empty word of ASCII letters and digits.
pub open spec fn is_word(w: Seq<char>) -> bool {
    w.len() > 0 && forall|i: int| 0 <= i < w.len() ==> is_alnum(#[trigger] w[i])
}

/// Command `c` is an alias or a macro whose text is `t`.
pub open spec fn expands_to(c: CommandView, t: Seq<char>) -> bool {
    match c {
        CommandView::Alias { cmd, .. } | CommandView::Macro { cmd, .. } => cmd == t,
        _ => false,
    }
}

/// A chain of expansions under `reg`: each name but the last is an alias or a
/// macro whose text is exactly the next name, and the last name is a core
/// operation. The names are distinct words.
pub open spec fn expansion_chain(reg: Map<Seq<char>, CommandView>, names: Seq<Seq<char>>) -> bool {
    &&& names.len() >= 1
    &&& forall|k: int| 0 <= k < names.len() ==> is_word(#[trigger] names[k])
    &&& forall|i: int, j: int| 0 <= i < j < names.len() ==> names[i] != names[j]
    &&& forall|k: int| 0 <= k < names.len() ==> reg.contains_key(#[trigger] names[k])
    &&& forall|k: int| 0 <= k < names.len() - 1 ==> expands_to(reg[#[trigger] names[k]], names[k + 1])
    &&& reg[names.last()] is Builtin
}

/// A word is its own first word, with nothing after it.
proof fn lemma_word_keyword(w: Seq<char>)
    requires
        is_word(w),
    ensures
        keyword(w) == w,
        arguments(w) == Seq::<char>::empty(),
{
    assert forall|i: int| 0 <= i <= w.len() implies #[trigger] alnum_run(w, i) == w.len() - i by {
        lemma_word_run(w, i);
    }
    assert(w.take(w.len() as int) =~= w);
    assert(w.skip(w.len() as int) =~= Seq::<char>::empty());
}

proof fn lemma_word_run(w: Seq<char>, i: int)
    requires
        is_word(w),
        0 <= i <= w.len(),
    ensures
        alnum_run(w, i) == w.len() - i,
    decreases w.len() - i,
{
    if i < w.len() {
        lemma_word_run(w, i + 1);
    }
}

/// Resolution from the name at position `k` of a chain, with `left`
/// expansions allowed and the names before it seen: it fails for depth when
/// at least `left` expansions remain, else it reaches the last name.
proof fn lemma_chain_from(reg: Map<Seq<char>, CommandView>, names: Seq<Seq<char>>, k: int, left: nat)
    requires
        expansion_chain(reg, names),
        0 <= k < names.len(),
        left >= 1,
    ensures
        resolve(reg, names[k], left, names.take(k)) == if names.len() - 1 - k >= left {
            Err::<(Seq<char>, CommandView), CompilerError>(CompilerError::MaxRecursionReached)
        } else {
            Ok((Seq::<char>::empty(), reg[names.last()]))
        },
    decreases names.len() - k,
{
    let name = names[k];
    lemma_word_keyword(name);
    assert(reg.contains_key(name));
    assert(!names.take(k).contains(name)) by {
        if names.take(k).contains(name) {
            let j = choose|j: int| 0 <= j < names.take(k).len() && names.take(k)[j] == name;
            assert(names[j] == names[k]);
        }
    }
    if k < names.len() - 1 {
        assert(expands_to(reg[name], names[k + 1]));
        if left > 1 {
            lemma_chain_from(reg, names, k + 1, (left - 1) as nat);
            assert(names.take(k).push(name) =~= names.take(k + 1));
            assert(names[k + 1] + Seq::<char>::empty() =~= names[k + 1]);
        }
    }
}

/// A chain of `MAX_RECUR` or more expansions fails as too deep; a shorter
/// chain resolves to the core operation at its end, with no arguments.
pub proof fn lemma_expansion_depth(reg: Map<Seq<char>, CommandView>, names: Seq<Seq<char>>)
    requires
        expansion_chain(reg, names),
    ensures
        names.len() - 1 >= MAX_RECUR ==> resolution(reg, names[0]) == Err::<
            (Seq<char>, CommandView),
            CompilerError,
        >(CompilerError::MaxRecursionReached),
        names.len() - 1 < MAX_RECUR ==> resolution(reg, names[0]) == Ok::<
            (Seq<char>, CommandView),
            CompilerError,
        >((Seq::<char>::empty(), reg[names.last()])),
{
    lemma_chain_from(reg, names, 0, MAX_RECUR as nat);
    assert(names.take(0) =~= Seq::<Seq<char>>::empty());
}

/// A chain of expansions under `reg` that comes back to a name: each name but
/// the last is an alias or a macro whose text is exactly the next name, the
/// names before the last are distinct words, and the last is one of them.
pub open spec fn returning_chain(reg: Map<Seq<char>, CommandView>, names: Seq<Seq<char>>) -> bool {
    &&& names.len() >= 2
    &&& forall|k: int| 0 <= k < names.len() ==> is_word(#[trigger] names[k])
    &&& forall|i: int, j: int| 0 <= i < j < names.len() - 1 ==> names[i] != names[j]
    &&& forall|k: int| 0 <= k < names.len() - 1 ==> reg.contains_key(#[trigger] names[k])
    &&& forall|k: int| 0 <= k < names.len() - 1 ==> expands_to(reg[#[trigger] names[k]], names[k + 1])
    &&& exists|i: int| 0 <= i < names.len() - 1 && names[i] == names.last()
}

/// Resolution from position `k` of a returning chain, with more expansions
/// allowed than remain before the return: the return is reported as a cycle.
proof fn lemma_cycle_from(reg: Map<Seq<char>, CommandView>, names: Seq<Seq<char>>, k: int, left: nat)
    requires
        returning_chain(reg, names),
        0 <= k < names.len(),
        names.len() - 1 - k < left,
    ensures
        resolve(reg, names[k], left, names.take(k)) == Err::<(Seq<char>, CommandView), CompilerError>(
            CompilerError::CycleDetected,
        ),
    decreases names.len() - k,
{
    let name = names[k];
    lemma_word_keyword(name);
    if k == names.len() - 1 {
        let i = choose|i: int| 0 <= i < names.len() - 1 && names[i] == names.last();
        assert(reg.contains_key(names[i]));
        assert(names.take(k)[i] == name);
    } else {
        assert(reg.contains_key(name));
        assert(!names.take(k).contains(name)) by {
            if names.take(k).contains(name) {
                let j = choose|j: int| 0 <= j < names.take(k).len() && names.take(k)[j] == name;
                assert(names[j] == names[k]);
            }
        }
        assert(expands_to(reg[name], names[k + 1]));
        lemma_cycle_from(reg, names, k + 1, (left - 1) as nat);
        assert(names.take(k).push(name) =~= names.take(k + 1));
        assert(names[k + 1] + Seq::<char>::empty() =~= names[k + 1]);
    }
}

/// A chain of fewer than `MAX_RECUR` expansions that comes back to a name it
/// already expanded is reported as a cycle, not as too deep.
pub proof fn lemma_cycle_detected(reg: Map<Seq<char>, CommandView>, names: Seq<Seq<char>>)
    requires
        returning_chain(reg, names),
        names.len() - 1 < MAX_RECUR,
    ensures
        resolution(reg, names[0]) == Err::<(Seq<char>, CommandView), CompilerError>(
            CompilerError::CycleDetected,
        ),
{
    lemma_cycle_from(reg, names, 0, MAX_RECUR as nat);
    assert(names.take(0) =~= Seq::<Seq<char>>::empty());
}

/// Splits a line into its first word and the rest.
pub fn split_keyword(line: &str) -> (r: (String, String))
    ensures
        r.0@ == keyword(line@),
        r.1@ == arguments(line@),
{
    let chars = chars_of(line);
    let n = skip_alnum(&chars, 0);
    let name = line.substring_char(0, n);
    let args = line.substring_char(n, chars.len());
    assert(line@.subrange(n as int, line@.len() as int) =~= arguments(line@));
    (String::from_str(name), String::from_str(args))
}

/// Whether `name` is among `seen`.
fn was_seen(seen: &Vec<String>, name: &String) -> (b: bool)
    ensures
        b == seen@.map_values(|s: String| s@).contains(name@),
{
    let ghost names = seen@.map_values(|s: String| s@);
    let mut i: usize = 0;
    while i < seen.len()
        invariant
            i <= seen@.len(),
            names == seen@.map_values(|s: String| s@),
            forall|j: int| 0 <= j < i ==> #[trigger] names[j] != name@,
        decreases seen@.len() - i,
    {
        if seen[i] == *name {
            assert(names[i as int] == name@);
            return true;
        }
        i = i + 1;
    }
    false
}

/// Resolves lines against a table of commands.
pub struct Compiler {
    /// All the commands known
    cmds: Registry,
}

impl View for Compiler {
    type V = Map<Seq<char>, CommandView>;

    closed spec fn view(&self) -> Map<Seq<char>, CommandView> {
        self.cmds@
    }
}

impl Compiler {
    /// A compiler for the given commands.
    pub fn new(cmds: &Registry) -> (r: Self)
        ensures
            r@ == cmds@,
    {
        Compiler { cmds: cmds.clone() }
    }

    /// Resolves a line into an action.
    pub fn compile(&self, input: &str) -> (a: Action)
        ensures
            compiled(self@, input@, a),
    {
        match self.recurse(input) {
            Err(e) => Action::Error(e),
            Ok((args, cmd)) => match cmd {
                Command::Exit => Action::Exit,
                Command::List => Action::List,
                Command::Aliases => Action::Aliases,
                Command::Macros => Action::Macros,
                Command::Builtin { .. } => Action::Execute(cmd, args),
                _ => Action::Error(CompilerError::InvalidBuiltin),
            },
        }
    }

    /// Reads the first word of a line and finds the command it names;
    /// returns the rest of the line and that command.
    pub fn parse(&self, input: &str) -> (r: Result<(String, Command), CompilerError>)
        ensures
            match r {
                Ok((args, cmd)) => self@.contains_key(keyword(input@)) && cmd@ == self@[keyword(
                    input@,
                )] && args@ == arguments(input@),
                Err(e) => !self@.contains_key(keyword(input@)) && e
                    == CompilerError::UnknownCommand,
            },
    {
        let (name, args) = split_keyword(input);
        match self.cmds.get(name.as_str()) {
            Some(cmd) => Ok((args, cmd.clone())),
            None => Err(CompilerError::UnknownCommand),
        }
    }

    /// Expands aliases and macros until a core operation or a control command
    /// is reached; returns the arguments left and that command.
    pub fn recurse(&self, input: &str) -> (r: Result<(String, Command), CompilerError>)
        ensures
            match r {
                Ok((args, cmd)) => resolution(self@, input@) == Ok::<
                    (Seq<char>, CommandView),
                    CompilerError,
                >((args@, cmd@)),
                Err(e) => resolution(self@, input@) == Err::<
                    (Seq<char>, CommandView),
                    CompilerError,
                >(e),
            },
    {
        let mut line = String::from_str(input);
        let mut left: usize = MAX_RECUR;
        let mut seen: Vec<String> = Vec::new();
        assert(seen@.map_values(|s: String| s@) =~= Seq::<Seq<char>>::empty());
        loop
            invariant
                1 <= left <= MAX_RECUR,
                resolution(self@, input@) == resolve(
                    self@,
                    line@,
                    left as nat,
                    seen@.map_values(|s: String| s@),
                ),
            decreases left,
        {
            let name = split_keyword(line.as_str()).0;
            let (args, cmd) = match self.parse(line.as_str()) {
                Ok(found) => found,
                Err(e) => {
                    return Err(e);
                },
            };
            if was_seen(&seen, &name) {
                return Err(CompilerError::CycleDetected);
            }
            match cmd {
                Command::Builtin { .. }
                | Command::Exit
                | Command::List
                | Command::Aliases
                | Command::Macros => {
                    return Ok((args, cmd));
                },
                Command::Alias { cmd: text, .. } | Command::Macro { cmd: text, .. } => {
                    if left <= 1 {
                        return Err(CompilerError::MaxRecursionReached);
                    }
                    let next = text.concat(args.as_str());
                    let ghost before = seen@;
                    seen.push(name);
                    assert(seen@.map_values(|s: String| s@) =~= before.map_values(
                        |s: String| s@,
                    ).push(keyword(line@)));
                    left = left - 1;
                    line = next;
                },
                Command::Comment => {
                    return Err(CompilerError::InvalidBuiltin);
                },
            }
        }
    }
}

} // verus!
