//! The engine: the table of commands a session works with.

use vstd::prelude::*;

use crate::command::{Cmd, Command, CommandView};
use crate::registry::Registry;

verus! {

/// The commands every session starts with.
pub open spec fn builtin_table() -> Map<Seq<char>, CommandView> {
    Map::empty().insert("aliases"@, CommandView::Aliases).insert(
        "dice"@,
        CommandView::Builtin { name: "dice"@, cmd: Cmd::Dice },
    ).insert("exit"@, CommandView::Exit).insert("list"@, CommandView::List).insert(
        "macros"@,
        CommandView::Macros,
    ).insert("open"@, CommandView::Builtin { name: "open"@, cmd: Cmd::Open })
}

/// The table `m` after merging `cmds` in order: each alias and each macro is
/// bound to its name, replacing what was there; other commands are skipped.
pub open spec fn merged(m: Map<Seq<char>, CommandView>, cmds: Seq<CommandView>) -> Map<
    Seq<char>,
    CommandView,
>
    decreases cmds.len(),
{
    if cmds.len() == 0 {
        m
    } else {
        let before = merged(m, cmds.drop_last());
        match cmds.last() {
            CommandView::Macro { name, .. } | CommandView::Alias { name, .. } => before.insert(
                name,
                cmds.last(),
            ),
            _ => before,
        }
    }
}

/// Which bindings a listing shows.
#[derive(Clone, Copy, Debug, PartialEq, Eq, Structural)]
pub enum Selection {
    /// The aliases only
    Aliases,
    /// The macros only
    Macros,
}

/// The line that shows the binding of `name` to `c`, if the selection shows it.
pub open spec fn shown(sel: Selection, name: Seq<char>, c: CommandView) -> Option<Seq<char>> {
    match sel {
        Selection::Aliases => match c {
            CommandView::Alias { cmd, .. } => Some("alias \t"@ + name + " = "@ + cmd),
            _ => None,
        },
        Selection::Macros => match c {
            CommandView::Macro { cmd, .. } => Some("macro \t"@ + name + " = "@ + cmd),
            _ => None,
        },
    }
}

/// The lines a listing shows for the bindings `s`, in order.
pub open spec fn listed(s: Seq<(String, Command)>, sel: Selection) -> Seq<Seq<char>>
    decreases s.len(),
{
    if s.len() == 0 {
        Seq::empty()
    } else {
        let before = listed(s.drop_last(), sel);
        match shown(sel, s.last().0@, s.last().1@) {
            Some(l) => before.push(l),
            None => before,
        }
    }
}

/// Lines joined by line breaks.
pub open spec fn join_lines(lines: Seq<Seq<char>>) -> Seq<char>
    decreases lines.len(),
{
    if lines.len() == 0 {
        Seq::empty()
    } else if lines.len() == 1 {
        lines[0]
    } else {
        join_lines(lines.drop_last()) + "\n"@ + lines.last()
    }
}

/// The line that shows a binding, if the selection shows it.
fn show(sel: Selection, name: &String, c: &Command) -> (r: Option<String>)
    ensures
        match r {
            Some(l) => shown(sel, name@, c@) == Some(l@),
            None => shown(sel, name@, c@) is None,
        },
{
    match sel {
        Selection::Aliases => match c {
            Command::Alias { cmd, .. } => Some(
                String::from_str("alias \t").concat(name.as_str()).concat(" = ").concat(
                    cmd.as_str(),
                ),
            ),
            _ => None,
        },
        Selection::Macros => match c {
            Command::Macro { cmd, .. } => Some(
                String::from_str("macro \t").concat(name.as_str()).concat(" = ").concat(
                    cmd.as_str(),
                ),
            ),
            _ => None,
        },
    }
}

/// Everything a session needs: its table of commands.
pub struct Engine {
    /// All the commands known, by name
    pub cmds: Registry,
}

impl Engine {
    /// A new engine that knows the built-in commands.
    pub fn new() -> (e: Self)
        ensures
            e.cmds@ == builtin_table(),
    {
        Self::builtin_commands()
    }

    /// The built-in commands: the two core operations and the controls.
    pub fn builtin_commands() -> (e: Engine)
        ensures
            e.cmds@ == builtin_table(),
    {
        let mut cmds = Registry::new();
        cmds.insert(String::from_str("aliases"), Command::Aliases);
        cmds.insert(
            String::from_str("dice"),
            Command::Builtin { name: String::from_str("dice"), cmd: Cmd::Dice },
        );
        cmds.insert(String::from_str("exit"), Command::Exit);
        cmds.insert(String::from_str("list"), Command::List);
        cmds.insert(String::from_str("macros"), Command::Macros);
        cmds.insert(
            String::from_str("open"),
            Command::Builtin { name: String::from_str("open"), cmd: Cmd::Open },
        );
        Engine { cmds }
    }

    /// Whether a command of that name exists.
    pub fn exist(&self, name: &str) -> (b: bool)
        ensures
            b == self.cmds@.contains_key(name@),
    {
        self.cmds.contains(name)
    }

    /// Binds `k` to `v`.
    pub fn insert(&mut self, k: String, v: Command) -> (r: &mut Self)
        ensures
            r.cmds@ == old(self).cmds@.insert(k@, v@),
            *final(self) == *final(r),
    {
        self.cmds.insert(k, v);
        self
    }

    /// Merges a list of commands: each alias and each macro is bound to its
    /// name, in order, replacing what was there; other commands are skipped.
    pub fn merge(&mut self, aliases: Vec<Command>) -> (r: &mut Self)
        ensures
            r.cmds@ == merged(old(self).cmds@, aliases@.map_values(|c: Command| c@)),
            *final(self) == *final(r),
    {
        let ghost start = self.cmds@;
        let ghost views = aliases@.map_values(|c: Command| c@);
        let mut i: usize = 0;
        while i < aliases.len()
            invariant
                i <= aliases@.len(),
                views == aliases@.map_values(|c: Command| c@),
                self.cmds@ == merged(start, views.take(i as int)),
            decreases aliases@.len() - i,
        {
            assert(views.take(i + 1).drop_last() =~= views.take(i as int));
            assert(views.take(i + 1).last() == aliases@[i as int]@);
            match &aliases[i] {
                Command::Macro { name, .. } | Command::Alias { name, .. } => {
                    self.cmds.insert(name.clone(), aliases[i].clone());
                },
                _ => {},
            }
            i = i + 1;
        }
        assert(views.take(i as int) =~= views);
        self
    }

    /// The lines of a listing, joined.
    fn render(&self, sel: Selection) -> (r: String)
        ensures
            r@ == join_lines(listed(self.cmds.bindings(), sel)),
    {
        let mut out = String::new();
        let mut first = true;
        let ghost b = self.cmds.bindings();
        let mut i: usize = 0;
        while i < self.cmds.len()
            invariant
                i <= b.len(),
                b == self.cmds.bindings(),
                out@ == join_lines(listed(b.take(i as int), sel)),
                first == (listed(b.take(i as int), sel).len() == 0),
            decreases b.len() - i,
        {
            let (name, c) = self.cmds.binding(i);
            assert(b.take(i + 1).drop_last() =~= b.take(i as int));
            let ghost before = listed(b.take(i as int), sel);
            match show(sel, name, c) {
                Some(l) => {
                    assert(listed(b.take(i + 1), sel) == before.push(l@));
                    assert(before.push(l@).drop_last() =~= before);
                    if !first {
                        out.append("\n");
                    }
                    out.append(l.as_str());
                    assert(first ==> out@ =~= l@);
                    first = false;
                },
                None => {},
            }
            i = i + 1;
        }
        assert(b.take(i as int) =~= b);
        out
    }

    /// Every binding, in order: the names with their commands.
    pub fn list(&self) -> (r: Vec<(String, Command)>)
        ensures
            r@ == self.cmds.bindings(),
    {
        let ghost b = self.cmds.bindings();
        let mut out: Vec<(String, Command)> = Vec::new();
        let mut i: usize = 0;
        while i < self.cmds.len()
            invariant
                i <= b.len(),
                b == self.cmds.bindings(),
                out@ == b.take(i as int),
            decreases b.len() - i,
        {
            let (name, c) = self.cmds.binding(i);
            out.push((name.clone(), c.clone()));
            assert(out@ =~= b.take(i + 1));
            i = i + 1;
        }
        assert(b.take(i as int) =~= b);
        out
    }

    /// Lists the aliases, one per line.
    pub fn aliases(&self) -> (r: String)
        ensures
            r@ == join_lines(listed(self.cmds.bindings(), Selection::Aliases)),
    {
        self.render(Selection::Aliases)
    }

    /// Lists the macros, one per line.
    pub fn macros(&self) -> (r: String)
        ensures
            r@ == join_lines(listed(self.cmds.bindings(), Selection::Macros)),
    {
        self.render(Selection::Macros)
    }
}

} // verus!
