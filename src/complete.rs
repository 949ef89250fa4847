//! Completion of the word being typed, among the names of the commands.

use vstd::prelude::*;

use crate::command::Command;
use crate::registry::Registry;

verus! {

/// Where the word that ends at `pos` starts: just after the last space before
/// `pos`, or at the start of the line.
pub open spec fn word_start(line: Seq<char>, pos: int) -> int
    decreases pos,
{
    if pos <= 0 {
        0
    } else if line[pos - 1] == ' ' {
        pos
    } else {
        word_start(line, pos - 1)
    }
}

/// The names among the bindings `b` that start with `w`, in order.
pub open spec fn candidates(b: Seq<(String, Command)>, w: Seq<char>) -> Seq<Seq<char>>
    decreases b.len(),
{
    if b.len() == 0 {
        Seq::empty()
    } else {
        let before = candidates(b.drop_last(), w);
        if w.is_prefix_of(b.last().0@) {
            before.push(b.last().0@)
        } else {
            before
        }
    }
}

/// Whether `w` starts `s`.
fn starts_with(s: &Vec<char>, w: &Vec<char>) -> (b: bool)
    ensures
        b == w@.is_prefix_of(s@),
{
    if w.len() > s.len() {
        return false;
    }
    let mut i: usize = 0;
    while i < w.len()
        invariant
            i <= w.len() <= s.len(),
            forall|j: int| 0 <= j < i ==> w@[j] == s@[j],
        decreases w.len() - i,
    {
        if w[i] != s[i] {
            return false;
        }
        i = i + 1;
    }
    true
}

/// Completes the word that ends at character `pos` of `line`: returns where
/// that word starts and the names of `cmds` that begin with it.
pub fn complete(cmds: &Registry, line: &str, pos: usize) -> (r: (usize, Vec<String>))
    requires
        pos <= line@.len(),
    ensures
        r.0 == word_start(line@, pos as int),
        r.1@.map_values(|s: String| s@) == candidates(
            cmds.bindings(),
            line@.subrange(r.0 as int, pos as int),
        ),
{
    let chars = crate::text::chars_of(line);
    let mut start = pos;
    while start > 0 && chars[start - 1] != ' '
        invariant
            start <= pos <= chars.len(),
            chars@ == line@,
            word_start(line@, pos as int) == word_start(line@, start as int),
        decreases start,
    {
        start = start - 1;
    }
    let word = crate::text::chars_of(line.substring_char(start, pos));
    let ghost w = line@.subrange(start as int, pos as int);
    let ghost b = cmds.bindings();
    let mut out: Vec<String> = Vec::new();
    let mut i: usize = 0;
    while i < cmds.len()
        invariant
            i <= b.len(),
            b == cmds.bindings(),
            word@ == w,
            out@.map_values(|s: String| s@) == candidates(b.take(i as int), w),
        decreases b.len() - i,
    {
        let (name, _) = cmds.binding(i);
        assert(b.take(i + 1).drop_last() =~= b.take(i as int));
        let ghost before = out@.map_values(|s: String| s@);
        if starts_with(&crate::text::chars_of(name.as_str()), &word) {
            out.push(name.clone());
            assert(out@.map_values(|s: String| s@) =~= before.push(name@));
        }
        i = i + 1;
    }
    assert(b.take(i as int) =~= b);
    (start, out)
}

} // verus!
