//! Aliases and macros defined by the user, one per line of a text file:
//!
//! ```text
//! # This is for adding a command
//! doom = "dice 2D6"
//! # These replicate an existing one
//! mouv = move
//! ```
//!
//! A line is `name = value`, where the name is a word of ASCII letters and the
//! value is either such a word or a text between quotes. Lines that start with
//! `#`, `//` or `!` are comments; blank lines and lines that do not read are
//! skipped. A value that names a known command makes an alias, any other value
//! a macro.

use vstd::prelude::*;

use crate::command::{Command, CommandView};
use crate::engine::{merged, Engine};
use crate::text::{blank_run, chars_of, is_letter, skip_blanks};

verus! {

/// White space, as Unicode defines it: the characters that trimming a line
/// removes.
pub open spec fn is_space(c: char) -> bool {
    ('\u{9}' <= c && c <= '\u{d}') || c == ' ' || c == '\u{85}' || c == '\u{a0}' || c
        == '\u{1680}' || ('\u{2000}' <= c && c <= '\u{200a}') || c == '\u{2028}' || c
        == '\u{2029}' || c == '\u{202f}' || c == '\u{205f}' || c == '\u{3000}'
}

/// Whether `c` is white space.
fn space_char(c: char) -> (b: bool)
    ensures
        b == is_space(c),
{
    ('\u{9}' <= c && c <= '\u{d}') || c == ' ' || c == '\u{85}' || c == '\u{a0}' || c
        == '\u{1680}' || ('\u{2000}' <= c && c <= '\u{200a}') || c == '\u{2028}' || c
        == '\u{2029}' || c == '\u{202f}' || c == '\u{205f}' || c == '\u{3000}'
}

/// A line without the spaces around it.
pub open spec fn trimmed(l: Seq<char>) -> Seq<char>
    decreases l.len(),
{
    if l.len() > 0 && is_space(l[0]) {
        trimmed(l.drop_first())
    } else if l.len() > 0 && is_space(l.last()) {
        trimmed(l.drop_last())
    } else {
        l
    }
}

/// Length of the run of ASCII letters that starts at `i`.
pub open spec fn letter_run(s: Seq<char>, i: int) -> int
    decreases s.len() - i,
{
    if 0 <= i < s.len() && is_letter(s[i]) {
        1 + letter_run(s, i + 1)
    } else {
        0
    }
}

/// Length of the run of characters other than a double quote that starts at `i`.
pub open spec fn unquoted_run(s: Seq<char>, i: int) -> int
    decreases s.len() - i,
{
    if 0 <= i < s.len() && s[i] != '"' {
        1 + unquoted_run(s, i + 1)
    } else {
        0
    }
}

/// Length of the run of characters other than a line feed that starts at `i`.
pub open spec fn line_run(s: Seq<char>, i: int) -> int
    decreases s.len() - i,
{
    if 0 <= i < s.len() && s[i] != '\n' {
        1 + line_run(s, i + 1)
    } else {
        0
    }
}

/// A quote mark.
pub open spec fn is_quote(c: char) -> bool {
    c == '"' || c == '\''
}

/// A comment line.
pub open spec fn is_comment(t: Seq<char>) -> bool {
    t.len() > 0 && (t[0] == '#' || t[0] == '!' || (t.len() > 1 && t[0] == '/' && t[1] == '/'))
}

/// The name and the value that a line of an alias file defines, if it defines one.
pub open spec fn definition(line: Seq<char>) -> Option<(Seq<char>, Seq<char>)> {
    let t = trimmed(line);
    let n = letter_run(t, 0);
    let k = n + blank_run(t, n);
    let v = k + 1 + blank_run(t, k + 1);
    if t.len() == 0 || is_comment(t) || n == 0 || !(k < t.len() && t[k] == '=') || v >= t.len() {
        None
    } else if is_quote(t[v]) {
        let q = unquoted_run(t, v + 1);
        if q > 0 && v + 1 + q + 1 == t.len() && is_quote(t[v + 1 + q]) {
            Some((t.take(n), t.subrange(v + 1, v + 1 + q)))
        } else {
            None
        }
    } else {
        let w = letter_run(t, v);
        if w > 0 && v + w == t.len() {
            Some((t.take(n), t.subrange(v, v + w)))
        } else {
            None
        }
    }
}

/// The definitions of a file, from position `i` on, line by line.
pub open spec fn definitions(s: Seq<char>, i: int) -> Seq<(Seq<char>, Seq<char>)>
    decreases s.len() - i,
        when 0 <= i <= s.len()
{
    if i >= s.len() {
        Seq::empty()
    } else {
        let e = i + line_run(s, i);
        proof {
            lemma_line_run_in_bounds(s, i);
        }
        let rest = if e < s.len() {
            definitions(s, e + 1)
        } else {
            Seq::empty()
        };
        match definition(s.subrange(i, e)) {
            Some(d) => seq![d] + rest,
            None => rest,
        }
    }
}

/// A line does not reach past the end of the text.
pub proof fn lemma_line_run_in_bounds(s: Seq<char>, i: int)
    requires
        0 <= i <= s.len(),
    ensures
        0 <= line_run(s, i) <= s.len() - i,
    decreases s.len() - i,
{
    if i < s.len() {
        lemma_line_run_in_bounds(s, i + 1);
    }
}

/// The command a definition makes, given the table it is read against: an
/// alias when the value names a command, a macro otherwise.
pub open spec fn classified(m: Map<Seq<char>, CommandView>, d: (Seq<char>, Seq<char>)) -> CommandView {
    if m.contains_key(d.1) {
        CommandView::Alias { name: d.0, cmd: d.1 }
    } else {
        CommandView::Macro { name: d.0, cmd: d.1 }
    }
}

/// The aliases every session has: `doom`, a macro for `dice 2D6`, and `roll`,
/// an alias of `dice`.
pub open spec fn builtin_alias_views() -> Seq<CommandView> {
    seq![
        CommandView::Macro { name: "doom"@, cmd: "dice 2D6"@ },
        CommandView::Alias { name: "roll"@, cmd: "dice"@ },
    ]
}

/// The aliases every session has.
pub fn builtin_aliases() -> (v: Vec<Command>)
    ensures
        v@.map_values(|c: Command| c@) == builtin_alias_views(),
{
    let mut v: Vec<Command> = Vec::new();
    v.push(Command::Macro { name: String::from_str("doom"), cmd: String::from_str("dice 2D6") });
    v.push(Command::Alias { name: String::from_str("roll"), cmd: String::from_str("dice") });
    assert(v@.map_values(|c: Command| c@) =~= builtin_alias_views());
    v
}

/// The commands that the text of an alias file adds, read against the table `m`.
pub open spec fn file_commands(m: Map<Seq<char>, CommandView>, content: Option<Seq<char>>) -> Seq<
    CommandView,
> {
    match content {
        None => Seq::empty(),
        Some(t) => definitions(t, 0).map_values(|d: (Seq<char>, Seq<char>)| classified(m, d)),
    }
}

/// End of the run of ASCII letters that starts at `i`.
fn skip_letters(s: &Vec<char>, i: usize) -> (j: usize)
    requires
        i <= s.len(),
    ensures
        j == i + letter_run(s@, i as int),
        i <= j <= s.len(),
{
    let mut j = i;
    while j < s.len() && (('a' <= s[j] && s[j] <= 'z') || ('A' <= s[j] && s[j] <= 'Z'))
        invariant
            i <= j <= s.len(),
            letter_run(s@, i as int) == (j - i) + letter_run(s@, j as int),
        decreases s.len() - j,
    {
        j = j + 1;
    }
    j
}

/// End of the run of characters other than a double quote that starts at `i`.
fn skip_unquoted(s: &Vec<char>, i: usize) -> (j: usize)
    requires
        i <= s.len(),
    ensures
        j == i + unquoted_run(s@, i as int),
        i <= j <= s.len(),
{
    let mut j = i;
    while j < s.len() && s[j] != '"'
        invariant
            i <= j <= s.len(),
            unquoted_run(s@, i as int) == (j - i) + unquoted_run(s@, j as int),
        decreases s.len() - j,
    {
        j = j + 1;
    }
    j
}

/// End of the line that starts at `i`.
fn skip_line(s: &Vec<char>, i: usize) -> (j: usize)
    requires
        i <= s.len(),
    ensures
        j == i + line_run(s@, i as int),
        i <= j <= s.len(),
{
    let mut j = i;
    while j < s.len() && s[j] != '\n'
        invariant
            i <= j <= s.len(),
            line_run(s@, i as int) == (j - i) + line_run(s@, j as int),
        decreases s.len() - j,
    {
        j = j + 1;
    }
    j
}

/// The characters `s[lo..hi]`.
fn slice_chars(s: &Vec<char>, lo: usize, hi: usize) -> (r: Vec<char>)
    requires
        lo <= hi <= s.len(),
    ensures
        r@ == s@.subrange(lo as int, hi as int),
{
    let mut r: Vec<char> = Vec::new();
    let mut k = lo;
    while k < hi
        invariant
            lo <= k <= hi <= s.len(),
            r@ == s@.subrange(lo as int, k as int),
        decreases hi - k,
    {
        r.push(s[k]);
        k = k + 1;
        assert(r@ =~= s@.subrange(lo as int, k as int));
    }
    r
}

/// Where the text of `l` starts and ends once the spaces around it are left out.
fn trim_bounds(l: &Vec<char>) -> (r: (usize, usize))
    ensures
        r.0 <= r.1 <= l.len(),
        l@.subrange(r.0 as int, r.1 as int) == trimmed(l@),
{
    let mut a: usize = 0;
    let mut b: usize = l.len();
    assert(l@.subrange(0, l.len() as int) =~= l@);
    while a < b && space_char(l[a])
        invariant
            a <= b == l.len(),
            trimmed(l@.subrange(a as int, b as int)) == trimmed(l@),
        decreases b - a,
    {
        assert(l@.subrange(a as int, b as int).drop_first() =~= l@.subrange(a + 1, b as int));
        a = a + 1;
    }
    while a < b && space_char(l[b - 1])
        invariant
            a <= b <= l.len(),
            trimmed(l@.subrange(a as int, b as int)) == trimmed(l@),
            a < b ==> !is_space(l@[a as int]),
        decreases b - a,
    {
        assert(l@.subrange(a as int, b as int).drop_last() =~= l@.subrange(a as int, b - 1));
        b = b - 1;
    }
    (a, b)
}

/// The text between quotes at the start of `s`: an opening quote, at least
/// one character other than a double quote, and a closing quote.
pub open spec fn quoted_text(s: Seq<char>) -> Option<Seq<char>> {
    let q = unquoted_run(s, 1);
    if s.len() > 0 && is_quote(s[0]) && q > 0 && 1 + q < s.len() && is_quote(s[1 + q]) {
        Some(s.subrange(1, 1 + q))
    } else {
        None
    }
}

/// Where the quotes that open at `v` close, if they do around some text.
fn closing_quote(t: &Vec<char>, v: usize) -> (e: Option<usize>)
    requires
        v < t.len(),
    ensures
        match e {
            Some(e) => e == v + 1 + unquoted_run(t@, v + 1) && unquoted_run(t@, v + 1) > 0 && e
                < t.len() && is_quote(t@[e as int]),
            None => !(unquoted_run(t@, v + 1) > 0 && v + 1 + unquoted_run(t@, v + 1) < t.len()
                && is_quote(t@[v + 1 + unquoted_run(t@, v + 1)])),
        },
{
    let e = skip_unquoted(t, v + 1);
    if e > v + 1 && e < t.len() && (t[e] == '"' || t[e] == '\'') {
        Some(e)
    } else {
        None
    }
}

/// Whether the text `t` is a comment.
fn comment_text(t: &Vec<char>) -> (b: bool)
    ensures
        b == is_comment(t@),
{
    t.len() > 0 && (t[0] == '#' || t[0] == '!' || (t.len() > 1 && t[0] == '/' && t[1] == '/'))
}

/// The text of `line` without the spaces around it.
fn trimmed_chars(line: &str) -> (t: Vec<char>)
    ensures
        t@ == trimmed(line@),
{
    let l = chars_of(line);
    let (a, b) = trim_bounds(&l);
    slice_chars(&l, a, b)
}

/// The text between the quotes that start `input`.
pub fn parse_string(input: &str) -> (r: Option<String>)
    ensures
        match r {
            Some(t) => quoted_text(input@) == Some(t@),
            None => quoted_text(input@) is None,
        },
{
    let s = chars_of(input);
    if s.len() == 0 || !(s[0] == '"' || s[0] == '\'') {
        return None;
    }
    match closing_quote(&s, 0) {
        Some(e) => {
            let t = input.substring_char(1, e);
            Some(String::from_str(t))
        },
        None => None,
    }
}

/// A comment line, introduced by `#`, `//` or `!`.
pub fn parse_comment(input: &str) -> (r: Option<Command>)
    ensures
        r is Some <==> is_comment(trimmed(input@)),
        r matches Some(c) ==> c == Command::Comment,
{
    if comment_text(&trimmed_chars(input)) {
        Some(Command::Comment)
    } else {
        None
    }
}

/// A line `name = value`, read as a macro from the name to the value; whether
/// it is rather an alias is decided against the known commands when the file
/// is merged.
pub fn parse_alias(input: &str) -> (r: Option<Command>)
    ensures
        match definition(input@) {
            Some((name, value)) => r matches Some(c) && c@ == CommandView::Macro {
                name,
                cmd: value,
            },
            None => r is None,
        },
{
    let s = chars_of(input);
    assert(s@.subrange(0, s.len() as int) =~= input@);
    match read_definition(input, &s, 0, s.len()) {
        Some((name, value)) => Some(Command::Macro { name, cmd: value }),
        None => None,
    }
}

/// The definition made by the line `content[lo..hi]`, if it makes one.
fn read_definition(content: &str, s: &Vec<char>, lo: usize, hi: usize) -> (r: Option<(String, String)>)
    requires
        s@ == content@,
        lo <= hi <= s.len(),
    ensures
        match r {
            Some((n, v)) => definition(s@.subrange(lo as int, hi as int)) == Some((n@, v@)),
            None => definition(s@.subrange(lo as int, hi as int)) is None,
        },
{
    let line = slice_chars(s, lo, hi);
    let (a, b) = trim_bounds(&line);
    let t = slice_chars(&line, a, b);
    let base = lo + a;
    assert(t@ == s@.subrange(base as int, base + t.len()));
    if t.len() == 0 || comment_text(&t) {
        return None;
    }
    let n = skip_letters(&t, 0);
    let k = skip_blanks(&t, n);
    if n == 0 || !(k < t.len() && t[k] == '=') {
        return None;
    }
    let v = skip_blanks(&t, k + 1);
    if v >= t.len() {
        return None;
    }
    let name = String::from_str(content.substring_char(base, base + n));
    assert(content@.subrange(base as int, base + n) =~= t@.take(n as int));
    if t[v] == '"' || t[v] == '\'' {
        match closing_quote(&t, v) {
            Some(e) if e + 1 == t.len() => {
                let value = String::from_str(content.substring_char(base + v + 1, base + e));
                assert(content@.subrange(base + v + 1, base + e) =~= t@.subrange(
                    v + 1,
                    e as int,
                ));
                Some((name, value))
            },
            _ => None,
        }
    } else {
        let e = skip_letters(&t, v);
        if e > v && e == t.len() {
            let value = String::from_str(content.substring_char(base + v, base + e));
            assert(content@.subrange(base + v, base + e) =~= t@.subrange(v as int, e as int));
            Some((name, value))
        } else {
            None
        }
    }
}

/// The definitions of an alias file, in order.
pub fn read_definitions(content: &str) -> (r: Vec<(String, String)>)
    ensures
        r@.map_values(|d: (String, String)| (d.0@, d.1@)) == definitions(content@, 0),
{
    let s = chars_of(content);
    let mut out: Vec<(String, String)> = Vec::new();
    let mut i: usize = 0;
    while i < s.len()
        invariant
            s@ == content@,
            i <= s.len(),
            definitions(content@, 0) == out@.map_values(|d: (String, String)| (d.0@, d.1@))
                + definitions(content@, i as int),
        decreases s.len() - i,
    {
        let e = skip_line(&s, i);
        let ghost before = out@.map_values(|d: (String, String)| (d.0@, d.1@));
        match read_definition(content, &s, i, e) {
            Some(d) => {
                out.push(d);
                assert(out@.map_values(|d: (String, String)| (d.0@, d.1@)) =~= before + seq![
                    (d.0@, d.1@),
                ]);
            },
            None => {},
        }
        if e >= s.len() {
            assert(definitions(content@, s.len() as int) =~= Seq::empty());
            i = s.len();
        } else {
            i = e + 1;
        }
    }
    assert(definitions(content@, i as int) =~= Seq::empty());
    out
}

impl Engine {
    /// Adds the built-in aliases, then the aliases and macros that the text of
    /// an alias file defines, if one is given. A value that names a command
    /// known before this call makes an alias, any other value a macro.
    pub fn with(&mut self, content: Option<&str>) -> (r: &mut Self)
        ensures
            r.cmds@ == merged(
                old(self).cmds@,
                builtin_alias_views() + file_commands(
                    old(self).cmds@,
                    match content {
                        Some(t) => Some(t@),
                        None => None,
                    },
                ),
            ),
            *final(self) == *final(r),
    {
        let mut list = builtin_aliases();
        let ghost start = self.cmds@;
        let ghost added: Seq<CommandView> = Seq::empty();
        match content {
            Some(text) => {
                let defs = read_definitions(text);
                let ghost dv = defs@.map_values(|d: (String, String)| (d.0@, d.1@));
                let mut i: usize = 0;
                while i < defs.len()
                    invariant
                        i <= defs@.len(),
                        self.cmds@ == start,
                        dv == defs@.map_values(|d: (String, String)| (d.0@, d.1@)),
                        list@.map_values(|c: Command| c@) == builtin_alias_views()
                            + dv.take(i as int).map_values(
                            |d: (Seq<char>, Seq<char>)| classified(start, d),
                        ),
                    decreases defs@.len() - i,
                {
                    let (name, value) = (&defs[i].0, &defs[i].1);
                    let ghost before = list@.map_values(|c: Command| c@);
                    let cmd = if self.exist(value.as_str()) {
                        Command::Alias { name: name.clone(), cmd: value.clone() }
                    } else {
                        Command::Macro { name: name.clone(), cmd: value.clone() }
                    };
                    list.push(cmd);
                    assert(dv.take(i + 1).map_values(
                        |d: (Seq<char>, Seq<char>)| classified(start, d),
                    ) =~= dv.take(i as int).map_values(
                        |d: (Seq<char>, Seq<char>)| classified(start, d),
                    ).push(classified(start, dv[i as int])));
                    assert(list@.map_values(|c: Command| c@) =~= before.push(
                        classified(start, dv[i as int]),
                    ));
                    i = i + 1;
                }
                assert(dv.take(i as int) =~= dv);
                assert(file_commands(start, Some(text@)) =~= dv.map_values(
                    |d: (Seq<char>, Seq<char>)| classified(start, d),
                ));
            },
            None => {
                assert(list@.map_values(|c: Command| c@) =~= builtin_alias_views() + Seq::empty());
            },
        }
        self.merge(list)
    }
}

} // verus!
