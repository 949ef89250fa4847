//! The table of commands, by name.

use vstd::prelude::*;

use crate::command::{Command, CommandView};

verus! {

/// The map that a list of bindings stands for: each name to its command.
pub open spec fn map_of(s: Seq<(String, Command)>) -> Map<Seq<char>, CommandView>
    decreases s.len(),
{
    if s.len() == 0 {
        Map::empty()
    } else {
        map_of(s.drop_last()).insert(s.last().0@, s.last().1@)
    }
}

/// No name is bound twice.
pub open spec fn names_unique(s: Seq<(String, Command)>) -> bool {
    forall|i: int, j: int| 0 <= i < j < s.len() ==> s[i].0@ != s[j].0@
}

/// The names bound by a list of bindings are the names of its entries.
proof fn lemma_map_of_domain(s: Seq<(String, Command)>, k: Seq<char>)
    ensures
        map_of(s).contains_key(k) <==> exists|i: int| 0 <= i < s.len() && #[trigger] s[i].0@ == k,
    decreases s.len(),
{
    if s.len() > 0 {
        lemma_map_of_domain(s.drop_last(), k);
        if map_of(s.drop_last()).contains_key(k) {
            let i = choose|i: int| 0 <= i < s.drop_last().len() && #[trigger] s.drop_last()[i].0@ == k;
            assert(s[i].0@ == k);
        }
        if exists|i: int| 0 <= i < s.len() && #[trigger] s[i].0@ == k {
            let i = choose|i: int| 0 <= i < s.len() && #[trigger] s[i].0@ == k;
            if i < s.len() - 1 {
                assert(s.drop_last()[i].0@ == k);
            }
        }
    }
}

/// With unique names, the entry at `i` gives the command of its name.
proof fn lemma_map_of_entry(s: Seq<(String, Command)>, i: int)
    requires
        names_unique(s),
        0 <= i < s.len(),
    ensures
        map_of(s).contains_key(s[i].0@),
        map_of(s)[s[i].0@] == s[i].1@,
    decreases s.len(),
{
    if i < s.len() - 1 {
        assert(s.drop_last()[i] == s[i]);
        lemma_map_of_entry(s.drop_last(), i);
    }
}

/// Replacing the command at `i` rebinds its name.
proof fn lemma_map_of_update(s: Seq<(String, Command)>, i: int, e: (String, Command))
    requires
        names_unique(s),
        0 <= i < s.len(),
        e.0@ == s[i].0@,
    ensures
        map_of(s.update(i, e)) == map_of(s).insert(e.0@, e.1@),
    decreases s.len(),
{
    let t = s.update(i, e);
    if i == s.len() - 1 {
        assert(t.drop_last() =~= s.drop_last());
        assert(map_of(t) =~= map_of(s).insert(e.0@, e.1@));
    } else {
        assert(t.drop_last() =~= s.drop_last().update(i, e));
        lemma_map_of_update(s.drop_last(), i, e);
        assert(s.last().0@ != e.0@);
        assert(map_of(t) =~= map_of(s).insert(e.0@, e.1@));
    }
}

/// Commands bound to names. A later binding of a name replaces the earlier one.
pub struct Registry {
    entries: Vec<(String, Command)>,
}

impl View for Registry {
    type V = Map<Seq<char>, CommandView>;

    closed spec fn view(&self) -> Map<Seq<char>, CommandView> {
        map_of(self.entries@)
    }
}

impl Registry {
    #[verifier::type_invariant]
    closed spec fn inv(&self) -> bool {
        names_unique(self.entries@)
    }

    /// The bindings, in the order the names were first bound.
    pub closed spec fn bindings(&self) -> Seq<(String, Command)> {
        self.entries@
    }

    /// The table is what its bindings say, a later binding of a name
    /// replacing an earlier one.
    pub proof fn lemma_view(&self)
        ensures
            self@ == map_of(self.bindings()),
    {
    }

    /// An empty table.
    pub fn new() -> (r: Registry)
        ensures
            r@ == Map::<Seq<char>, CommandView>::empty(),
            r.bindings().len() == 0,
    {
        Registry { entries: Vec::new() }
    }

    /// Where `name` is bound, if it is.
    fn position(&self, name: &str) -> (r: Option<usize>)
        ensures
            match r {
                Some(i) => i < self.bindings().len() && self.bindings()[i as int].0@ == name@,
                None => !self@.contains_key(name@),
            },
    {
        let key = String::from_str(name);
        let mut i: usize = 0;
        while i < self.entries.len()
            invariant
                i <= self.entries@.len(),
                key@ == name@,
                forall|j: int| 0 <= j < i ==> #[trigger] self.entries@[j].0@ != name@,
            decreases self.entries@.len() - i,
        {
            if self.entries[i].0 == key {
                return Some(i);
            }
            i = i + 1;
        }
        proof {
            lemma_map_of_domain(self.entries@, name@);
        }
        None
    }

    /// Whether `name` is bound.
    pub fn contains(&self, name: &str) -> (b: bool)
        ensures
            b == self@.contains_key(name@),
    {
        proof {
            use_type_invariant(self);
        }
        match self.position(name) {
            Some(i) => {
                proof {
                    lemma_map_of_entry(self.entries@, i as int);
                }
                true
            },
            None => false,
        }
    }

    /// The command bound to `name`.
    pub fn get(&self, name: &str) -> (r: Option<&Command>)
        ensures
            match r {
                Some(c) => self@.contains_key(name@) && c@ == self@[name@],
                None => !self@.contains_key(name@),
            },
    {
        proof {
            use_type_invariant(self);
        }
        match self.position(name) {
            Some(i) => {
                proof {
                    lemma_map_of_entry(self.entries@, i as int);
                }
                Some(&self.entries[i].1)
            },
            None => None,
        }
    }

    /// Binds `name` to `cmd`, replacing any earlier binding of the name.
    pub fn insert(&mut self, name: String, cmd: Command)
        ensures
            final(self)@ == old(self)@.insert(name@, cmd@),
    {
        proof {
            use_type_invariant(&*self);
        }
        let at = self.position(name.as_str());
        let ghost before = self.entries@;
        let mut fresh: Vec<(String, Command)> = Vec::new();
        let mut i: usize = 0;
        while i < self.entries.len()
            invariant
                i <= before.len(),
                before == self.entries@,
                at matches Some(p) ==> p < before.len(),
                forall|k: int|
                    0 <= k < i ==> #[trigger] fresh@[k] == if at == Some(k as usize) {
                        (name, cmd)
                    } else {
                        before[k]
                    },
                fresh@.len() == i,
            decreases before.len() - i,
        {
            if at == Some(i) {
                fresh.push((name.clone(), cmd.clone()));
            } else {
                fresh.push((self.entries[i].0.clone(), self.entries[i].1.clone()));
            }
            i = i + 1;
        }
        match at {
            Some(p) => {
                assert(fresh@ =~= before.update(p as int, (name, cmd)));
                proof {
                    lemma_map_of_update(before, p as int, (name, cmd));
                }
            },
            None => {
                assert(fresh@ =~= before);
                proof {
                    lemma_map_of_domain(before, name@);
                }
                fresh.push((name, cmd));
                assert(fresh@.drop_last() =~= before);
            },
        }
        self.entries = fresh;
    }

    /// The number of names bound.
    pub fn len(&self) -> (n: usize)
        ensures
            n == self.bindings().len(),
    {
        self.entries.len()
    }

    /// The binding at position `i`.
    pub fn binding(&self, i: usize) -> (r: (&String, &Command))
        requires
            i < self.bindings().len(),
        ensures
            *r.0 == self.bindings()[i as int].0,
            *r.1 == self.bindings()[i as int].1,
            self@.contains_key(r.0@),
            self@[r.0@] == r.1@,
    {
        proof {
            use_type_invariant(self);
            lemma_map_of_entry(self.entries@, i as int);
        }
        (&self.entries[i].0, &self.entries[i].1)
    }
}

impl Clone for Registry {
    fn clone(&self) -> (r: Self)
        ensures
            r@ == self@,
            r.bindings() == self.bindings(),
    {
        proof {
            use_type_invariant(self);
        }
        let mut entries: Vec<(String, Command)> = Vec::new();
        let mut i: usize = 0;
        while i < self.entries.len()
            invariant
                i <= self.entries@.len(),
                entries@ == self.entries@.take(i as int),
            decreases self.entries@.len() - i,
        {
            let (name, cmd) = (&self.entries[i].0, &self.entries[i].1);
            entries.push((name.clone(), cmd.clone()));
            assert(entries@ =~= self.entries@.take(i + 1));
            i = i + 1;
        }
        assert(entries@ =~= self.entries@);
        Registry { entries }
    }
}

} // verus!
