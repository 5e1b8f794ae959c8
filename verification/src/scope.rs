//! Lexical scopes: one frame of name-to-value bindings per block, viewed
//! as a mathematical map from names to values.

use vstd::prelude::*;

use crate::token::str_eq;
use crate::value::{Value, ValueKindV, ValueV};

verus! {

/// One layer of the lexical scope stack: the bindings of one block.
pub struct Scope {
    /// The variables in context, each name bound once.
    pub variables: Vec<(String, Value)>,
}

/// The bindings of an entry list, later entries winning.
pub open spec fn entries_map(s: Seq<(String, Value)>) -> Map<Seq<char>, ValueV>
    decreases s.len(),
{
    if s.len() == 0 {
        Map::empty()
    } else {
        entries_map(s.drop_last()).insert(s.last().0@, s.last().1@)
    }
}

impl View for Scope {
    type V = Map<Seq<char>, ValueV>;

    open spec fn view(&self) -> Map<Seq<char>, ValueV> {
        entries_map(self.variables@)
    }
}

/// No name is bound twice within the entries.
pub open spec fn entries_unique(s: Seq<(String, Value)>) -> bool {
    forall|i: int, j: int| 0 <= i < j < s.len() ==> s[i].0@ != s[j].0@
}

/// What an entry list's map holds: exactly the listed names, each at its
/// listed value.
pub proof fn lemma_entries_map(s: Seq<(String, Value)>)
    requires
        entries_unique(s),
    ensures
        forall|k: Seq<char>|
            entries_map(s).dom().contains(k) <==> exists|i: int|
                0 <= i < s.len() && s[i].0@ == k,
        forall|i: int|
            0 <= i < s.len() ==> entries_map(s).dom().contains(#[trigger] s[i].0@)
                && entries_map(s)[s[i].0@] == s[i].1@,
    decreases s.len(),
{
    if s.len() > 0 {
        assert(entries_unique(s.drop_last()));
        lemma_entries_map(s.drop_last());
        assert forall|i: int| 0 <= i < s.len() implies entries_map(s).dom().contains(
            #[trigger] s[i].0@,
        ) && entries_map(s)[s[i].0@] == s[i].1@ by {
            if i < s.len() - 1 {
                assert(s.drop_last()[i] == s[i]);
                assert(s[i].0@ != s.last().0@);
            }
        }
        assert forall|k: Seq<char>| entries_map(s).dom().contains(k) implies exists|i: int|
            0 <= i < s.len() && s[i].0@ == k by {
            if k == s.last().0@ {
                assert(s[s.len() - 1].0@ == k);
            } else {
                assert(entries_map(s.drop_last()).dom().contains(k));
                let i = choose|i: int| 0 <= i < s.drop_last().len() && s.drop_last()[i].0@ == k;
                assert(s.drop_last()[i] == s[i]);
                assert(s[i].0@ == k);
            }
        }
    }
}

impl Scope {
    /// The scope's names are each bound once.
    pub open spec fn wf(&self) -> bool {
        entries_unique(self.variables@)
    }

    /// Creates a new, empty scope.
    pub fn new() -> (r: Scope)
        ensures
            r@ == Map::<Seq<char>, ValueV>::empty(),
            r.wf(),
    {
        Scope { variables: Vec::new() }
    }

    /// The value bound to a name in this scope, if any.
    pub fn get(&self, name: &String) -> (r: Option<&Value>)
        requires
            self.wf(),
        ensures
            match r {
                Some(v) => self@.dom().contains(name@) && v@ == self@[name@],
                None => !self@.dom().contains(name@),
            },
    {
        proof {
            lemma_entries_map(self.variables@);
        }
        let n = self.variables.len();
        let mut i: usize = 0;
        while i < n
            invariant
                n == self.variables@.len(),
                i <= n,
                self.wf(),
                forall|j: int| 0 <= j < i ==> self.variables@[j].0@ != name@,
            decreases n - i,
        {
            if str_eq(self.variables[i].0.as_str(), name.as_str()) {
                proof {
                    lemma_entries_map(self.variables@);
                }
                return Some(&self.variables[i].1);
            }
            i += 1;
        }
        proof {
            lemma_entries_map(self.variables@);
            if self@.dom().contains(name@) {
                let j = choose|j: int|
                    0 <= j < self.variables@.len() && self.variables@[j].0@ == name@;
                assert(false);
            }
        }
        None
    }

    /// Bind a name to a value, shadowing any previous binding of the
    /// same name in this scope.
    pub fn insert(&mut self, name: String, value: Value)
        requires
            old(self).wf(),
        ensures
            final(self).wf(),
            final(self)@ == old(self)@.insert(name@, value@),
    {
        proof {
            lemma_entries_map(self.variables@);
        }
        let ghost s0 = self.variables@;
        let n = self.variables.len();
        let mut i: usize = 0;
        while i < n
            invariant
                n == self.variables@.len(),
                i <= n,
                self.variables@ == s0,
                s0 == old(self).variables@,
                entries_unique(s0),
                forall|j: int| 0 <= j < i ==> s0[j].0@ != name@,
            decreases n - i,
        {
            if str_eq(self.variables[i].0.as_str(), name.as_str()) {
                self.variables.set(i, (name, value));
                proof {
                    lemma_set_entry(s0, i as int, self.variables@, name@);
                    assert(self.variables@[i as int].1@ == value@);
                    assert(entries_map(self.variables@) =~= entries_map(s0).insert(
                        name@,
                        value@,
                    ));
                }
                return ;
            }
            i += 1;
        }
        self.variables.push((name, value));
        proof {
            assert(self.variables@.drop_last() =~= s0);
        }
    }
}

/// Replacing the entry that holds a name updates the map at that name
/// alone.
proof fn lemma_set_entry(s0: Seq<(String, Value)>, i: int, s1: Seq<(String, Value)>, k: Seq<char>)
    requires
        entries_unique(s0),
        0 <= i < s0.len(),
        s0[i].0@ == k,
        s1.len() == s0.len(),
        s1[i].0@ == k,
        forall|j: int| 0 <= j < s0.len() && j != i ==> s1[j] == s0[j],
    ensures
        entries_unique(s1),
        entries_map(s1) =~= entries_map(s0).insert(k, s1[i].1@),
{
    assert forall|a: int, b: int| 0 <= a < b < s1.len() implies s1[a].0@ != s1[b].0@ by {
        if a == i {
            assert(s0[b].0@ == s1[b].0@);
        } else if b == i {
            assert(s0[a].0@ == s1[a].0@);
        } else {
            assert(s0[a].0@ != s0[b].0@);
        }
    }
    lemma_entries_map(s0);
    lemma_entries_map(s1);
    assert forall|x: Seq<char>| entries_map(s1).dom().contains(x) implies entries_map(
        s0,
    ).insert(k, s1[i].1@).dom().contains(x) by {
        let j = choose|j: int| 0 <= j < s1.len() && s1[j].0@ == x;
        if j != i {
            assert(s0[j].0@ == x);
        }
    }
    assert forall|x: Seq<char>| entries_map(s0).insert(k, s1[i].1@).dom().contains(x) implies entries_map(
        s1,
    ).dom().contains(x) by {
        if x == k {
            assert(s1[i].0@ == x);
        } else {
            let j = choose|j: int| 0 <= j < s0.len() && s0[j].0@ == x;
            assert(s1[j].0@ == x);
        }
    }
    assert forall|x: Seq<char>| entries_map(s1).dom().contains(x) implies entries_map(s1)[x]
        == entries_map(s0).insert(k, s1[i].1@)[x] by {
        let j = choose|j: int| 0 <= j < s1.len() && s1[j].0@ == x;
        assert(entries_map(s1)[x] == s1[j].1@);
        if x == k {
            assert(j == i) by {
                if j != i {
                    assert(s1[i].0@ == k);
                }
            }
        } else {
            assert(j != i);
            assert(s0[j].0@ == x);
            assert(entries_map(s0)[x] == s0[j].1@);
        }
    }
}

} // verus!
