//! Name-keyed tables. Every environment and the registry key their entries
//! by a name string; the table is a vector of pairs with unique keys, whose
//! specification view is a `vstd` map from character sequences to values.

use vstd::prelude::*;
use crate::data::Function;
use crate::scope::{pub_map, Binding};

verus! {

/// A binding table with the flags dropped: every name mapped to its
/// function.
pub open spec fn all_funcs(m: Map<Seq<char>, Binding>) -> Map<Seq<char>, Function> {
    Map::new(|k: Seq<char>| m.contains_key(k), |k: Seq<char>| m[k].function)
}

/// The map described by an association sequence, later entries winning.
pub open spec fn entries_map<V>(s: Seq<(String, V)>) -> Map<Seq<char>, V>
    decreases s.len(),
{
    if s.len() == 0 {
        Map::empty()
    } else {
        entries_map(s.drop_last()).insert(s.last().0@, s.last().1)
    }
}

/// No two entries share a key, so the vector and its map view correspond
/// one entry to one key.
pub open spec fn keys_unique<V>(s: Seq<(String, V)>) -> bool {
    forall|i: int, j: int| 0 <= i < j < s.len() ==> s[i].0@ != s[j].0@
}

/// A key is in the map exactly when some entry carries it.
proof fn lemma_entries_map_domain<V>(s: Seq<(String, V)>, k: Seq<char>)
    ensures
        entries_map(s).contains_key(k) <==> exists|i: int| 0 <= i < s.len() && s[i].0@ == k,
    decreases s.len(),
{
    if s.len() > 0 {
        lemma_entries_map_domain(s.drop_last(), k);
        if entries_map(s).contains_key(k) && s.last().0@ != k {
            let i = choose|i: int| 0 <= i < s.drop_last().len() && s.drop_last()[i].0@ == k;
            assert(s[i].0@ == k);
        }
        if exists|i: int| 0 <= i < s.len() && s[i].0@ == k {
            let i = choose|i: int| 0 <= i < s.len() && s[i].0@ == k;
            if i < s.len() - 1 {
                assert(s.drop_last()[i].0@ == k);
            }
        }
    }
}

/// With unique keys, the entry that carries a key gives the map's value.
proof fn lemma_entries_map_index<V>(s: Seq<(String, V)>, i: int)
    requires
        keys_unique(s),
        0 <= i < s.len(),
    ensures
        entries_map(s).contains_key(s[i].0@),
        entries_map(s)[s[i].0@] == s[i].1,
    decreases s.len(),
{
    if i < s.len() - 1 {
        lemma_entries_map_index(s.drop_last(), i);
        assert(s.drop_last()[i] == s[i]);
        assert(s.last().0@ != s[i].0@);
    }
}

/// Removing the entry that carries a key removes that key from the map.
proof fn lemma_entries_map_remove<V>(s: Seq<(String, V)>, i: int)
    requires
        keys_unique(s),
        0 <= i < s.len(),
    ensures
        entries_map(s.remove(i)) == entries_map(s).remove(s[i].0@),
        keys_unique(s.remove(i)),
    decreases s.len(),
{
    let k = s[i].0@;
    if i == s.len() - 1 {
        assert(s.remove(i) =~= s.drop_last());
        lemma_entries_map_domain(s.drop_last(), k);
        assert(forall|j: int| 0 <= j < s.drop_last().len() ==> s.drop_last()[j].0@ != k);
        assert(entries_map(s.drop_last()) =~= entries_map(s).remove(k));
    } else {
        lemma_entries_map_remove(s.drop_last(), i);
        assert(s.remove(i).drop_last() =~= s.drop_last().remove(i));
        assert(s.remove(i).last() == s.last());
        assert(entries_map(s.remove(i)) =~= entries_map(s.drop_last()).remove(k).insert(
            s.last().0@,
            s.last().1,
        ));
        assert(s.last().0@ != k);
        assert(entries_map(s.remove(i)) =~= entries_map(s).remove(k));
    }
}

/// Appending an entry inserts its key into the map.
proof fn lemma_entries_map_push<V>(s: Seq<(String, V)>, e: (String, V))
    ensures
        entries_map(s.push(e)) == entries_map(s).insert(e.0@, e.1),
{
    assert(s.push(e).drop_last() =~= s);
    assert(s.push(e).last() == e);
}

/// Sequences with the same keys and values entry by entry describe the
/// same map.
proof fn lemma_entries_map_congruent<V>(a: Seq<(String, V)>, b: Seq<(String, V)>)
    requires
        a.len() == b.len(),
        forall|j: int| 0 <= j < a.len() ==> a[j].0@ == b[j].0@ && a[j].1 == b[j].1,
    ensures
        entries_map(a) == entries_map(b),
        keys_unique(b) ==> keys_unique(a),
    decreases a.len(),
{
    if a.len() > 0 {
        lemma_entries_map_congruent(a.drop_last(), b.drop_last());
        assert(entries_map(a) =~= entries_map(b));
    }
}

/// A name-keyed table: an association vector with unique keys, viewed as a
/// map from the name's characters to the stored value.
#[derive(Debug)]
pub struct NameTable<V> {
    entries: Vec<(String, V)>,
}

impl<V> NameTable<V> {
    /// The table as a map from key characters to values.
    pub closed spec fn view(&self) -> Map<Seq<char>, V> {
        entries_map(self.entries@)
    }

    /// The internal vector keeps its keys unique.
    pub closed spec fn wf(&self) -> bool {
        keys_unique(self.entries@)
    }

    /// An empty table.
    pub fn new() -> (r: NameTable<V>)
        ensures
            r.wf(),
            r@ == Map::<Seq<char>, V>::empty(),
    {
        NameTable { entries: Vec::new() }
    }

    /// The position of the entry carrying `name`, if any.
    fn index_of(&self, name: &String) -> (r: Option<usize>)
        requires
            self.wf(),
        ensures
            match r {
                Some(i) => i < self.entries@.len() && self.entries@[i as int].0@ == name@
                    && self@.contains_key(name@),
                None => !self@.contains_key(name@),
            },
    {
        let ghost s = self.entries@;
        let n = self.entries.len();
        let mut i: usize = 0;
        while i < n
            invariant
                n == s.len(),
                i <= n,
                s == self.entries@,
                self.wf(),
                forall|j: int| 0 <= j < i ==> s[j].0@ != name@,
            decreases n - i,
        {
            if self.entries[i].0.eq(name) {
                proof {
                    lemma_entries_map_domain(s, name@);
                }
                return Some(i);
            }
            i += 1;
        }
        proof {
            lemma_entries_map_domain(s, name@);
        }
        None
    }

    /// Whether the table holds a binding for `name`.
    pub fn contains(&self, name: &String) -> (r: bool)
        requires
            self.wf(),
        ensures
            r == self@.contains_key(name@),
    {
        self.index_of(name).is_some()
    }

    /// A reference to the value bound to `name`, if any.
    pub fn get_ref(&self, name: &String) -> (r: Option<&V>)
        requires
            self.wf(),
        ensures
            match r {
                Some(v) => self@.contains_key(name@) && *v == self@[name@],
                None => !self@.contains_key(name@),
            },
    {
        match self.index_of(name) {
            Some(i) => {
                proof {
                    lemma_entries_map_index(self.entries@, i as int);
                }
                Some(&self.entries[i].1)
            },
            None => None,
        }
    }

    /// Bind `name` to `value`, inserting or overwriting.
    pub fn insert(&mut self, name: String, value: V)
        requires
            old(self).wf(),
        ensures
            final(self).wf(),
            final(self)@ == old(self)@.insert(name@, value),
    {
        let ghost s0 = self.entries@;
        match self.index_of(&name) {
            Some(i) => {
                proof {
                    lemma_entries_map_remove(s0, i as int);
                }
                self.entries.remove(i);
                let ghost s1 = self.entries@;
                self.entries.push((name, value));
                proof {
                    lemma_entries_map_push(s1, self.entries@.last());
                    lemma_entries_map_domain(s1, self.entries@.last().0@);
                    assert(self@ =~= old(self)@.insert(self.entries@.last().0@, value));
                }
            },
            None => {
                self.entries.push((name, value));
                proof {
                    lemma_entries_map_push(s0, self.entries@.last());
                    lemma_entries_map_domain(s0, self.entries@.last().0@);
                }
            },
        }
    }

    /// A copy of the table. Written out so that the copy provably carries
    /// the same map.
    pub fn duplicate(&self) -> (r: NameTable<V>) where V: Copy
        requires
            self.wf(),
        ensures
            r.wf(),
            r@ == self@,
    {
        let ghost s = self.entries@;
        let n = self.entries.len();
        let mut out: Vec<(String, V)> = Vec::new();
        let mut i: usize = 0;
        while i < n
            invariant
                n == s.len(),
                i <= n,
                s == self.entries@,
                keys_unique(s),
                out@.len() == i,
                forall|j: int| 0 <= j < i ==> out@[j].0@ == s[j].0@ && out@[j].1 == s[j].1,
            decreases n - i,
        {
            let name = self.entries[i].0.clone();
            let value = self.entries[i].1;
            out.push((name, value));
            i += 1;
        }
        proof {
            lemma_entries_map_congruent(out@, s);
        }
        NameTable { entries: out }
    }

    /// Drop any binding of `name`.
    pub fn remove(&mut self, name: &String)
        requires
            old(self).wf(),
        ensures
            final(self).wf(),
            final(self)@ == old(self)@.remove(name@),
    {
        let ghost s0 = self.entries@;
        match self.index_of(name) {
            Some(i) => {
                proof {
                    lemma_entries_map_remove(s0, i as int);
                }
                self.entries.remove(i);
            },
            None => {
                proof {
                    assert(self@ =~= old(self)@.remove(name@));
                }
            },
        }
    }

}

impl NameTable<Binding> {
    /// The bindings as an enumerable name-to-function mapping: all of
    /// them, or only the exported ones, as an external view enumerates.
    pub fn function_list(&self, public_only: bool) -> (r: NameTable<Function>)
        requires
            self.wf(),
        ensures
            r.wf(),
            public_only ==> r@ == pub_map(self@),
            !public_only ==> r@ == all_funcs(self@),
    {
        let ghost s = self.entries@;
        let n = self.entries.len();
        let mut r: NameTable<Function> = NameTable::new();
        let mut i: usize = 0;
        while i < n
            invariant
                n == s.len(),
                i <= n,
                s == self.entries@,
                keys_unique(s),
                r.wf(),
                public_only ==> r@ == pub_map(entries_map(s.take(i as int))),
                !public_only ==> r@ == all_funcs(entries_map(s.take(i as int))),
            decreases n - i,
        {
            let ghost pre = entries_map(s.take(i as int));
            let name = self.entries[i].0.clone();
            let b = self.entries[i].1;
            proof {
                assert(s.take(i + 1).drop_last() =~= s.take(i as int));
                assert(s.take(i + 1).last() == s[i as int]);
                lemma_entries_map_domain(s.take(i as int), s[i as int].0@);
                assert(forall|j: int| 0 <= j < i ==> s.take(i as int)[j].0@ != s[i as int].0@);
                assert(!pre.contains_key(s[i as int].0@));
            }
            if !public_only || b.public {
                r.insert(name, b.function);
                proof {
                    if public_only {
                        assert(r@ =~= pub_map(pre.insert(s[i as int].0@, b)));
                    } else {
                        assert(r@ =~= all_funcs(pre.insert(s[i as int].0@, b)));
                    }
                }
            } else {
                proof {
                    assert(r@ =~= pub_map(pre.insert(s[i as int].0@, b)));
                }
            }
            i += 1;
        }
        proof {
            assert(s.take(n as int) =~= s);
        }
        r
    }
}

} // verus!
