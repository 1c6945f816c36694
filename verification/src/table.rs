//! Name-keyed tables.
//!
//! The catalog and the per-reactor ledger key every resource by its name.
//! [`StringMap`] is an association table from names to values in which each
//! name is held at most once; its view is a `Map` from the name's character
//! sequence to the value's own view.

use vstd::prelude::*;

verus! {

/// No name occurs twice among the entries.
pub open spec fn distinct_keys<V>(s: Seq<(String, V)>) -> bool {
    forall|i: int, j: int| 0 <= i < j < s.len() ==> s[i].0@ != s[j].0@
}

/// The map denoted by an entry sequence; later entries would win, though a
/// well-formed table never repeats a name.
pub open spec fn entries_view<V: View>(s: Seq<(String, V)>) -> Map<Seq<char>, V::V>
    decreases s.len(),
{
    if s.len() == 0 {
        Map::empty()
    } else {
        entries_view(s.drop_last()).insert(s.last().0@, s.last().1@)
    }
}

proof fn lemma_entries_view_dom<V: View>(s: Seq<(String, V)>, k: Seq<char>)
    ensures
        entries_view(s).contains_key(k) <==> exists|i: int| 0 <= i < s.len() && s[i].0@ == k,
    decreases s.len(),
{
    if s.len() > 0 {
        lemma_entries_view_dom(s.drop_last(), k);
        if s.last().0@ == k {
            assert(s[s.len() - 1].0@ == k);
        } else if entries_view(s).contains_key(k) {
            let i = choose|i: int| 0 <= i < s.drop_last().len() && s.drop_last()[i].0@ == k;
            assert(s[i].0@ == k);
        } else if exists|i: int| 0 <= i < s.len() && s[i].0@ == k {
            let i = choose|i: int| 0 <= i < s.len() && s[i].0@ == k;
            assert(s.drop_last()[i].0@ == k);
        }
    }
}

proof fn lemma_entries_view_index<V: View>(s: Seq<(String, V)>, i: int)
    requires
        distinct_keys(s),
        0 <= i < s.len(),
    ensures
        entries_view(s).contains_key(s[i].0@),
        entries_view(s)[s[i].0@] == s[i].1@,
    decreases s.len(),
{
    if i == s.len() - 1 {
    } else {
        assert(distinct_keys(s.drop_last())) by {
            assert(forall|x: int, y: int|
                0 <= x < y < s.drop_last().len() ==> s.drop_last()[x].0@ == s[x].0@
                    && s.drop_last()[y].0@ == s[y].0@);
        }
        assert(s.drop_last()[i] == s[i]);
        lemma_entries_view_index(s.drop_last(), i);
        assert(s[i].0@ != s.last().0@);
    }
}

proof fn lemma_entries_view_update<V: View>(s: Seq<(String, V)>, i: int, p: (String, V))
    requires
        distinct_keys(s),
        0 <= i < s.len(),
        p.0@ == s[i].0@,
    ensures
        entries_view(s.update(i, p)) =~= entries_view(s).insert(p.0@, p.1@),
    decreases s.len(),
{
    let su = s.update(i, p);
    if i == s.len() - 1 {
        assert(su.drop_last() =~= s.drop_last());
        assert(su.last() == p);
    } else {
        assert(distinct_keys(s.drop_last())) by {
            assert(forall|x: int, y: int|
                0 <= x < y < s.drop_last().len() ==> s.drop_last()[x].0@ == s[x].0@
                    && s.drop_last()[y].0@ == s[y].0@);
        }
        assert(s.drop_last()[i] == s[i]);
        lemma_entries_view_update(s.drop_last(), i, p);
        assert(su.drop_last() =~= s.drop_last().update(i, p));
        assert(su.last() == s.last());
        assert(s[i].0@ != s.last().0@);
    }
}

/// An association table from resource names to values, with each name held
/// at most once.
pub struct StringMap<V> {
    entries: Vec<(String, V)>,
}

impl<V: View> View for StringMap<V> {
    type V = Map<Seq<char>, V::V>;

    closed spec fn view(&self) -> Map<Seq<char>, V::V> {
        entries_view(self.entries@)
    }
}

impl<V> StringMap<V> {
    /// A table is well formed when no name is held twice.
    pub closed spec fn wf(&self) -> bool {
        distinct_keys(self.entries@)
    }
}

impl<V: View + Copy> StringMap<V> {
    /// The empty table.
    pub fn new() -> (r: StringMap<V>)
        ensures
            r@ == Map::<Seq<char>, V::V>::empty(),
            r.wf(),
    {
        StringMap { entries: Vec::new() }
    }

    /// Look a name up; `Some` exactly when the table holds the name.
    pub fn get(&self, name: &String) -> (r: Option<V>)
        requires
            self.wf(),
        ensures
            r is Some <==> self@.contains_key(name@),
            r matches Some(v) ==> v@ == self@[name@],
    {
        let n = self.entries.len();
        let mut i: usize = 0;
        while i < n
            invariant
                n == self.entries@.len(),
                0 <= i <= n,
                forall|j: int| 0 <= j < i ==> self.entries@[j].0@ != name@,
                distinct_keys(self.entries@),
            decreases n - i,
        {
            if self.entries[i].0 == *name {
                proof {
                    lemma_entries_view_index(self.entries@, i as int);
                }
                return Some(self.entries[i].1);
            }
            i += 1;
        }
        proof {
            lemma_entries_view_dom(self.entries@, name@);
        }
        None
    }

    /// An independent copy with the same contents.
    pub fn duplicate(&self) -> (r: Self)
        requires
            self.wf(),
        ensures
            r@ == self@,
            r.wf(),
    {
        let n = self.entries.len();
        let mut v: Vec<(String, V)> = Vec::new();
        let mut i: usize = 0;
        while i < n
            invariant
                n == self.entries@.len(),
                0 <= i <= n,
                v@ == self.entries@.take(i as int),
            decreases n - i,
        {
            let p = (self.entries[i].0.clone(), self.entries[i].1);
            proof {
                assert(p == self.entries@[i as int]);
                assert(v@.push(p) =~= self.entries@.take(i as int + 1));
            }
            v.push(p);
            i += 1;
        }
        proof {
            assert(v@ =~= self.entries@);
        }
        StringMap { entries: v }
    }

    /// Bind a name to a value, replacing any earlier binding.
    pub fn set(&mut self, name: &String, v: V)
        requires
            old(self).wf(),
        ensures
            final(self)@ == old(self)@.insert(name@, v@),
            final(self).wf(),
    {
        let n = self.entries.len();
        let mut i: usize = 0;
        while i < n
            invariant
                n == self.entries@.len(),
                0 <= i <= n,
                forall|j: int| 0 <= j < i ==> self.entries@[j].0@ != name@,
                distinct_keys(self.entries@),
                self.entries@ == old(self).entries@,
            decreases n - i,
        {
            if self.entries[i].0 == *name {
                let p = (name.clone(), v);
                proof {
                    lemma_entries_view_update(self.entries@, i as int, p);
                }
                self.entries[i] = p;
                return ;
            }
            i += 1;
        }
        let p = (name.clone(), v);
        proof {
            lemma_entries_view_dom(self.entries@, name@);
            assert(self.entries@.push(p).drop_last() =~= self.entries@);
        }
        self.entries.push(p);
    }
}

} // verus!
