//! A table of named entries, where a later entry of a name stands over an earlier one.

use vstd::prelude::*;
use vstd::string::*;
use crate::text::same;

verus! {

/// Names with an entry each.
#[derive(Debug)]
pub struct Table<V> {
    pub entries: Vec<(String, V)>,
}

pub open spec fn entries_map<V>(s: Seq<(String, V)>) -> Map<Seq<char>, V>
    decreases s.len(),
{
    if s.len() == 0 {
        Map::empty()
    } else {
        entries_map(s.drop_last()).insert(s.last().0@, s.last().1)
    }
}

/// The entry of a name, if there is one.
pub open spec fn find<V>(m: Map<Seq<char>, V>, name: Seq<char>) -> Option<V> {
    if m.dom().contains(name) {
        Some(m[name])
    } else {
        None
    }
}

impl<V: Copy> Table<V> {
    pub open spec fn view(&self) -> Map<Seq<char>, V> {
        entries_map(self.entries@)
    }

    pub fn new() -> (r: Table<V>)
        ensures
            r@ == Map::<Seq<char>, V>::empty(),
    {
        Table { entries: Vec::new() }
    }

    pub fn insert(&mut self, name: &str, value: V)
        ensures
            final(self)@ == old(self)@.insert(name@, value),
    {
        self.entries.push((name.to_owned(), value));
        assert(self.entries@.drop_last() =~= old(self).entries@);
    }

    pub fn get(&self, name: &str) -> (r: Option<V>)
        ensures
            r == find(self@, name@),
    {
        let mut n: usize = self.entries.len();
        assert(self.entries@.take(n as int) =~= self.entries@);
        while n > 0
            invariant
                n <= self.entries.len(),
                find(entries_map(self.entries@.take(n as int)), name@) == find(self@, name@),
            decreases n,
        {
            let ghost front = self.entries@.take(n as int);
            assert(front.drop_last() =~= self.entries@.take(n - 1));
            if same(self.entries[n - 1].0.as_str(), name) {
                return Some(self.entries[n - 1].1);
            }
            n = n - 1;
        }
        None
    }

    pub fn contains(&self, name: &str) -> (r: bool)
        ensures
            r == self@.dom().contains(name@),
    {
        self.get(name).is_some()
    }

    /// Give a name an entry, unless it has one: the first stands.
    pub fn insert_first(&mut self, name: &str, value: V)
        ensures
            final(self)@ == if old(self)@.dom().contains(name@) {
                old(self)@
            } else {
                old(self)@.insert(name@, value)
            },
    {
        if !self.contains(name) {
            self.insert(name, value);
        }
    }

    /// The same entries again.
    pub fn copy(&self) -> (r: Table<V>)
        ensures
            r@ == self@,
    {
        let mut r: Table<V> = Table::new();
        for i in 0..self.entries.len()
            invariant
                r@ == entries_map(self.entries@.take(i as int)),
        {
            let ghost front = self.entries@.take(i + 1);
            assert(front.drop_last() =~= self.entries@.take(i as int));
            r.insert(self.entries[i].0.as_str(), self.entries[i].1);
        }
        assert(self.entries@.take(self.entries.len() as int) =~= self.entries@);
        r
    }
}

} // verus!
