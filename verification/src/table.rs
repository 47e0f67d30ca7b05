//! A table from names to items.
use vstd::hash_map::StringHashMap;
use vstd::prelude::*;

verus! {

/// Items under names, each name once. The items stand in a row; a hash map knows the
/// place of each name.
pub struct Table<T> {
    index: StringHashMap<usize>,
    names: Vec<String>,
    items: Vec<T>,
}

impl<T> View for Table<T> {
    type V = Map<Seq<char>, T>;

    closed spec fn view(&self) -> Map<Seq<char>, T> {
        Map::new(
            |name: Seq<char>| self.index@.contains_key(name),
            |name: Seq<char>| self.items@[self.index@[name] as int],
        )
    }
}

/// The table that the entries make, a later one in place of an earlier one of the
/// same name.
pub open spec fn entries_map<T>(entries: Seq<(String, T)>) -> Map<Seq<char>, T>
    decreases entries.len(),
{
    if entries.len() == 0 {
        Map::empty()
    } else {
        entries_map(entries.drop_last()).insert(entries.last().0@, entries.last().1)
    }
}

/// No two entries have the same name.
pub open spec fn distinct_names<T>(entries: Seq<(String, T)>) -> bool {
    forall|i: int, j: int|
        0 <= i < j < entries.len() ==> (#[trigger] entries[i]).0@ != (#[trigger] entries[j]).0@
}

/// A name is in the table of the entries if and only if one of them has it.
pub proof fn lemma_entries_map<T>(entries: Seq<(String, T)>, name: Seq<char>)
    ensures
        entries_map(entries).contains_key(name) <==> exists|i: int|
            0 <= i < entries.len() && (#[trigger] entries[i]).0@ == name,
    decreases entries.len(),
{
    if entries.len() > 0 {
        let rest = entries.drop_last();
        lemma_entries_map(rest, name);
        if entries.last().0@ == name {
            assert(entries[entries.len() - 1].0@ == name);
        } else {
            if exists|i: int| 0 <= i < entries.len() && (#[trigger] entries[i]).0@ == name {
                let i = choose|i: int| 0 <= i < entries.len() && (#[trigger] entries[i]).0@ == name;
                assert(rest[i].0@ == name);
            }
            if exists|i: int| 0 <= i < rest.len() && (#[trigger] rest[i]).0@ == name {
                let i = choose|i: int| 0 <= i < rest.len() && (#[trigger] rest[i]).0@ == name;
                assert(entries[i].0@ == name);
            }
        }
    }
}

impl<T> Table<T> {
    /// Every name has its own place, and the hash map knows it.
    pub closed spec fn wf(self) -> bool {
        &&& self.names@.len() == self.items@.len()
        &&& forall|i: int|
            0 <= i < self.names@.len() ==> self.index@.contains_key((#[trigger] self.names@[i])@)
                && self.index@[self.names@[i]@] == i
        &&& forall|name: Seq<char>| #[trigger]
            self.index@.contains_key(name) ==> self.index@[name] < self.names@.len()
                && self.names@[self.index@[name] as int]@ == name
    }

    /// The empty table.
    pub fn new() -> (r: Self)
        ensures
            r.wf(),
            r@ == Map::<Seq<char>, T>::empty(),
    {
        let r: Table<T> = Table { index: StringHashMap::new(), names: Vec::new(), items: Vec::new() };
        assert(r@ =~= Map::<Seq<char>, T>::empty());
        r
    }

    /// Tells whether there is an item under `name`.
    pub fn contains(&self, name: &str) -> (r: bool)
        ensures
            r == self@.contains_key(name@),
    {
        self.index.contains_key(name)
    }

    /// The item under `name`.
    pub fn get(&self, name: &str) -> (r: Option<&T>)
        requires
            self.wf(),
        ensures
            r is Some <==> self@.contains_key(name@),
            r matches Some(item) ==> *item == self@[name@],
    {
        match self.index.get(name) {
            Some(i) => Some(&self.items[*i]),
            None => None,
        }
    }

    /// The item under `name`, to change it.
    pub fn get_mut(&mut self, name: &str) -> (r: &mut T)
        requires
            old(self).wf(),
            old(self)@.contains_key(name@),
        ensures
            *r == old(self)@[name@],
            final(self).wf(),
            final(self)@ == old(self)@.insert(name@, *final(r)),
    {
        let i: usize = match self.index.get(name) {
            Some(i) => *i,
            None => 0,
        };
        let r = &mut self.items[i];
        r
    }

    /// Puts `item` under `name`, in place of the item that was there.
    pub fn insert(&mut self, name: String, item: T)
        requires
            old(self).wf(),
        ensures
            final(self).wf(),
            final(self)@ == old(self)@.insert(name@, item),
    {
        let place: Option<usize> = match self.index.get(name.as_str()) {
            Some(i) => Some(*i),
            None => None,
        };
        match place {
            Some(i) => {
                self.items.set(i, item);
                assert(self@ =~= old(self)@.insert(name@, item));
            },
            None => {
                let n: usize = self.items.len();
                self.index.insert(name.clone(), n);
                self.names.push(name);
                self.items.push(item);
                assert(self@ =~= old(self)@.insert(name@, item));
            },
        }
    }

    /// Takes all entries out of the table.
    pub fn drain(&mut self) -> (r: Vec<(String, T)>)
        requires
            old(self).wf(),
        ensures
            final(self).wf(),
            final(self)@ == Map::<Seq<char>, T>::empty(),
            distinct_names(r@),
            entries_map(r@) == old(self)@,
    {
        let ghost before = *self;
        let mut out: Vec<(String, T)> = Vec::new();
        let mut left: Vec<String> = Vec::new();
        let mut kept: Vec<T> = Vec::new();
        std::mem::swap(&mut left, &mut self.names);
        std::mem::swap(&mut kept, &mut self.items);
        self.index.clear();
        assert(self@ =~= Map::<Seq<char>, T>::empty());
        while left.len() > 0
            invariant
                before.wf(),
                left@.len() == kept@.len(),
                left@.len() + out@.len() == before.names@.len(),
                left@ == before.names@.take(left@.len() as int),
                kept@ == before.items@.take(left@.len() as int),
                forall|i: int|
                    0 <= i < out@.len() ==> (#[trigger] out@[i]).0 == before.names@[before.names@.len()
                        - 1 - i] && out@[i].1 == before.items@[before.names@.len() - 1 - i],
            decreases left@.len(),
        {
            match (left.pop(), kept.pop()) {
                (Some(name), Some(item)) => {
                    out.push((name, item));
                },
                _ => {},
            }
        }
        proof {
            assert forall|i: int, j: int| 0 <= i < j < out@.len() implies (#[trigger] out@[i]).0@ != (
            #[trigger] out@[j]).0@ by {
                let n = before.names@.len();
                assert(before.index@[before.names@[n - 1 - i]@] == n - 1 - i);
                assert(before.index@[before.names@[n - 1 - j]@] == n - 1 - j);
            }
            before.lemma_drained(out@);
        }
        out
    }

    /// The entries in reverse order make the table.
    proof fn lemma_drained(self, entries: Seq<(String, T)>)
        requires
            self.wf(),
            entries.len() == self.names@.len(),
            distinct_names(entries),
            forall|i: int|
                0 <= i < entries.len() ==> (#[trigger] entries[i]).0 == self.names@[entries.len() - 1
                    - i] && entries[i].1 == self.items@[entries.len() - 1 - i],
        ensures
            entries_map(entries) == self@,
    {
        let n = entries.len();
        assert forall|name: Seq<char>| true implies entries_map(entries).contains_key(name)
            == #[trigger] self@.contains_key(name) by {
            lemma_entries_map(entries, name);
            if self@.contains_key(name) {
                let i = n - 1 - self.index@[name];
                assert(entries[i].0@ == name);
            }
            if exists|i: int| 0 <= i < n && (#[trigger] entries[i]).0@ == name {
                let i = choose|i: int| 0 <= i < n && (#[trigger] entries[i]).0@ == name;
                assert(self.index@.contains_key(self.names@[n - 1 - i]@));
            }
        }
        assert forall|name: Seq<char>| #[trigger] self@.contains_key(name) implies entries_map(
            entries,
        )[name] == self@[name] by {
            let i = n - 1 - self.index@[name];
            assert(entries[i].0@ == name);
            lemma_entry_value(entries, i);
        }
        assert(entries_map(entries) =~= self@);
    }
}

/// With distinct names every entry is in the table of the entries.
pub proof fn lemma_entry_value<T>(entries: Seq<(String, T)>, i: int)
    requires
        distinct_names(entries),
        0 <= i < entries.len(),
    ensures
        entries_map(entries).contains_key(entries[i].0@),
        entries_map(entries)[entries[i].0@] == entries[i].1,
    decreases entries.len(),
{
    let rest = entries.drop_last();
    if i < entries.len() - 1 {
        assert forall|a: int, b: int| 0 <= a < b < rest.len() implies (#[trigger] rest[a]).0@ != (
        #[trigger] rest[b]).0@ by {
            assert(entries[a].0@ != entries[b].0@);
        }
        lemma_entry_value(rest, i);
        assert(entries[i].0@ != entries[entries.len() - 1].0@);
        assert(rest[i] == entries[i]);
    }
}

} // verus!
