//! Tables from texts to texts.

use crate::text::str_eq;
use vstd::prelude::*;

verus! {

/// What a list of entries means: the value of each key, the last one where a key occurs more than
/// once.
spec fn entries_view(entries: Seq<(String, String)>) -> Map<Seq<char>, Seq<char>>
    decreases entries.len(),
{
    if entries.len() == 0 {
        Map::empty()
    } else {
        entries_view(entries.drop_last()).insert(entries.last().0@, entries.last().1@)
    }
}

/// A table from texts to texts.
#[derive(Debug)]
pub struct TextTable {
    entries: Vec<(String, String)>,
}

impl View for TextTable {
    type V = Map<Seq<char>, Seq<char>>;

    closed spec fn view(&self) -> Map<Seq<char>, Seq<char>> {
        entries_view(self.entries@)
    }
}

proof fn lemma_entries_push(entries: Seq<(String, String)>, entry: (String, String))
    ensures
        entries_view(entries.push(entry)) == entries_view(entries).insert(entry.0@, entry.1@),
{
    assert(entries.push(entry).drop_last() == entries);
}

proof fn lemma_entries_member(entries: Seq<(String, String)>, key: Seq<char>)
    ensures
        entries_view(entries).dom().contains(key) <==> exists|i: int|
            0 <= i < entries.len() && (#[trigger] entries[i]).0@ == key,
    decreases entries.len(),
{
    if entries.len() > 0 {
        let rest = entries.drop_last();
        lemma_entries_member(rest, key);
        assert(entries_view(entries) == entries_view(rest).insert(
            entries.last().0@,
            entries.last().1@,
        ));
        if exists|i: int| 0 <= i < entries.len() && (#[trigger] entries[i]).0@ == key {
            let i = choose|i: int| 0 <= i < entries.len() && (#[trigger] entries[i]).0@ == key;
            if i < rest.len() {
                assert(rest[i] == entries[i]);
            }
        }
        if exists|i: int| 0 <= i < rest.len() && (#[trigger] rest[i]).0@ == key {
            let i = choose|i: int| 0 <= i < rest.len() && (#[trigger] rest[i]).0@ == key;
            assert(entries[i] == rest[i]);
        }
    }
}

impl TextTable {
    /// The table without entries.
    pub fn new() -> (table: TextTable)
        ensures
            table@ == Map::<Seq<char>, Seq<char>>::empty(),
    {
        let entries: Vec<(String, String)> = Vec::new();
        assert(entries_view(entries@) == Map::<Seq<char>, Seq<char>>::empty());
        TextTable { entries }
    }

    /// The value of `key`, where it has one.
    pub fn get(&self, key: &str) -> (value: Option<&str>)
        ensures
            match value {
                Some(value) => self@.dom().contains(key@) && self@[key@] == value@,
                None => !self@.dom().contains(key@),
            },
    {
        let mut n: usize = self.entries.len();
        assert(self.entries@.take(n as int) == self.entries@);
        while n > 0
            invariant
                n <= self.entries.len(),
                self@.dom().contains(key@) == entries_view(
                    self.entries@.take(n as int),
                ).dom().contains(key@),
                self@[key@] == entries_view(self.entries@.take(n as int))[key@],
            decreases n,
        {
            assert(self.entries@.take(n as int).drop_last() == self.entries@.take(n - 1));
            if str_eq(self.entries[n - 1].0.as_str(), key) {
                return Some(self.entries[n - 1].1.as_str());
            }
            n -= 1;
        }
        None
    }

    /// Takes the entry of `key` out.
    pub fn remove(&mut self, key: &str)
        ensures
            final(self)@ == old(self)@.remove(key@),
    {
        let mut kept: Vec<(String, String)> = Vec::new();
        let mut i: usize = 0;
        assert(entries_view(kept@) =~= entries_view(self.entries@.take(0)).remove(key@));
        while i < self.entries.len()
            invariant
                i <= self.entries.len(),
                *self == *old(self),
                entries_view(kept@) == entries_view(self.entries@.take(i as int)).remove(key@),
            decreases self.entries.len() - i,
        {
            let ghost before = entries_view(self.entries@.take(i as int));
            let ghost entry = self.entries@[i as int];
            proof {
                assert(self.entries@.take(i + 1).drop_last() == self.entries@.take(i as int));
                assert(self.entries@.take(i + 1).last() == entry);
            }
            if str_eq(self.entries[i].0.as_str(), key) {
                assert(before.insert(entry.0@, entry.1@).remove(key@) =~= before.remove(key@));
            } else {
                assert(before.insert(entry.0@, entry.1@).remove(key@) =~= before.remove(
                    key@,
                ).insert(entry.0@, entry.1@));
                let copy = (self.entries[i].0.clone(), self.entries[i].1.clone());
                proof {
                    lemma_entries_push(kept@, copy);
                }
                kept.push(copy);
            }
            i += 1;
        }
        assert(self.entries@.take(self.entries@.len() as int) == self.entries@);
        self.entries = kept;
    }

    /// Gives `key` the value `value`.
    pub fn insert(&mut self, key: &str, value: &str)
        ensures
            final(self)@ == old(self)@.insert(key@, value@),
    {
        self.remove(key);
        let entry = (key.to_owned(), value.to_owned());
        proof {
            lemma_entries_push(self.entries@, entry);
            assert(old(self)@.remove(key@).insert(key@, value@) =~= old(self)@.insert(
                key@,
                value@,
            ));
        }
        self.entries.push(entry);
    }

    /// The keys of the table, in the order in which they were put in.
    pub fn keys(&self) -> (keys: Vec<String>)
        ensures
            forall|key: Seq<char>|
                self@.dom().contains(key) <==> exists|i: int|
                    0 <= i < keys@.len() && #[trigger] keys@[i]@ == key,
    {
        let mut keys: Vec<String> = Vec::new();
        let mut i: usize = 0;
        while i < self.entries.len()
            invariant
                i <= self.entries.len(),
                keys@.len() == i,
                forall|j: int| 0 <= j < i ==> (#[trigger] keys@[j])@ == self.entries@[j].0@,
            decreases self.entries.len() - i,
        {
            keys.push(self.entries[i].0.clone());
            i += 1;
        }
        assert forall|key: Seq<char>|
            self@.dom().contains(key) <==> exists|i: int|
                0 <= i < keys@.len() && #[trigger] keys@[i]@ == key by {
            lemma_entries_member(self.entries@, key);
            if self@.dom().contains(key) {
                let i = choose|i: int|
                    0 <= i < self.entries@.len() && (#[trigger] self.entries@[i]).0@ == key;
                assert(keys@[i]@ == key);
            }
            if exists|i: int| 0 <= i < keys@.len() && #[trigger] keys@[i]@ == key {
                let i = choose|i: int| 0 <= i < keys@.len() && #[trigger] keys@[i]@ == key;
                assert(self.entries@[i].0@ == key);
            }
        }
        keys
    }

    /// A table with the same entries.
    pub fn copy(&self) -> (copy: TextTable)
        ensures
            copy@ == self@,
    {
        let mut entries: Vec<(String, String)> = Vec::new();
        let mut i: usize = 0;
        while i < self.entries.len()
            invariant
                i <= self.entries.len(),
                entries@ == self.entries@.take(i as int),
            decreases self.entries.len() - i,
        {
            entries.push((self.entries[i].0.clone(), self.entries[i].1.clone()));
            i += 1;
        }
        assert(self.entries@.take(self.entries@.len() as int) == self.entries@);
        TextTable { entries }
    }
}

} // verus!
