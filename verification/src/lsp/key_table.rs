//! Tables with an entry per language server.

use crate::path::AbsolutePath;
use crate::text::str_eq;
use vstd::prelude::*;

verus! {

/// A server: the server with this name, of this language, for this workspace.
#[derive(Debug)]
pub struct LspServerKey {
    pub language_id: String,
    pub server_id: String,
    pub root: AbsolutePath,
}

/// The meaning of a [`LspServerKey`].
#[verifier::ext_equal]
pub struct KeySpec {
    pub language_id: Seq<char>,
    pub server_id: Seq<char>,
    pub root: Seq<char>,
}

impl View for LspServerKey {
    type V = KeySpec;

    open spec fn view(&self) -> KeySpec {
        KeySpec {
            language_id: self.language_id@,
            server_id: self.server_id@,
            root: self.root@,
        }
    }
}

impl LspServerKey {
    /// Whether two keys name the same server.
    pub fn same(&self, other: &LspServerKey) -> (same: bool)
        ensures
            same == (self@ == other@),
    {
        str_eq(self.language_id.as_str(), other.language_id.as_str()) && str_eq(
            self.server_id.as_str(),
            other.server_id.as_str(),
        ) && self.root.same(&other.root)
    }

    /// The same key.
    pub fn copy(&self) -> (copy: LspServerKey)
        ensures
            copy == *self,
    {
        LspServerKey {
            language_id: self.language_id.clone(),
            server_id: self.server_id.clone(),
            root: self.root.copy(),
        }
    }
}

/// A table with an entry per server.
pub struct KeyTable<V> {
    entries: Vec<(LspServerKey, V)>,
}

spec fn keys_differ<V>(entries: Seq<(LspServerKey, V)>) -> bool {
    forall|i: int, j: int|
        0 <= i < j < entries.len() ==> (#[trigger] entries[i]).0@ != (#[trigger] entries[j]).0@
}

spec fn has_key_at<V>(entries: Seq<(LspServerKey, V)>, key: KeySpec, i: int) -> bool {
    0 <= i < entries.len() && entries[i].0@ == key
}

spec fn table_view<V>(entries: Seq<(LspServerKey, V)>) -> Map<KeySpec, V> {
    Map::new(
        |key: KeySpec| exists|i: int| has_key_at(entries, key, i),
        |key: KeySpec| entries[choose|i: int| has_key_at(entries, key, i)].1,
    )
}

proof fn lemma_table_view<V>(entries: Seq<(LspServerKey, V)>, i: int)
    requires
        keys_differ(entries),
        0 <= i < entries.len(),
    ensures
        table_view(entries).dom().contains(entries[i].0@),
        table_view(entries)[entries[i].0@] == entries[i].1,
{
    let key = entries[i].0@;
    assert(has_key_at(entries, key, i));
    let j = choose|j: int| has_key_at(entries, key, j);
    if i < j {
        assert(entries[i].0@ != entries[j].0@);
    } else if j < i {
        assert(entries[j].0@ != entries[i].0@);
    }
}

impl<V> KeyTable<V> {
    /// Whether no server has two entries.
    pub closed spec fn wf(self) -> bool {
        keys_differ(self.entries@)
    }
}

impl<V> View for KeyTable<V> {
    type V = Map<KeySpec, V>;

    closed spec fn view(&self) -> Map<KeySpec, V> {
        table_view(self.entries@)
    }
}

impl<V> KeyTable<V> {
    /// The table without entries.
    pub fn new() -> (table: KeyTable<V>)
        ensures
            table.wf(),
            table@ == Map::<KeySpec, V>::empty(),
    {
        let table = KeyTable { entries: Vec::new() };
        assert(table@ =~= Map::<KeySpec, V>::empty());
        table
    }

    fn find(&self, key: &LspServerKey) -> (found: Option<usize>)
        requires
            self.wf(),
        ensures
            match found {
                Some(i) => i < self.entries@.len() && self.entries@[i as int].0@ == key@
                    && self@.dom().contains(key@) && self@[key@] == self.entries@[i as int].1,
                None => !self@.dom().contains(key@) && forall|j: int|
                    0 <= j < self.entries@.len() ==> (#[trigger] self.entries@[j]).0@ != key@,
            },
    {
        let mut i: usize = 0;
        while i < self.entries.len()
            invariant
                i <= self.entries.len(),
                keys_differ(self.entries@),
                forall|j: int| 0 <= j < i ==> (#[trigger] self.entries@[j]).0@ != key@,
            decreases self.entries.len() - i,
        {
            if self.entries[i].0.same(key) {
                proof {
                    lemma_table_view(self.entries@, i as int);
                }
                return Some(i);
            }
            i += 1;
        }
        None
    }

    /// The entry of `key`, where it has one.
    pub fn get(&self, key: &LspServerKey) -> (value: Option<&V>)
        requires
            self.wf(),
        ensures
            match value {
                Some(value) => self@.dom().contains(key@) && self@[key@] == *value,
                None => !self@.dom().contains(key@),
            },
    {
        match self.find(key) {
            Some(i) => Some(&self.entries[i].1),
            None => None,
        }
    }

    /// Whether `key` has an entry.
    pub fn contains_key(&self, key: &LspServerKey) -> (contains: bool)
        requires
            self.wf(),
        ensures
            contains == self@.dom().contains(key@),
    {
        self.find(key).is_some()
    }

    /// Takes the entry of `key` out.
    pub fn remove(&mut self, key: &LspServerKey) -> (value: Option<V>)
        requires
            old(self).wf(),
        ensures
            final(self).wf(),
            final(self)@ == old(self)@.remove(key@),
            match value {
                Some(value) => old(self)@.dom().contains(key@) && old(self)@[key@] == value,
                None => !old(self)@.dom().contains(key@),
            },
    {
        match self.find(key) {
            None => {
                assert(self@ =~= self@.remove(key@));
                None
            },
            Some(i) => {
                let ghost before = self.entries@;
                let (_, value) = self.entries.remove(i);
                proof {
                    let after = self.entries@;
                    assert forall|a: int, b: int| 0 <= a < b < after.len() implies (
                    #[trigger] after[a]).0@ != (#[trigger] after[b]).0@ by {
                        let a0 = if a < i {
                            a
                        } else {
                            a + 1
                        };
                        let b0 = if b < i {
                            b
                        } else {
                            b + 1
                        };
                        assert(before[a0].0@ != before[b0].0@);
                    }
                    assert forall|k: KeySpec| #[trigger]
                        table_view(after).dom().contains(k) <==> table_view(before).remove(
                            key@,
                        ).dom().contains(k) by {
                        if table_view(after).dom().contains(k) {
                            let a = choose|a: int| has_key_at(after, k, a);
                            let a0 = if a < i {
                                a
                            } else {
                                a + 1
                            };
                            assert(has_key_at(before, k, a0));
                            if a0 < i {
                                assert(before[a0].0@ != before[i as int].0@);
                            } else {
                                assert(before[i as int].0@ != before[a0].0@);
                            }
                        }
                        if table_view(before).remove(key@).dom().contains(k) {
                            let a = choose|a: int| has_key_at(before, k, a);
                            assert(a != i);
                            assert(has_key_at(
                                after,
                                k,
                                if a < i {
                                    a
                                } else {
                                    a - 1
                                },
                            ));
                        }
                    }
                    assert forall|k: KeySpec| table_view(after).dom().contains(k) implies
                        #[trigger] table_view(after)[k] == table_view(before).remove(key@)[k] by {
                        let a = choose|a: int| has_key_at(after, k, a);
                        let a0 = if a < i {
                            a
                        } else {
                            a + 1
                        };
                        lemma_table_view(after, a);
                        lemma_table_view(before, a0);
                    }
                    assert(table_view(after) =~= table_view(before).remove(key@));
                }
                Some(value)
            },
        }
    }

    /// Gives `key` the entry `value`.
    pub fn insert(&mut self, key: LspServerKey, value: V)
        requires
            old(self).wf(),
        ensures
            final(self).wf(),
            final(self)@ == old(self)@.insert(key@, value),
    {
        let _ = self.remove(&key);
        let ghost before = self.entries@;
        let ghost removed = self@;
        assert(!removed.dom().contains(key@));
        assert forall|j: int| 0 <= j < before.len() implies (#[trigger] before[j]).0@ != key@ by {
            if before[j].0@ == key@ {
                assert(has_key_at(before, key@, j));
            }
        }
        self.entries.push((key, value));
        proof {
            let after = self.entries@;
            assert(keys_differ(after));
            assert forall|k: KeySpec| #[trigger]
                table_view(after).dom().contains(k) <==> removed.insert(
                    key@,
                    value,
                ).dom().contains(k) by {
                if table_view(after).dom().contains(k) {
                    let a = choose|a: int| has_key_at(after, k, a);
                    if a < before.len() {
                        assert(has_key_at(before, k, a));
                    }
                }
                if removed.dom().contains(k) {
                    let a = choose|a: int| has_key_at(before, k, a);
                    assert(has_key_at(after, k, a));
                }
                if k == key@ {
                    assert(has_key_at(after, k, before.len() as int));
                }
            }
            assert forall|k: KeySpec| table_view(after).dom().contains(k) implies
                #[trigger] table_view(after)[k] == removed.insert(key@, value)[k] by {
                let a = choose|a: int| has_key_at(after, k, a);
                lemma_table_view(after, a);
                if a < before.len() {
                    lemma_table_view(before, a);
                }
            }
            assert(table_view(after) =~= removed.insert(key@, value));
            assert(removed.insert(key@, value) =~= old(self)@.insert(key@, value));
        }
    }

    /// The keys that have an entry, each once.
    pub fn keys(&self) -> (keys: Vec<LspServerKey>)
        requires
            self.wf(),
        ensures
            forall|key: KeySpec|
                self@.dom().contains(key) <==> exists|i: int|
                    0 <= i < keys@.len() && #[trigger] keys@[i]@ == key,
            forall|i: int, j: int|
                0 <= i < j < keys@.len() ==> (#[trigger] keys@[i])@ != (#[trigger] keys@[j])@,
    {
        let mut keys: Vec<LspServerKey> = Vec::new();
        let mut i: usize = 0;
        while i < self.entries.len()
            invariant
                i <= self.entries.len(),
                keys@.len() == i,
                forall|j: int| 0 <= j < i ==> (#[trigger] keys@[j])@ == self.entries@[j].0@,
            decreases self.entries.len() - i,
        {
            keys.push(self.entries[i].0.copy());
            i += 1;
        }
        assert forall|key: KeySpec|
            self@.dom().contains(key) <==> exists|i: int|
                0 <= i < keys@.len() && #[trigger] keys@[i]@ == key by {
            if self@.dom().contains(key) {
                let i = choose|i: int| has_key_at(self.entries@, key, i);
                assert(keys@[i]@ == key);
            }
            if exists|i: int| 0 <= i < keys@.len() && #[trigger] keys@[i]@ == key {
                let i = choose|i: int| 0 <= i < keys@.len() && #[trigger] keys@[i]@ == key;
                assert(has_key_at(self.entries@, key, i));
            }
        }
        keys
    }
}

} // verus!
