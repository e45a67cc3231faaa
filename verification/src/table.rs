//! A small map from keys that can be compared to values.

use crate::text;
use vstd::prelude::*;

verus! {

/// A key: a value with a form, which tells it from other keys.
pub trait Key: Sized {
    /// What tells two keys apart.
    type Form;

    /// The form of this key.
    spec fn form(&self) -> Self::Form;

    /// Whether two keys have the same form.
    fn same(&self, other: &Self) -> (yes: bool)
        ensures
            yes == (self.form() == other.form()),
    ;
}

impl Key for String {
    type Form = Seq<char>;

    open spec fn form(&self) -> Seq<char> {
        self@
    }

    fn same(&self, other: &String) -> (yes: bool) {
        text::same(self.as_str(), other.as_str())
    }
}

/// A map, as its entries in the order in which their keys were first inserted.
#[derive(Debug)]
pub struct Table<K, V> {
    entries: Vec<(K, V)>,
}

/// The map that a row of entries spells: a later entry replaces an earlier one of its key.
pub open spec fn entries_map<K: Key, V>(entries: Seq<(K, V)>) -> Map<K::Form, V>
    decreases entries.len(),
{
    if entries.len() == 0 {
        Map::empty()
    } else {
        entries_map(entries.drop_last()).insert(entries.last().0.form(), entries.last().1)
    }
}

/// No key occurs twice.
pub open spec fn distinct_keys<K: Key, V>(entries: Seq<(K, V)>) -> bool {
    forall|i: int, j: int|
        0 <= i < j < entries.len() ==> (#[trigger] entries[i]).0.form() != (
        #[trigger] entries[j]).0.form()
}

/// What the map of a row of distinct entries holds.
pub proof fn lemma_entries_map<K: Key, V>(entries: Seq<(K, V)>)
    requires
        distinct_keys(entries),
    ensures
        entries_map(entries).dom().finite(),
        forall|i: int|
            0 <= i < entries.len() ==> entries_map(entries).contains_key(
                (#[trigger] entries[i]).0.form(),
            ) && entries_map(entries)[entries[i].0.form()] == entries[i].1,
        forall|form: K::Form| #[trigger]
            entries_map(entries).contains_key(form) ==> exists|i: int|
                0 <= i < entries.len() && (#[trigger] entries[i]).0.form() == form,
    decreases entries.len(),
{
    if entries.len() > 0 {
        let rest = entries.drop_last();
        lemma_entries_map(rest);
        assert forall|i: int| 0 <= i < entries.len() implies entries_map(entries).contains_key(
            (#[trigger] entries[i]).0.form(),
        ) && entries_map(entries)[entries[i].0.form()] == entries[i].1 by {
            if i < rest.len() {
                assert(rest[i] == entries[i]);
            }
        }
        assert forall|form: K::Form| #[trigger]
            entries_map(entries).contains_key(form) implies exists|i: int|
            0 <= i < entries.len() && (#[trigger] entries[i]).0.form() == form by {
            if entries.last().0.form() != form {
                assert(entries_map(rest).contains_key(form));
                let i = choose|i: int| 0 <= i < rest.len() && (#[trigger] rest[i]).0.form() == form;
                assert(entries[i].0.form() == form);
            } else {
                assert(entries[entries.len() - 1].0.form() == form);
            }
        }
    }
}

/// A row of distinct entries spells `map` where both hold the same.
proof fn lemma_same_entries<K: Key, V>(left: Seq<(K, V)>, map: Map<K::Form, V>)
    requires
        distinct_keys(left),
        forall|i: int|
            0 <= i < left.len() ==> map.contains_key((#[trigger] left[i]).0.form())
                && map[left[i].0.form()] == left[i].1,
        forall|form: K::Form| #[trigger]
            map.contains_key(form) ==> exists|i: int|
                0 <= i < left.len() && (#[trigger] left[i]).0.form() == form,
    ensures
        entries_map(left) == map,
{
    lemma_entries_map(left);
    assert forall|form: K::Form| entries_map(left).contains_key(form) <==> map.contains_key(form) by {
        if map.contains_key(form) {
            let i = choose|i: int| 0 <= i < left.len() && (#[trigger] left[i]).0.form() == form;
            assert(entries_map(left).contains_key(left[i].0.form()));
        }
        if entries_map(left).contains_key(form) {
            let i = choose|i: int| 0 <= i < left.len() && (#[trigger] left[i]).0.form() == form;
            assert(map.contains_key(left[i].0.form()));
        }
    }
    assert forall|form: K::Form| map.contains_key(form) implies entries_map(left)[form]
        == map[form] by {
        let i = choose|i: int| 0 <= i < left.len() && (#[trigger] left[i]).0.form() == form;
        assert(map[left[i].0.form()] == left[i].1);
    }
    assert(entries_map(left) =~= map);
}

impl<K: Key, V> View for Table<K, V> {
    type V = Map<K::Form, V>;

    closed spec fn view(&self) -> Map<K::Form, V> {
        entries_map(self.entries@)
    }
}

impl<K: Key, V> Table<K, V> {
    /// No key occurs twice.
    pub closed spec fn valid(&self) -> bool {
        distinct_keys(self.entries@)
    }

    /// The entries in order.
    pub closed spec fn rows(&self) -> Seq<(K, V)> {
        self.entries@
    }

    /// What the entries of a valid map are.
    pub proof fn lemma_rows(&self)
        requires
            self.valid(),
        ensures
            distinct_keys(self.rows()),
            self@ == entries_map(self.rows()),
            self@.dom().finite(),
            forall|i: int|
                0 <= i < self.rows().len() ==> self@.contains_key((#[trigger] self.rows()[i]).0.form())
                    && self@[self.rows()[i].0.form()] == self.rows()[i].1,
            forall|form: K::Form| #[trigger]
                self@.contains_key(form) ==> exists|i: int|
                    0 <= i < self.rows().len() && (#[trigger] self.rows()[i]).0.form() == form,
    {
        lemma_entries_map(self.entries@);
    }

    /// The map without entries.
    pub fn new() -> (table: Self)
        ensures
            table.valid(),
            table@ == Map::<K::Form, V>::empty(),
            table.rows() == Seq::<(K, V)>::empty(),
    {
        Table { entries: Vec::new() }
    }

    /// How many entries there are.
    pub fn len(&self) -> (len: usize)
        ensures
            len == self.rows().len(),
    {
        self.entries.len()
    }

    /// The key of an entry.
    pub fn key_at(&self, i: usize) -> (key: &K)
        requires
            i < self.rows().len(),
        ensures
            *key == self.rows()[i as int].0,
    {
        &self.entries[i].0
    }

    /// The value of an entry.
    pub fn value_at(&self, i: usize) -> (value: &V)
        requires
            i < self.rows().len(),
        ensures
            *value == self.rows()[i as int].1,
    {
        &self.entries[i].1
    }

    /// The entries in order.
    pub fn into_rows(self) -> (rows: Vec<(K, V)>)
        ensures
            rows@ == self.rows(),
    {
        self.entries
    }

    /// Where the entry of `key` stands.
    fn find(&self, key: &K) -> (at: Option<usize>)
        requires
            self.valid(),
        ensures
            match at {
                Some(at) => at < self.entries@.len() && self.entries@[at as int].0.form()
                    == key.form(),
                None => forall|i: int|
                    0 <= i < self.entries@.len() ==> (#[trigger] self.entries@[i]).0.form()
                        != key.form(),
            },
            at is Some <==> self@.contains_key(key.form()),
    {
        proof {
            lemma_entries_map(self.entries@);
        }
        let mut i: usize = 0;
        while i < self.entries.len()
            invariant
                i <= self.entries@.len(),
                forall|k: int|
                    0 <= k < i ==> (#[trigger] self.entries@[k]).0.form() != key.form(),
                forall|k: int|
                    0 <= k < self.entries@.len() ==> self@.contains_key(
                        (#[trigger] self.entries@[k]).0.form(),
                    ),
            decreases self.entries@.len() - i,
        {
            if self.entries[i].0.same(key) {
                return Some(i);
            }
            i += 1;
        }
        None
    }

    /// The value under `key`.
    pub fn get(&self, key: &K) -> (value: Option<&V>)
        requires
            self.valid(),
        ensures
            match value {
                Some(value) => self@.contains_key(key.form()) && *value == self@[key.form()],
                None => !self@.contains_key(key.form()),
            },
    {
        proof {
            lemma_entries_map(self.entries@);
        }
        match self.find(key) {
            Some(at) => Some(&self.entries[at].1),
            None => None,
        }
    }

    /// Takes the entry of `key` out.
    pub fn remove(&mut self, key: &K) -> (value: Option<V>)
        requires
            old(self).valid(),
        ensures
            final(self).valid(),
            final(self)@ == old(self)@.remove(key.form()),
            match value {
                Some(value) => old(self)@.contains_key(key.form()) && value
                    == old(self)@[key.form()],
                None => !old(self)@.contains_key(key.form()),
            },
    {
        proof {
            lemma_entries_map(self.entries@);
        }
        match self.find(key) {
            Some(at) => {
                let ghost before = self.entries@;
                let entry = self.entries.remove(at);
                proof {
                    let after = self.entries@;
                    assert(after =~= before.remove(at as int));
                    assert forall|i: int, j: int| 0 <= i < j < after.len() implies (
                    #[trigger] after[i]).0.form() != (#[trigger] after[j]).0.form() by {
                        let a = if i < at { i } else { i + 1 };
                        let b = if j < at { j } else { j + 1 };
                        assert(before[a] == after[i] && before[b] == after[j]);
                    }
                    let map = old(self)@.remove(key.form());
                    assert forall|i: int| 0 <= i < after.len() implies map.contains_key(
                        (#[trigger] after[i]).0.form(),
                    ) && map[after[i].0.form()] == after[i].1 by {
                        let a = if i < at { i } else { i + 1 };
                        assert(before[a] == after[i]);
                        assert(before[at as int].0.form() == key.form());
                    }
                    assert forall|form: K::Form| #[trigger]
                        map.contains_key(form) implies exists|i: int|
                        0 <= i < after.len() && (#[trigger] after[i]).0.form() == form by {
                        let a = choose|i: int|
                            0 <= i < before.len() && (#[trigger] before[i]).0.form() == form;
                        let i = if a < at { a } else { a - 1 };
                        assert(after[i] == before[a]);
                    }
                    lemma_same_entries(after, map);
                }
                Some(entry.1)
            },
            None => {
                assert(self@ =~= self@.remove(key.form()));
                None
            },
        }
    }

    /// Puts `value` under `key`, in place of what stood there.
    pub fn insert(&mut self, key: K, value: V)
        requires
            old(self).valid(),
        ensures
            final(self).valid(),
            final(self)@ == old(self)@.insert(key.form(), value),
    {
        let _ = self.remove(&key);
        let ghost before = self.entries@;
        proof {
            lemma_entries_map(before);
        }
        self.entries.push((key, value));
        proof {
            let after = self.entries@;
            assert(after.drop_last() =~= before);
            assert forall|i: int, j: int| 0 <= i < j < after.len() implies (
            #[trigger] after[i]).0.form() != (#[trigger] after[j]).0.form() by {
                assert(before[i] == after[i]);
                if j < before.len() {
                    assert(before[j] == after[j]);
                }
            }
            assert(old(self)@.remove(key.form()).insert(key.form(), value) =~= old(self)@.insert(
                key.form(),
                value,
            ));
        }
    }
}

} // verus!
