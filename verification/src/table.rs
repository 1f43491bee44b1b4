//! A table of values keyed by name, kept in increasing order of name.
//!
//! Profiles and the named windows of a profile are held in such tables, so
//! that listing them and launching them follows the order of their names.

use vstd::prelude::*;

use crate::lists::{first_where, lemma_first_where_found};
use crate::text::{
    chars_less, chars_of, lemma_text_less_irreflexive, lemma_text_less_total,
    lemma_text_less_transitive, text_less,
};

verus! {

/// Whether each name is less than every later one.
pub open spec fn names_increasing(names: Seq<Seq<char>>) -> bool {
    forall|i: int, j: int| 0 <= i < j < names.len() ==> text_less(names[i], names[j])
}

/// Where `name` goes among names in increasing order: after every name
/// that is less than it.
pub open spec fn insert_position(names: Seq<Seq<char>>, name: Seq<char>) -> int
    decreases names.len(),
{
    if names.len() == 0 {
        0
    } else if text_less(names.last(), name) {
        names.len() as int
    } else {
        insert_position(names.drop_last(), name)
    }
}

/// In increasing names, the position after the names less than `name`, and
/// before the first that is not, is `insert_position`.
pub proof fn lemma_insert_position(names: Seq<Seq<char>>, name: Seq<char>, pos: int)
    requires
        names_increasing(names),
        0 <= pos <= names.len(),
        forall|j: int| 0 <= j < pos ==> text_less(#[trigger] names[j], name),
        pos < names.len() ==> !text_less(names[pos], name),
    ensures
        insert_position(names, name) == pos,
    decreases names.len(),
{
    if names.len() > 0 && pos < names.len() {
        let n = names.len() - 1;
        if pos < n {
            assert(text_less(names[pos], names[n]));
            if text_less(names[n], name) {
                lemma_text_less_transitive(names[pos], names[n], name);
            }
        }
        let rest = names.drop_last();
        assert forall|a: int, b: int| 0 <= a < b < rest.len() implies text_less(rest[a], rest[b]) by {
            assert(rest[a] == names[a] && rest[b] == names[b]);
        }
        assert forall|j: int| 0 <= j < pos implies text_less(#[trigger] rest[j], name) by {
            assert(rest[j] == names[j]);
        }
        lemma_insert_position(rest, name, pos);
    }
}

/// The names of a sequence of entries.
pub open spec fn entry_names<V>(entries: Seq<(String, V)>) -> Seq<Seq<char>> {
    entries.map_values(|e: (String, V)| e.0@)
}

/// The values of a sequence of entries.
pub open spec fn entry_values<V>(entries: Seq<(String, V)>) -> Seq<V> {
    entries.map_values(|e: (String, V)| e.1)
}

/// Values keyed by name, in increasing order of name; each name occurs once.
#[derive(Debug)]
pub struct NamedTable<V> {
    entries: Vec<(String, V)>,
}

impl<V: Clone> Clone for NamedTable<V> {
    /// A copy with the same names, in the same order; the values are cloned.
    fn clone(&self) -> (t: Self)
        ensures
            t.names() == self.names(),
            t.values().len() == self.values().len(),
            forall|i: int|
                0 <= i < self.values().len() ==> cloned::<V>(self.values()[i], #[trigger] t.values()[i]),
    {
        proof {
            use_type_invariant(self);
        }
        let mut entries: Vec<(String, V)> = Vec::new();
        let mut i: usize = 0;
        while i < self.entries.len()
            invariant
                i <= self.entries.len(),
                entry_names(entries@) =~= self.names().take(i as int),
                entries@.len() == i,
                forall|j: int| 0 <= j < i ==> cloned::<V>(self.entries@[j].1, #[trigger] entries@[j].1),
            decreases self.entries.len() - i,
        {
            let name = self.entries[i].0.clone();
            let value = self.entries[i].1.clone();
            assert(name@ == self.names()[i as int]);
            let ghost before = entries@;
            entries.push((name, value));
            assert(entries@ == before.push((name, value)));
            assert(entry_names(entries@) == entry_names(before).push(name@));
            i = i + 1;
            assert(entry_names(entries@) =~= self.names().take(i as int));
        }
        assert(self.names().take(i as int) =~= self.names());
        let t = NamedTable { entries };
        assert forall|j: int| 0 <= j < self.values().len() implies cloned::<V>(self.values()[j], #[trigger] t.values()[j]) by {
            assert(self.values()[j] == self.entries@[j].1);
            assert(t.values()[j] == t.entries@[j].1);
        }
        t
    }
}

impl<V> NamedTable<V> {
    #[verifier::type_invariant]
    spec fn ordered(self) -> bool {
        names_increasing(self.names())
    }

    /// The names, in the order of the table.
    pub closed spec fn names(self) -> Seq<Seq<char>> {
        entry_names(self.entries@)
    }

    /// The values, in the order of the table.
    pub closed spec fn values(self) -> Seq<V> {
        entry_values(self.entries@)
    }

    /// The value held under `name`, if any.
    pub open spec fn lookup(self, name: Seq<char>) -> Option<V> {
        match first_where(self.indices(), self.holds_name(name)) {
            Some(i) => Some(self.values()[i]),
            None => None,
        }
    }

    /// Whether the name at a position is `name`.
    pub open spec fn holds_name(self, name: Seq<char>) -> spec_fn(int) -> bool {
        |i: int| self.names()[i] == name
    }

    /// The positions of the table, in order.
    pub open spec fn indices(self) -> Seq<int> {
        Seq::new(self.names().len(), |i: int| i)
    }

    /// Where `name` stands at position `i`, `lookup` gives the value there;
    /// where `name` stands nowhere, it gives nothing.
    pub proof fn lemma_lookup(self, name: Seq<char>)
        requires
            names_increasing(self.names()),
        ensures
            forall|i: int|
                0 <= i < self.names().len() && #[trigger] self.names()[i] == name ==> self.lookup(
                    name,
                ) == Some(self.values()[i]),
            (forall|i: int| 0 <= i < self.names().len() ==> #[trigger] self.names()[i] != name)
                ==> self.lookup(name) is None,
    {
        let p = self.holds_name(name);
        lemma_first_where_found(self.indices(), p);
        assert forall|i: int|
            0 <= i < self.names().len() && #[trigger] self.names()[i] == name implies self.lookup(
                name,
            ) == Some(self.values()[i]) by {
            assert(self.indices()[i] == i);
            if first_where(self.indices(), p) is None {
                assert(!p(self.indices()[i]));
            } else {
                let j = first_where(self.indices(), p)->0;
                let k = choose|k: int| 0 <= k < self.indices().len() && self.indices()[k] == j;
                assert(self.indices()[k] == k);
                if j < i {
                    lemma_text_less_irreflexive(name);
                    assert(text_less(self.names()[j], self.names()[i]));
                } else if i < j {
                    lemma_text_less_irreflexive(name);
                    assert(text_less(self.names()[i], self.names()[j]));
                }
            }
        }
        if first_where(self.indices(), p) is Some {
            let j = first_where(self.indices(), p)->0;
            let k = choose|k: int| 0 <= k < self.indices().len() && self.indices()[k] == j;
            assert(self.indices()[k] == k);
            assert(self.names()[j] == name);
        }
    }

    /// An empty table.
    pub fn new() -> (t: Self)
        ensures
            t.names() == Seq::<Seq<char>>::empty(),
            t.values() == Seq::<V>::empty(),
    {
        let t = NamedTable { entries: Vec::new() };
        assert(t.names() =~= Seq::<Seq<char>>::empty());
        assert(t.values() =~= Seq::<V>::empty());
        t
    }

    /// The number of entries; the names are in increasing order.
    pub fn len(&self) -> (n: usize)
        ensures
            n == self.names().len(),
            n == self.values().len(),
            names_increasing(self.names()),
    {
        proof {
            use_type_invariant(self);
        }
        self.entries.len()
    }

    /// Whether the table has no entries.
    pub fn is_empty(&self) -> (b: bool)
        ensures
            b == (self.names().len() == 0),
    {
        self.entries.len() == 0
    }

    /// The name at position `i`.
    pub fn name_at(&self, i: usize) -> (s: &String)
        requires
            i < self.names().len(),
        ensures
            s@ == self.names()[i as int],
    {
        &self.entries[i].0
    }

    /// The value at position `i`.
    pub fn value_at(&self, i: usize) -> (v: &V)
        requires
            i < self.values().len(),
        ensures
            *v == self.values()[i as int],
    {
        &self.entries[i].1
    }

    /// The position of `name`, if it is in the table.
    fn position(&self, name: &Vec<char>) -> (r: Option<usize>)
        requires
            names_increasing(self.names()),
        ensures
            match r {
                Some(i) => i < self.names().len() && self.names()[i as int] == name@,
                None => forall|i: int|
                    0 <= i < self.names().len() ==> #[trigger] self.names()[i] != name@,
            },
    {
        let mut i: usize = 0;
        while i < self.entries.len()
            invariant
                i <= self.entries.len(),
                forall|j: int| 0 <= j < i ==> #[trigger] self.names()[j] != name@,
            decreases self.entries.len() - i,
        {
            let k = chars_of(self.entries[i].0.as_str());
            assert(k@ == self.names()[i as int]);
            if !chars_less(&k, name) && !chars_less(name, &k) {
                proof {
                    lemma_text_less_total(k@, name@);
                }
                return Some(i);
            }
            proof {
                lemma_text_less_irreflexive(name@);
            }
            i = i + 1;
        }
        None
    }

    /// The value held under `name`, if any.
    pub fn get(&self, name: &str) -> (r: Option<&V>)
        ensures
            match r {
                Some(v) => self.lookup(name@) == Some(*v),
                None => self.lookup(name@) is None,
            },
    {
        proof {
            use_type_invariant(self);
            self.lemma_lookup(name@);
        }
        let key = chars_of(name);
        match self.position(&key) {
            Some(i) => Some(&self.entries[i].1),
            None => None,
        }
    }

    /// Whether `name` is in the table.
    pub fn contains_key(&self, name: &str) -> (b: bool)
        ensures
            b == (self.lookup(name@) is Some),
    {
        self.get(name).is_some()
    }

    /// Holds `value` under `name`, replacing and returning any value held
    /// under it before. Names stay in increasing order.
    pub fn insert(&mut self, name: String, value: V) -> (previous: Option<V>)
        ensures
            previous == old(self).lookup(name@),
            names_increasing(final(self).names()),
            final(self).names() == if previous is Some {
                old(self).names()
            } else {
                old(self).names().insert(insert_position(old(self).names(), name@), name@)
            },
            final(self).values() == if previous is Some {
                old(self).values().update(insert_position(old(self).names(), name@), value)
            } else {
                old(self).values().insert(insert_position(old(self).names(), name@), value)
            },
            forall|k: Seq<char>| #[trigger]
                final(self).lookup(k) == if k == name@ {
                    Some(value)
                } else {
                    old(self).lookup(k)
                },
    {
        proof {
            use_type_invariant(&*self);
        }
        let ghost old_names = self.names();
        let ghost old_values = self.values();
        let ghost old_table = *self;
        proof {
            old_table.lemma_lookup(name@);
        }
        let key = chars_of(name.as_str());
        let mut entries: Vec<(String, V)> = Vec::new();
        std::mem::swap(&mut entries, &mut self.entries);
        assert(entry_names(entries@) == old_names);
        // find the first position whose name is not less than `name`
        let mut i: usize = 0;
        while i < entries.len()
            invariant
                i <= entries.len(),
                entry_names(entries@) == old_names,
                names_increasing(old_names),
                forall|j: int| 0 <= j < i ==> text_less(#[trigger] old_names[j], key@),
                key@ == name@,
            ensures
                i <= entries.len(),
                forall|j: int| 0 <= j < i ==> text_less(#[trigger] old_names[j], key@),
                i < entries.len() ==> !text_less(old_names[i as int], key@),
            decreases entries.len() - i,
        {
            let k = chars_of(entries[i].0.as_str());
            assert(k@ == old_names[i as int]);
            if !chars_less(&k, &key) {
                break;
            }
            i = i + 1;
        }
        let ghost pos = i as int;
        proof {
            lemma_insert_position(old_names, name@, pos);
        }
        let same = if i < entries.len() {
            let k = chars_of(entries[i].0.as_str());
            assert(k@ == old_names[i as int]);
            !chars_less(&key, &k)
        } else {
            false
        };
        let previous = if same {
            proof {
                lemma_text_less_total(old_names[pos], name@);
            }
            assert(old_names[pos] == name@) by {
                assert(!text_less(old_names[pos], key@));
            }
            let (_, v) = entries.remove(i);
            entries.insert(i, (name, value));
            Some(v)
        } else {
            entries.insert(i, (name, value));
            None
        };
        let ghost new_names = entry_names(entries@);
        let ghost new_values = entry_values(entries@);
        proof {
            // names stay increasing
            if same {
                assert(new_names =~= old_names);
                assert(new_values =~= old_values.update(pos, value));
            } else {
                assert(new_names =~= old_names.insert(pos, name@));
                assert(new_values =~= old_values.insert(pos, value));
                if pos < old_names.len() {
                    lemma_text_less_total(old_names[pos], name@);
                    assert(text_less(name@, old_names[pos])) by {
                        assert(!text_less(old_names[pos], key@));
                        if old_names[pos] == name@ {
                            assert(false);
                        }
                    }
                }
                assert forall|a: int, b: int| 0 <= a < b < new_names.len() implies text_less(
                    new_names[a],
                    new_names[b],
                ) by {
                    if a < pos && b == pos {
                    } else if a < pos && b > pos {
                        assert(text_less(old_names[a], name@));
                        assert(text_less(name@, old_names[pos]));
                        if pos < b - 1 {
                            assert(text_less(old_names[pos], old_names[b - 1]));
                            lemma_text_less_transitive(name@, old_names[pos], old_names[b - 1]);
                        }
                        lemma_text_less_transitive(old_names[a], name@, old_names[b - 1]);
                    } else if a == pos {
                        if pos < b - 1 {
                            assert(text_less(old_names[pos], old_names[b - 1]));
                            lemma_text_less_transitive(name@, old_names[pos], old_names[b - 1]);
                        }
                    } else if a > pos {
                        assert(new_names[a] == old_names[a - 1]);
                        assert(new_names[b] == old_names[b - 1]);
                    }
                }
            }
        }
        self.entries = entries;
        proof {
            assert(self.names() == new_names);
            assert(self.values() == new_values);
            let t = *self;
            t.lemma_lookup(name@);
            if same {
                assert(previous == old_table.lookup(name@));
            } else {
                if pos < old_names.len() {
                    assert(old_names[pos] != name@);
                }
                assert forall|j: int| 0 <= j < old_names.len() implies #[trigger] old_names[j]
                    != name@ by {
                    if j < pos {
                        lemma_text_less_irreflexive(name@);
                    } else if j > pos {
                        assert(text_less(old_names[pos], old_names[j]));
                        lemma_text_less_total(old_names[pos], name@);
                        if old_names[j] == name@ {
                            assert(!text_less(old_names[pos], key@));
                        }
                    }
                }
            }
            assert forall|k: Seq<char>| #[trigger]
                t.lookup(k) == if k == name@ {
                    Some(value)
                } else {
                    old_table.lookup(k)
                } by {
                old_table.lemma_lookup(k);
                t.lemma_lookup(k);
                if k == name@ {
                    assert(t.names()[pos] == k);
                } else {
                    if same {
                        assert forall|j: int| 0 <= j < t.names().len() && #[trigger] t.names()[j]
                            == k implies t.values()[j] == old_values[j] by {}
                    } else {
                        assert forall|j: int| 0 <= j < old_names.len() && #[trigger] old_names[j]
                            == k implies t.lookup(k) == Some(old_values[j]) by {
                            if j < pos {
                                assert(t.names()[j] == k);
                            } else {
                                assert(t.names()[j + 1] == k);
                            }
                        }
                        assert forall|j: int| 0 <= j < t.names().len() && #[trigger] t.names()[j]
                            == k implies old_table.lookup(k) == Some(t.values()[j]) by {
                            if j < pos {
                                assert(old_names[j] == k);
                            } else if j > pos {
                                assert(old_names[j - 1] == k);
                            }
                        }
                    }
                }
            }
        }
        previous
    }
}

} // verus!
