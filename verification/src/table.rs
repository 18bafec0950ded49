//! Tables: mappings from hashable values to values.

use vstd::prelude::*;
use vstd::std_specs::cmp::PartialEqSpecImpl;
use crate::object::{HashableObject, Key, Object, Value};

verus! {

/// A mapping from hashable values to values. It holds each key once.
#[derive(Debug)]
pub struct Table {
    entries: Vec<(HashableObject, Object)>,
}

impl Clone for Table {
    /// A copy of the table, with copies of everything that it holds.
    fn clone(&self) -> (copy: Table)
        ensures
            copy@ == self@,
    {
        self.duplicate()
    }
}

impl PartialEq for Table {
    /// Two tables are equal where they have the same entries.
    fn eq(&self, other: &Table) -> (equal: bool) {
        self.same(other)
    }
}

impl PartialEqSpecImpl for Table {
    open spec fn obeys_eq_spec() -> bool {
        true
    }

    open spec fn eq_spec(&self, other: &Table) -> bool {
        self@ == other@
    }
}

/// The map that a sequence of entries stands for: each entry in turn is
/// inserted, so that of two entries with one key the later one stays.
pub open spec fn map_of(entries: Seq<(Key, Value)>) -> Map<Key, Value>
    decreases entries.len(),
{
    if entries.len() == 0 {
        Map::empty()
    } else {
        map_of(entries.drop_last()).insert(entries.last().0, entries.last().1)
    }
}

impl View for Table {
    type V = Map<Key, Value>;

    open spec fn view(&self) -> Map<Key, Value> {
        self.map()
    }
}

/// Whether no key occurs twice among the entries.
pub open spec fn distinct_keys(entries: Seq<(Key, Value)>) -> bool {
    forall|i: int, j: int|
        0 <= i < j < entries.len() ==> (#[trigger] entries[i]).0 != (#[trigger] entries[j]).0
}

/// The position of the last entry with key `k`, or -1 if there is none.
pub open spec fn last_position(entries: Seq<(Key, Value)>, k: Key) -> int
    decreases entries.len(),
{
    if entries.len() == 0 {
        -1
    } else if entries.last().0 == k {
        entries.len() - 1
    } else {
        last_position(entries.drop_last(), k)
    }
}

/// `last_position` finds the last entry with the key, if there is one.
pub proof fn lemma_last_position(entries: Seq<(Key, Value)>, k: Key)
    ensures
        -1 <= last_position(entries, k) < entries.len(),
        last_position(entries, k) >= 0 ==> entries[last_position(entries, k)].0 == k,
        forall|i: int|
            last_position(entries, k) < i < entries.len() ==> (#[trigger] entries[i]).0 != k,
    decreases entries.len(),
{
    if entries.len() > 0 && entries.last().0 != k {
        let front = entries.drop_last();
        lemma_last_position(front, k);
        assert forall|i: int| last_position(entries, k) < i < entries.len() implies (
        #[trigger] entries[i]).0 != k by {
            if i < front.len() {
                assert(entries[i] == front[i]);
            }
        }
    }
}

/// The map of a sequence of entries has exactly their keys, and gives each
/// key the value of the last entry that holds it.
pub proof fn lemma_map_of(entries: Seq<(Key, Value)>)
    ensures
        map_of(entries).dom().finite(),
        forall|k: Key| #[trigger]
            map_of(entries).contains_key(k) <==> last_position(entries, k) >= 0,
        forall|k: Key|
            last_position(entries, k) >= 0 ==> #[trigger] map_of(entries)[k]
                == entries[last_position(entries, k)].1,
    decreases entries.len(),
{
    if entries.len() > 0 {
        let front = entries.drop_last();
        lemma_map_of(front);
        assert forall|k: Key| last_position(entries, k) >= 0 implies #[trigger] map_of(
            entries,
        )[k] == entries[last_position(entries, k)].1 by {
            lemma_last_position(front, k);
            if entries.last().0 != k {
                assert(entries[last_position(front, k)] == front[last_position(front, k)]);
            }
        }
    }
}

/// Where no key occurs twice, the map has as many keys as there are entries.
pub proof fn lemma_map_of_len(entries: Seq<(Key, Value)>)
    requires
        distinct_keys(entries),
    ensures
        map_of(entries).dom().finite(),
        map_of(entries).len() == entries.len(),
    decreases entries.len(),
{
    if entries.len() > 0 {
        let front = entries.drop_last();
        let last = entries.last();
        assert forall|i: int, j: int| 0 <= i < j < front.len() implies (#[trigger] front[i]).0 != (
        #[trigger] front[j]).0 by {
            assert(front[i] == entries[i]);
            assert(front[j] == entries[j]);
        }
        lemma_map_of_len(front);
        lemma_map_of(front);
        lemma_last_position(front, last.0);
        if last_position(front, last.0) >= 0 {
            assert(front[last_position(front, last.0)] == entries[last_position(front, last.0)]);
        }
        assert(!map_of(front).contains_key(last.0));
    }
}

/// Giving the last entry with some key a new value is inserting that value
/// under the key.
pub proof fn lemma_map_of_update(entries: Seq<(Key, Value)>, k: Key, v: Value)
    requires
        last_position(entries, k) >= 0,
    ensures
        map_of(entries.update(last_position(entries, k), (k, v))) == map_of(entries).insert(k, v),
        distinct_keys(entries) ==> distinct_keys(
            entries.update(last_position(entries, k), (k, v)),
        ),
    decreases entries.len(),
{
    let at = last_position(entries, k);
    lemma_last_position(entries, k);
    let updated = entries.update(at, (k, v));
    if distinct_keys(entries) {
        assert forall|a: int, b: int| 0 <= a < b < updated.len() implies (#[trigger] updated[a]).0
            != (#[trigger] updated[b]).0 by {
            assert(entries[a].0 != entries[b].0);
        }
    }
    let front = entries.drop_last();
    if at == entries.len() - 1 {
        assert(updated.drop_last() == front);
        assert(map_of(updated) == map_of(entries).insert(k, v));
    } else {
        lemma_map_of_update(front, k, v);
        assert(updated.drop_last() == front.update(at, (k, v)));
        assert(updated.last() == entries.last());
        assert(map_of(updated) == map_of(entries).insert(k, v));
    }
}

/// A sequence of stored entries, each by its view.
pub open spec fn entries_view(entries: Seq<(HashableObject, Object)>) -> Seq<(Key, Value)> {
    Seq::new(entries.len(), |i: int| (entries[i].0@, entries[i].1@))
}

impl Table {
    /// The entries as they are stored, each by its view.
    pub closed spec fn pairs(&self) -> Seq<(Key, Value)>
        decreases self, 0nat,
    {
        Seq::new(
            self.entries.len() as nat,
            |i: int|
                if 0 <= i < self.entries.len() {
                    (self.entries[i].0.view(), self.entries[i].1.value())
                } else {
                    (Key::Undef, Value::Undef)
                },
        )
    }

    /// What the table is: the view of a `Table`.
    pub closed spec fn map(&self) -> Map<Key, Value>
        decreases self, 1nat,
    {
        map_of(self.pairs())
    }

    /// No key is stored twice.
    #[verifier::type_invariant]
    spec fn keys_once(&self) -> bool {
        distinct_keys(self.pairs())
    }

    proof fn lemma_pairs(&self)
        ensures
            self.pairs() == entries_view(self.entries@),
            self@ == map_of(self.pairs()),
    {
        assert(self.pairs() =~= entries_view(self.entries@));
    }

    /// A table without entries.
    pub fn new() -> (table: Table)
        ensures
            table@ == Map::<Key, Value>::empty(),
    {
        let entries: Vec<(HashableObject, Object)> = Vec::new();
        assert(Table { entries }.pairs() =~= Seq::empty());
        let table = Table { entries };
        proof {
            table.lemma_pairs();
        }
        table
    }

    /// The number of entries.
    pub fn len(&self) -> (n: usize)
        ensures
            self@.dom().finite(),
            n == self@.len(),
    {
        proof {
            use_type_invariant(self);
            self.lemma_pairs();
            lemma_map_of_len(self.pairs());
        }
        self.entries.len()
    }

    /// Whether the table has no entries.
    pub fn is_empty(&self) -> (empty: bool)
        ensures
            empty == (self@ == Map::<Key, Value>::empty()),
    {
        proof {
            self.lemma_pairs();
            if self.entries.len() == 0 {
                assert(self.pairs() =~= Seq::empty());
            } else {
                assert(self@.contains_key(self.pairs().last().0));
            }
        }
        self.entries.len() == 0
    }

    /// Where the last entry with key `k` is stored, or the number of entries
    /// if there is none.
    fn find(&self, k: &HashableObject) -> (at: usize)
        ensures
            at <= self.entries.len(),
            at < self.entries.len() ==> at == last_position(self.pairs(), k@),
            at == self.entries.len() ==> last_position(self.pairs(), k@) == -1,
    {
        let mut at: usize = self.entries.len();
        proof {
            self.lemma_pairs();
            lemma_last_position(self.pairs(), k@);
        }
        while at > 0
            invariant
                at <= self.entries.len(),
                self.pairs() == entries_view(self.entries@),
                last_position(self.pairs(), k@) < at,
                -1 <= last_position(self.pairs(), k@),
                last_position(self.pairs(), k@) >= 0 ==> self.pairs()[last_position(
                    self.pairs(),
                    k@,
                )].0 == k@,
                forall|j: int|
                    last_position(self.pairs(), k@) < j < self.entries.len() ==> (
                    #[trigger] self.pairs()[j]).0 != k@,
            decreases at,
        {
            at -= 1;
            if self.entries[at].0 == *k {
                assert(self.pairs()[at as int].0 == k@);
                return at;
            }
            assert(self.pairs()[at as int].0 != k@);
        }
        self.entries.len()
    }

    /// Whether the table has an entry with key `k`.
    pub fn contains_key(&self, k: &HashableObject) -> (found: bool)
        ensures
            found == self@.contains_key(k@),
    {
        proof {
            self.lemma_pairs();
            lemma_map_of(self.pairs());
        }
        self.find(k) < self.entries.len()
    }

    /// The value that the table holds for key `k`, if it holds one.
    pub fn get(&self, k: &HashableObject) -> (found: Option<&Object>)
        ensures
            found is Some <==> self@.contains_key(k@),
            found matches Some(v) ==> v@ == self@[k@],
    {
        proof {
            self.lemma_pairs();
            lemma_map_of(self.pairs());
        }
        let at = self.find(k);
        if at < self.entries.len() {
            assert(self.pairs()[at as int].1 == self.entries[at as int].1@);
            Some(&self.entries[at].1)
        } else {
            None
        }
    }

    /// Gives key `k` the value `v`, in place of the value that it had, if it
    /// had one.
    pub fn insert(&mut self, k: HashableObject, v: Object)
        ensures
            final(self)@ == old(self)@.insert(k@, v@),
    {
        proof {
            use_type_invariant(&*self);
            self.lemma_pairs();
        }
        let ghost before = self.pairs();
        let at = self.find(&k);
        let mut entries: Vec<(HashableObject, Object)> = Vec::new();
        assert(entries_view(entries@) =~= Seq::empty());
        core::mem::swap(&mut self.entries, &mut entries);
        if at < entries.len() {
            proof {
                lemma_map_of_update(before, k@, v@);
            }
            entries[at] = (k, v);
            assert(entries_view(entries@) =~= before.update(at as int, (k@, v@)));
        } else {
            entries.push((k, v));
            proof {
                let after = entries_view(entries@);
                assert(after =~= before.push((k@, v@)));
                assert(after.drop_last() =~= before);
                assert forall|i: int, j: int| 0 <= i < j < after.len() implies (
                #[trigger] after[i]).0 != (#[trigger] after[j]).0 by {
                    if j < before.len() {
                        assert(before[i].0 != before[j].0);
                    } else {
                        lemma_last_position(before, k@);
                        assert(before[i].0 != k@);
                    }
                }
            }
        }
        proof {
            assert(distinct_keys(entries_view(entries@)));
            assert(Table { entries }.pairs() =~= entries_view(entries@));
        }
        self.entries = entries;
        proof {
            self.lemma_pairs();
        }
    }

    /// Whether the two tables have the same entries, in any order.
    #[verifier::loop_isolation(false)]
    pub fn same(&self, other: &Table) -> (same: bool)
        ensures
            same == (self@ == other@),
        decreases self,
    {
        proof {
            self.lemma_pairs();
            other.lemma_pairs();
            lemma_map_of(self.pairs());
            lemma_map_of(other.pairs());
        }
        let mut i: usize = 0;
        while i < self.entries.len()
            invariant
                i <= self.entries.len(),
                self.pairs() == entries_view(self.entries@),
                self@ == map_of(self.pairs()),
                forall|j: int|
                    0 <= j < i ==> other@.contains_key((#[trigger] self.pairs()[j]).0),
                forall|j: int|
                    0 <= j < i && last_position(self.pairs(), (#[trigger] self.pairs()[j]).0) == j
                        ==> other@[self.pairs()[j].0] == self.pairs()[j].1,
            decreases self.entries.len() - i,
        {
            let key = &self.entries[i].0;
            proof {
                lemma_map_of(self.pairs());
                lemma_last_position(self.pairs(), key@);
                assert(self.pairs()[i as int].0 == key@);
            }
            let at = self.find(key);
            match other.get(key) {
                Some(value) => {
                    if at == i {
                        proof {
                            assert(self@[key@] == self.pairs()[i as int].1);
                            assert(self.pairs()[i as int].1 == self.entries@[i as int].1@);
                            assert(decreases_to!(self => self.entries));
                            assert(decreases_to!(self.entries => self.entries@));
                            assert(decreases_to!(self.entries@ => self.entries@[i as int]));
                            assert(decreases_to!(self.entries@[i as int] => self.entries@[i as int].1));
                        }
                        if !self.entries[i].1.same(value) {
                            return false;
                        }
                    }
                },
                None => {
                    assert(self@.contains_key(key@));
                    return false;
                },
            }
            i += 1;
        }
        let mut j: usize = 0;
        while j < other.entries.len()
            invariant
                j <= other.entries.len(),
                other.pairs() == entries_view(other.entries@),
                other@ == map_of(other.pairs()),
                forall|k: int| 0 <= k < j ==> self@.contains_key((#[trigger] other.pairs()[k]).0),
            decreases other.entries.len() - j,
        {
            let key = &other.entries[j].0;
            assert(other.pairs()[j as int].0 == key@);
            if !self.contains_key(key) {
                proof {
                    lemma_map_of(other.pairs());
                    lemma_last_position(other.pairs(), key@);
                    assert(other@.contains_key(key@));
                }
                return false;
            }
            j += 1;
        }
        proof {
            lemma_map_of(self.pairs());
            lemma_map_of(other.pairs());
            assert forall|k: Key| #[trigger] self@.contains_key(k) implies other@.contains_key(k)
                && other@[k] == self@[k] by {
                lemma_last_position(self.pairs(), k);
                let at = last_position(self.pairs(), k);
                assert(self.pairs()[at].0 == k);
                assert(other@[self.pairs()[at].0] == self.pairs()[at].1);
            }
            assert forall|k: Key| #[trigger] other@.contains_key(k) implies self@.contains_key(
                k,
            ) by {
                lemma_last_position(other.pairs(), k);
                let at = last_position(other.pairs(), k);
                assert(other.pairs()[at].0 == k);
            }
            assert(self@ =~= other@);
        }
        true
    }

    /// A copy of the table, with copies of everything that it holds.
    pub fn duplicate(&self) -> (copy: Table)
        ensures
            copy@ == self@,
        decreases self,
    {
        let mut entries: Vec<(HashableObject, Object)> = Vec::new();
        let mut i: usize = 0;
        proof {
            use_type_invariant(self);
            self.lemma_pairs();
        }
        while i < self.entries.len()
            invariant
                i <= self.entries.len(),
                self.pairs() == entries_view(self.entries@),
                entries@.len() == i,
                entries_view(entries@) == self.pairs().take(i as int),
            decreases self.entries.len() - i,
        {
            proof {
                assert(decreases_to!(self => self.entries));
                assert(decreases_to!(self.entries => self.entries@));
                assert(decreases_to!(self.entries@ => self.entries@[i as int]));
                assert(decreases_to!(self.entries@[i as int] => self.entries@[i as int].1));
            }
            let key = self.entries[i].0.clone();
            let value = self.entries[i].1.duplicate();
            let ghost before = entries@;
            entries.push((key, value));
            assert forall|j: int| 0 <= j <= i implies entries_view(entries@)[j]
                == self.pairs()[j] by {
                if j < i {
                    assert(entries_view(before)[j] == self.pairs().take(i as int)[j]);
                }
            }
            assert(entries_view(entries@) =~= self.pairs().take(i + 1));
            i += 1;
        }
        proof {
            assert(self.pairs().take(self.entries.len() as int) =~= self.pairs());
            assert(Table { entries }.pairs() =~= entries_view(entries@));
        }
        let copy = Table { entries };
        proof {
            copy.lemma_pairs();
        }
        copy
    }

    /// The entries of the table, each key once, in no particular order.
    pub fn into_entries(self) -> (entries: Vec<(HashableObject, Object)>)
        ensures
            map_of(entries_view(entries@)) == self@,
            distinct_keys(entries_view(entries@)),
    {
        proof {
            use_type_invariant(&self);
            self.lemma_pairs();
        }
        self.entries
    }
}

} // verus!
