//! Tables from text keys to values, with at most one value per key.
//!
//! vstd specifies `std::collections::HashMap` only for key types that obey its hash key model,
//! and `String` is not among them: after inserting a `String` key nothing about the map can be
//! proved. So the table keeps its entries in a `Vec` with unique keys.
use vstd::prelude::*;

use crate::text::str_equal;

verus! {

/// The map that inserting `entries` one after another, first to last, builds: where a key occurs
/// more than once, its last value stands.
pub open spec fn map_of_entries<X>(entries: Seq<(Seq<char>, X)>) -> Map<Seq<char>, X>
    decreases entries.len(),
{
    if entries.len() == 0 {
        Map::empty()
    } else {
        map_of_entries(entries.drop_last()).insert(entries.last().0, entries.last().1)
    }
}

/// In the map that a sequence of entries builds, a key holds the value of its last entry.
pub proof fn lemma_map_of_entries_last<X>(entries: Seq<(Seq<char>, X)>, i: int)
    requires
        0 <= i < entries.len(),
        forall|j: int| i < j < entries.len() ==> entries[j].0 != entries[i].0,
    ensures
        map_of_entries(entries).dom().contains(entries[i].0),
        map_of_entries(entries)[entries[i].0] == entries[i].1,
    decreases entries.len(),
{
    if i < entries.len() - 1 {
        let shorter = entries.drop_last();
        assert forall|j: int| i < j < shorter.len() implies shorter[j].0 != shorter[i].0 by {
            assert(shorter[j] == entries[j]);
        }
        lemma_map_of_entries_last(shorter, i);
        assert(shorter[i] == entries[i]);
    }
}

/// The keys of the map that a sequence of entries builds are exactly the keys of its entries.
pub proof fn lemma_map_of_entries_dom<X>(entries: Seq<(Seq<char>, X)>, k: Seq<char>)
    ensures
        map_of_entries(entries).dom().contains(k) <==> exists|i: int|
            0 <= i < entries.len() && #[trigger] entries[i].0 == k,
    decreases entries.len(),
{
    if entries.len() > 0 {
        let shorter = entries.drop_last();
        lemma_map_of_entries_dom(shorter, k);
        if map_of_entries(entries).dom().contains(k) {
            if k != entries.last().0 {
                let i = choose|i: int| 0 <= i < shorter.len() && #[trigger] shorter[i].0 == k;
                assert(entries[i] == shorter[i]);
            } else {
                assert(entries[entries.len() - 1].0 == k);
            }
        }
        if exists|i: int| 0 <= i < entries.len() && #[trigger] entries[i].0 == k {
            let i = choose|i: int| 0 <= i < entries.len() && #[trigger] entries[i].0 == k;
            if i < entries.len() - 1 {
                assert(shorter[i] == entries[i]);
            }
        }
    }
}

/// The view of a sequence of keyed values: each key by its text, each value by its view.
pub open spec fn entry_views<V: View>(pairs: Seq<(String, V)>) -> Seq<(Seq<char>, V::V)> {
    pairs.map_values(|p: (String, V)| (p.0@, p.1@))
}

/// No key occurs twice among the entries.
pub open spec fn unique_keys<V>(entries: Seq<(String, V)>) -> bool {
    forall|i: int, j: int|
        0 <= i < entries.len() && 0 <= j < entries.len() && i != j ==> entries[i].0@ != entries[j].0@
}

/// `new` is `old` with entry `i` stored: either in place of the entry of the same key, or after
/// the last entry where no entry has that key; every other entry is unchanged.
pub open spec fn stored_at<V>(old: Seq<(String, V)>, new: Seq<(String, V)>, i: int) -> bool {
    &&& 0 <= i < new.len()
    &&& (new.len() == old.len() && old[i].0@ == new[i].0@) || (new.len() == old.len() + 1 && i
        == old.len() && forall|j: int| 0 <= j < old.len() ==> old[j].0@ != new[i].0@)
    &&& forall|j: int| 0 <= j < new.len() && j != i ==> new[j] == old[j]
}

/// Storing an entry as [`stored_at`] describes keeps the keys unique.
pub proof fn lemma_store_keeps_keys_unique<V>(old: Seq<(String, V)>, new: Seq<(String, V)>, i: int)
    requires
        unique_keys(old),
        stored_at(old, new, i),
    ensures
        unique_keys(new),
{
    assert forall|a: int, b: int| 0 <= a < new.len() && 0 <= b < new.len() && a != b implies new[a].0@
        != new[b].0@ by {
        if a != i {
            assert(new[a] == old[a]);
        }
        if b != i {
            assert(new[b] == old[b]);
        }
    }
}

/// In the map that storing `pairs` one after another builds, the key of the last pair with that
/// key holds that pair's value, as given.
pub proof fn lemma_entry_views_last<V: View>(pairs: Seq<(String, V)>, i: int)
    requires
        0 <= i < pairs.len(),
        forall|j: int| i < j < pairs.len() ==> pairs[j].0@ != pairs[i].0@,
    ensures
        map_of_entries(entry_views(pairs)).dom().contains(pairs[i].0@),
        map_of_entries(entry_views(pairs))[pairs[i].0@] == pairs[i].1@,
{
    let es = entry_views(pairs);
    assert forall|j: int| i < j < es.len() implies es[j].0 != es[i].0 by {
        assert(es[j].0 == pairs[j].0@);
    }
    lemma_map_of_entries_last(es, i);
}

/// Values found by their text key; no key occurs twice.
pub struct KeyTable<V: View> {
    entries: Vec<(String, V)>,
}

impl<V: View> View for KeyTable<V> {
    type V = Map<Seq<char>, V::V>;

    closed spec fn view(&self) -> Map<Seq<char>, V::V> {
        Map::new(
            |k: Seq<char>| exists|i: int| 0 <= i < self.entries@.len() && self.entries@[i].0@ == k,
            |k: Seq<char>|
                self.entries@[choose|i: int|
                    0 <= i < self.entries@.len() && self.entries@[i].0@ == k].1@,
        )
    }
}

impl<V: View> KeyTable<V> {
    #[verifier::type_invariant]
    closed spec fn keys_unique(self) -> bool {
        unique_keys(self.entries@)
    }

    /// Storing entry `i` of `self` over `old` (in place of an entry of the same key, or after
    /// the last entry) maps that key to that entry's value and leaves every other key as it was.
    proof fn lemma_store(self, old: Self, i: int)
        requires
            old.keys_unique(),
            self.keys_unique(),
            stored_at(old.entries@, self.entries@, i),
        ensures
            self@ == old@.insert(self.entries@[i].0@, self.entries@[i].1@),
    {
        let k = self.entries@[i].0@;
        let v = self.entries@[i].1@;
        self.lemma_lookup(i);
        assert forall|q: Seq<char>| #[trigger] self@.dom().contains(q) <==> old@.insert(k, v).dom().contains(q) by {
            if q != k {
                if self@.dom().contains(q) {
                    let j = choose|j: int| 0 <= j < self.entries@.len() && self.entries@[j].0@ == q;
                    assert(old.entries@[j] == self.entries@[j]);
                }
                if old@.dom().contains(q) {
                    let j = choose|j: int| 0 <= j < old.entries@.len() && old.entries@[j].0@ == q;
                    assert(old.entries@[j] == self.entries@[j]);
                }
            }
        }
        assert forall|q: Seq<char>| #[trigger] self@.dom().contains(q) && q != k implies self@[q] == old@[q] by {
            let j = choose|j: int| 0 <= j < self.entries@.len() && self.entries@[j].0@ == q;
            assert(old.entries@[j] == self.entries@[j]);
            self.lemma_lookup(j);
            old.lemma_lookup(j);
        }
        assert(self@ =~= old@.insert(k, v));
    }

    proof fn lemma_lookup(self, i: int)
        requires
            self.keys_unique(),
            0 <= i < self.entries@.len(),
        ensures
            self@.dom().contains(self.entries@[i].0@),
            self@[self.entries@[i].0@] == self.entries@[i].1@,
    {
        let k = self.entries@[i].0@;
        assert(self@.dom().contains(k));
        let j = choose|j: int| 0 <= j < self.entries@.len() && self.entries@[j].0@ == k;
        assert(i == j);
    }

    /// The empty table.
    pub fn new() -> (r: Self)
        ensures
            r@ == Map::<Seq<char>, V::V>::empty(),
    {
        let r = KeyTable { entries: Vec::new() };
        assert(r@ =~= Map::<Seq<char>, V::V>::empty());
        r
    }

    /// Where `key` is stored.
    fn position(&self, key: &str) -> (r: Option<usize>)
        ensures
            r is Some ==> r->Some_0 < self.entries@.len() && self.entries@[r->Some_0 as int].0@
                == key@,
            r is None ==> forall|j: int| 0 <= j < self.entries@.len() ==> self.entries@[j].0@ != key@,
    {
        let n = self.entries.len();
        let mut i: usize = 0;
        while i < n
            invariant
                n == self.entries@.len(),
                i <= n,
                forall|j: int| 0 <= j < i ==> self.entries@[j].0@ != key@,
            decreases n - i,
        {
            if str_equal(self.entries[i].0.as_str(), key) {
                return Some(i);
            }
            i = i + 1;
        }
        None
    }

    /// The value stored under `key`.
    pub fn get(&self, key: &str) -> (r: Option<&V>)
        ensures
            r is Some ==> self@.dom().contains(key@) && r->Some_0@ == self@[key@],
            r is None ==> !self@.dom().contains(key@),
    {
        proof {
            use_type_invariant(self);
        }
        match self.position(key) {
            Some(i) => {
                proof {
                    self.lemma_lookup(i as int);
                }
                Some(&self.entries[i].1)
            },
            None => None,
        }
    }

    /// The table with `value` stored under `key`, in place of any earlier value of that key.
    pub fn with_entry(self, key: String, value: V) -> (r: Self)
        ensures
            r@ == self@.insert(key@, value@),
    {
        proof {
            use_type_invariant(&self);
        }
        let ghost old_table = self;
        let found = self.position(key.as_str());
        let KeyTable { mut entries } = self;
        let n = entries.len();
        let i = match found {
            Some(i) => {
                entries.set(i, (key, value));
                i
            },
            None => {
                entries.push((key, value));
                n
            },
        };
        proof {
            lemma_store_keeps_keys_unique(old_table.entries@, entries@, i as int);
        }
        let r = KeyTable { entries };
        proof {
            r.lemma_store(old_table, i as int);
        }
        r
    }

    /// The table that storing `pairs` one after another builds; the last value of a repeated key
    /// stands.
    pub fn from_pairs(pairs: Vec<(String, V)>) -> (r: Self)
        ensures
            r@ == map_of_entries(entry_views(pairs@)),
    {
        let ghost all = entry_views(pairs@);
        let mut rest = pairs;
        let mut table = KeyTable::new();
        let n = rest.len();
        let mut done: usize = 0;
        while done < n
            invariant
                n == all.len(),
                done <= n,
                rest@.len() == n - done,
                forall|j: int|
                    0 <= j < rest@.len() ==> (#[trigger] rest@[j].0@, rest@[j].1@) == all[done + j],
                table@ == map_of_entries(all.take(done as int)),
            decreases n - done,
        {
            let ghost before = rest@;
            let (key, value) = rest.remove(0);
            assert((key@, value@) == all[done as int]);
            assert forall|j: int| 0 <= j < rest@.len() implies (#[trigger] rest@[j].0@, rest@[j].1@)
                == all[done + 1 + j] by {
                assert(rest@[j] == before[j + 1]);
            }
            table = table.with_entry(key, value);
            done = done + 1;
            assert(all.take(done as int).drop_last() =~= all.take(done - 1));
        }
        assert(all.take(n as int) =~= all);
        table
    }
}

} // verus!
