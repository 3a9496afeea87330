//! The keyed table: records held under the key that each reports of itself.
//!
//! Two records with the same key do not both stay: the one that came later does.

use vstd::prelude::*;
use vstd::hash_map::StringHashMap;

verus! {

/// A record that can say under which key it belongs in a table.
pub trait Hashable {
    /// The key of the record.
    spec fn key(&self) -> Seq<char>;

    fn get_key(&self) -> (key: String)
        ensures
            key@ == self.key(),
    ;
}

/// The table that holds `records`, put in one by one from first to last.
pub open spec fn keyed<T: Hashable>(records: Seq<T>) -> Map<Seq<char>, T>
    decreases records.len(),
{
    if records.len() == 0 {
        Map::empty()
    } else {
        keyed(records.drop_last()).insert(records.last().key(), records.last())
    }
}

/// Whether `at` is the place of the last record of `records` that has the key `key`.
pub open spec fn is_last_with_key<T: Hashable>(records: Seq<T>, key: Seq<char>, at: int) -> bool {
    &&& 0 <= at < records.len()
    &&& records[at].key() == key
    &&& forall|later: int| at < later < records.len() ==> records[later].key() != key
}

/// The entry of a key in the table of `records` is the last record with that key, and the table
/// has an entry for exactly the keys that occur. The place of that record is returned, or -1
/// for a key that does not occur.
pub proof fn lemma_keyed_entry<T: Hashable>(records: Seq<T>, key: Seq<char>) -> (at: int)
    ensures
        keyed(records).contains_key(key) <==> at >= 0,
        at >= 0 ==> is_last_with_key(records, key, at) && keyed(records)[key] == records[at],
        at < 0 ==> at == -1 && forall|i: int| 0 <= i < records.len() ==> records[i].key() != key,
    decreases records.len(),
{
    if records.len() == 0 {
        -1
    } else if records.last().key() == key {
        records.len() - 1
    } else {
        let front = records.drop_last();
        let at = lemma_keyed_entry(front, key);
        assert forall|i: int| 0 <= i < front.len() implies front[i] == records[i] by {}
        if at >= 0 {
            assert(records[at] == front[at]);
            assert forall|later: int| at < later < records.len() implies records[later].key()
                != key by {
                if later < front.len() {
                    assert(front[later] == records[later]);
                }
            }
        } else {
            assert forall|i: int| 0 <= i < records.len() implies records[i].key() != key by {
                if i < front.len() {
                    assert(front[i] == records[i]);
                }
            }
        }
        at
    }
}

/// Last write wins: where no record after the one at `at` has its key, the table holds that
/// record under the key, whichever records with the same key came before it.
pub proof fn lemma_last_write_wins<T: Hashable>(records: Seq<T>, at: int)
    requires
        is_last_with_key(records, records[at].key(), at),
    ensures
        keyed(records).contains_key(records[at].key()),
        keyed(records)[records[at].key()] == records[at],
{
    let found = lemma_keyed_entry(records, records[at].key());
}

/// Of two records with one key the later one is kept: putting a record into a table replaces
/// what was there under its key and leaves every other entry alone.
pub proof fn lemma_later_record_replaces<T: Hashable>(records: Seq<T>, record: T)
    ensures
        keyed(records.push(record))[record.key()] == record,
        keyed(records.push(record)).dom() == keyed(records).dom().insert(record.key()),
        forall|k: Seq<char>|
            k != record.key() && keyed(records).contains_key(k) ==> keyed(records.push(record))[k]
                == keyed(records)[k],
{
    assert(records.push(record).drop_last() == records);
}

/// Every record of a table sits under its own key.
pub proof fn lemma_keyed_under_own_key<T: Hashable>(records: Seq<T>)
    ensures
        forall|k: Seq<char>| #[trigger]
            keyed(records).contains_key(k) ==> keyed(records)[k].key() == k,
{
    assert forall|k: Seq<char>| #[trigger] keyed(records).contains_key(k) implies keyed(
        records,
    )[k].key() == k by {
        let at = lemma_keyed_entry(records, k);
    }
}

/// A table of records, each under its own key.
#[verifier::reject_recursive_types(T)]
pub struct KeyedTable<T: Hashable> {
    keys: Vec<String>,
    slots: StringHashMap<T>,
}

impl<T: Hashable> View for KeyedTable<T> {
    type V = Map<Seq<char>, T>;

    closed spec fn view(&self) -> Map<Seq<char>, T> {
        self.slots@
    }
}

impl<T: Hashable> KeyedTable<T> {
    #[verifier::type_invariant]
    spec fn well_formed(self) -> bool {
        &&& self.keys.deep_view().no_duplicates()
        &&& forall|k: Seq<char>| #[trigger]
            self.slots@.contains_key(k) <==> self.keys.deep_view().contains(k)
        &&& forall|k: Seq<char>| #[trigger]
            self.slots@.contains_key(k) ==> self.slots@[k].key() == k
    }

    /// A table without records.
    pub fn new() -> (table: Self)
        ensures
            table@ == Map::<Seq<char>, T>::empty(),
    {
        let table = KeyedTable { keys: Vec::new(), slots: StringHashMap::new() };
        table
    }

    /// Puts `record` under its key. A record that was there under the same key is replaced.
    pub fn insert(&mut self, record: T)
        ensures
            final(self)@ == old(self)@.insert(record.key(), record),
    {
        // The table is taken apart and put together again, so that it is never seen with its
        // keys and its slots out of step.
        let mut taken = KeyedTable::new();
        core::mem::swap(self, &mut taken);
        proof {
            use_type_invariant(&taken);
        }
        let KeyedTable { mut keys, mut slots } = taken;
        let ghost old_keys = keys.deep_view();
        let ghost old_slots = slots@;
        let key = record.get_key();
        if !slots.contains_key(key.as_str()) {
            keys.push(key.clone());
            assert(keys.deep_view() =~= old_keys.push(key@));
        }
        slots.insert(key, record);
        proof {
            let new_keys = keys.deep_view();
            assert forall|k: Seq<char>| #[trigger]
                slots@.contains_key(k) <==> new_keys.contains(k) by {
                if k == key@ {
                    if old_slots.contains_key(k) {
                        let i = choose|i: int| 0 <= i < old_keys.len() && old_keys[i] == k;
                        assert(new_keys[i] == k);
                    } else {
                        assert(new_keys[old_keys.len() as int] == k);
                    }
                } else {
                    if old_slots.contains_key(k) {
                        let i = choose|i: int| 0 <= i < old_keys.len() && old_keys[i] == k;
                        assert(new_keys[i] == k);
                    }
                    if new_keys.contains(k) {
                        let i = choose|i: int| 0 <= i < new_keys.len() && new_keys[i] == k;
                        assert(old_keys[i] == k);
                    }
                }
            }
        }
        *self = KeyedTable { keys, slots };
    }

    /// The record under `key`, if there is one.
    pub fn get(&self, key: &str) -> (found: Option<&T>)
        ensures
            match found {
                Some(record) => self@.contains_key(key@) && *record == self@[key@]
                    && record.key() == key@,
                None => !self@.contains_key(key@),
            },
    {
        proof {
            use_type_invariant(self);
        }
        self.slots.get(key)
    }

    /// Whether a record is held under `key`.
    pub fn contains_key(&self, key: &str) -> (held: bool)
        ensures
            held == self@.contains_key(key@),
    {
        self.slots.contains_key(key)
    }

    /// The number of records.
    pub fn len(&self) -> (count: usize)
        ensures
            count == self@.len(),
    {
        self.slots.len()
    }

    /// Whether the table holds no record.
    pub fn is_empty(&self) -> (empty: bool)
        ensures
            empty == (self@.len() == 0),
    {
        self.slots.len() == 0
    }

    /// The keys of the table, each once.
    pub fn keys(&self) -> (keys: &Vec<String>)
        ensures
            keys.deep_view().no_duplicates(),
            forall|k: Seq<char>| keys.deep_view().contains(k) <==> self@.contains_key(k),
    {
        proof {
            use_type_invariant(self);
        }
        &self.keys
    }
}

/// Collects `records` into a table, first to last, so that of two records with one key the later
/// one stays.
pub fn build_table<T: Hashable>(records: Vec<T>) -> (table: KeyedTable<T>)
    ensures
        table@ == keyed(records@),
{
    let mut table = KeyedTable::new();
    let ghost all = records@;
    for record in it: records.into_iter()
        invariant
            it.seq() == all,
            table@ == keyed(all.take(it.index() as int)),
    {
        proof {
            let n = it.index() as int;
            assert(all.take(n + 1).drop_last() == all.take(n));
            assert(all.take(n + 1).last() == record);
        }
        table.insert(record);
    }
    proof {
        assert(all.take(all.len() as int) == all);
    }
    table
}

} // verus!
