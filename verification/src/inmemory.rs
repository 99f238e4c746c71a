//! The in-memory backend: a guarded table of key/value pairs offering
//! byte-for-byte the same CRUD contract as the persistent log, used for
//! parity testing and low-latency operation.
//!
//! The table holds each current key exactly once; the mapping it represents
//! is read off the entries directly, with no tombstones involved.

use crate::database::Database;
use crate::error::Error;
use vstd::prelude::*;

verus! {

/// No key occurs twice among the entries.
pub open spec fn keys_unique(s: Seq<(Seq<char>, Seq<char>)>) -> bool {
    forall|i: int, j: int| 0 <= i < j < s.len() ==> (#[trigger] s[i]).0 != (#[trigger] s[j]).0
}

/// The mapping a sequence of entries represents.
pub open spec fn as_map(s: Seq<(Seq<char>, Seq<char>)>) -> Map<Seq<char>, Seq<char>>
    decreases s.len(),
{
    if s.len() == 0 {
        Map::empty()
    } else {
        as_map(s.drop_last()).insert(s.last().0, s.last().1)
    }
}

/// A key is in the represented mapping exactly when some entry carries it.
pub proof fn lemma_as_map_contains(s: Seq<(Seq<char>, Seq<char>)>, key: Seq<char>)
    ensures
        as_map(s).contains_key(key) <==> exists|i: int|
            0 <= i < s.len() && (#[trigger] s[i]).0 == key,
    decreases s.len(),
{
    if s.len() > 0 {
        lemma_as_map_contains(s.drop_last(), key);
        if s.last().0 == key {
            assert(s[s.len() - 1].0 == key);
        } else if as_map(s).contains_key(key) {
            let i = choose|i: int| 0 <= i < s.drop_last().len() && (#[trigger] s.drop_last()[i]).0
                == key;
            assert(s[i].0 == key);
        } else {
            if exists|i: int| 0 <= i < s.len() && (#[trigger] s[i]).0 == key {
                let i = choose|i: int| 0 <= i < s.len() && (#[trigger] s[i]).0 == key;
                assert(s.drop_last()[i].0 == key);
            }
        }
    }
}

/// With unique keys, entry `i` gives the represented value of its key.
pub proof fn lemma_as_map_index(s: Seq<(Seq<char>, Seq<char>)>, i: int)
    requires
        keys_unique(s),
        0 <= i < s.len(),
    ensures
        as_map(s).contains_key(s[i].0),
        as_map(s)[s[i].0] == s[i].1,
    decreases s.len(),
{
    if i == s.len() - 1 {
    } else {
        assert(keys_unique(s.drop_last()));
        assert(s.drop_last()[i] == s[i]);
        lemma_as_map_index(s.drop_last(), i);
        assert(s[i].0 != s.last().0);
    }
}

/// Removing entry `i` removes exactly its key from the represented mapping.
pub proof fn lemma_as_map_remove(s: Seq<(Seq<char>, Seq<char>)>, i: int)
    requires
        keys_unique(s),
        0 <= i < s.len(),
    ensures
        as_map(s.remove(i)) == as_map(s).remove(s[i].0),
    decreases s.len(),
{
    if i == s.len() - 1 {
        assert(s.remove(i) =~= s.drop_last());
        lemma_as_map_contains(s.drop_last(), s[i].0);
        if as_map(s.drop_last()).contains_key(s[i].0) {
            let j = choose|j: int|
                0 <= j < s.drop_last().len() && (#[trigger] s.drop_last()[j]).0 == s[i].0;
            assert(s[j].0 == s[i].0);
            assert(false);
        }
        assert(as_map(s).remove(s[i].0) =~= as_map(s.drop_last()));
    } else {
        assert(keys_unique(s.drop_last()));
        assert(s.drop_last()[i] == s[i]);
        lemma_as_map_remove(s.drop_last(), i);
        assert(s.remove(i).drop_last() =~= s.drop_last().remove(i));
        assert(s.remove(i).last() == s.last());
        assert(s[i].0 != s.last().0);
        assert(as_map(s.drop_last()).remove(s[i].0).insert(s.last().0, s.last().1) =~= as_map(
            s.drop_last(),
        ).insert(s.last().0, s.last().1).remove(s[i].0));
    }
}

/// Replacing the value of entry `i` updates the represented mapping at its
/// key alone.
pub proof fn lemma_as_map_update(s: Seq<(Seq<char>, Seq<char>)>, i: int, value: Seq<char>)
    requires
        keys_unique(s),
        0 <= i < s.len(),
    ensures
        as_map(s.update(i, (s[i].0, value))) == as_map(s).insert(s[i].0, value),
    decreases s.len(),
{
    let t = s.update(i, (s[i].0, value));
    if i == s.len() - 1 {
        assert(t.drop_last() =~= s.drop_last());
        assert(t.last() == (s[i].0, value));
        assert(as_map(s.drop_last()).insert(s[i].0, value) =~= as_map(s.drop_last()).insert(
            s[i].0,
            s[i].1,
        ).insert(s[i].0, value));
    } else {
        assert(keys_unique(s.drop_last()));
        assert(s.drop_last()[i] == s[i]);
        lemma_as_map_update(s.drop_last(), i, value);
        assert(t.drop_last() =~= s.drop_last().update(i, (s[i].0, value)));
        assert(t.last() == s.last());
        assert(s[i].0 != s.last().0);
        assert(as_map(s.drop_last()).insert(s[i].0, value).insert(s.last().0, s.last().1)
            =~= as_map(s.drop_last()).insert(s.last().0, s.last().1).insert(s[i].0, value));
    }
}

/// Represents the database internal structure.
#[derive(Debug)]
pub struct InMemory {
    table: Vec<(String, String)>,
}

impl InMemory {
    /// The entries of the table, by value.
    pub closed spec fn entries(&self) -> Seq<(Seq<char>, Seq<char>)> {
        Seq::new(self.table@.len(), |i: int| (self.table@[i].0@, self.table@[i].1@))
    }

    /// The position of the entry carrying the key, if any.
    fn index_of(&self, probe: &String) -> (r: Option<usize>)
        ensures
            match r {
                Some(i) => i < self.entries().len() && self.entries()[i as int].0 == probe@,
                None => forall|j: int|
                    0 <= j < self.entries().len() ==> (#[trigger] self.entries()[j]).0 != probe@,
            },
    {
        let n = self.table.len();
        let mut i: usize = 0;
        while i < n
            invariant
                i <= n,
                n == self.entries().len(),
                forall|j: int| 0 <= j < i ==> (#[trigger] self.entries()[j]).0 != probe@,
            decreases n - i,
        {
            if self.table[i].0.eq(probe) {
                return Some(i);
            }
            i += 1;
        }
        None
    }
}

impl View for InMemory {
    type V = Map<Seq<char>, Seq<char>>;

    open spec fn view(&self) -> Map<Seq<char>, Seq<char>> {
        as_map(self.entries())
    }
}

impl Database for InMemory {
    open spec fn inv(&self) -> bool {
        keys_unique(self.entries())
    }

    /// Construct new instance of the database.
    fn new() -> (db: Self) {
        let db = InMemory { table: Vec::new() };
        proof {
            assert(db.entries() =~= Seq::<(Seq<char>, Seq<char>)>::empty());
        }
        db
    }

    /// Deletes all records.
    fn clear(&mut self) {
        self.table.clear();
        proof {
            assert(self.entries() =~= Seq::<(Seq<char>, Seq<char>)>::empty());
        }
    }

    /// Returns a value or error.
    fn get(&self, key: &str) -> (r: Result<String, Error>) {
        let probe = key.to_owned();
        match self.index_of(&probe) {
            Some(i) => {
                proof {
                    lemma_as_map_index(self.entries(), i as int);
                }
                Ok(self.table[i].1.clone())
            },
            None => {
                proof {
                    lemma_as_map_contains(self.entries(), key@);
                }
                Err(Error::RecordMissing(probe))
            },
        }
    }

    /// Inserts new record if there was no such key or returns error.
    fn insert(&mut self, key: &str, value: &str) -> (r: Result<String, Error>) {
        let probe = key.to_owned();
        match self.index_of(&probe) {
            Some(i) => {
                proof {
                    lemma_as_map_index(self.entries(), i as int);
                }
                Err(Error::RecordAlreadyExists(probe))
            },
            None => {
                proof {
                    lemma_as_map_contains(self.entries(), key@);
                }
                let ghost before = self.entries();
                self.table.push((probe, value.to_owned()));
                proof {
                    assert(self.entries() =~= before.push((key@, value@)));
                    assert(self.entries().drop_last() =~= before);
                    assert(keys_unique(self.entries()));
                }
                Ok(String::new())
            },
        }
    }

    /// Deletes a record or returns error if was missing.
    fn delete(&mut self, key: &str) -> (r: Result<String, Error>) {
        let probe = key.to_owned();
        match self.index_of(&probe) {
            None => {
                proof {
                    lemma_as_map_contains(self.entries(), key@);
                }
                Err(Error::RecordAlreadyMissing(probe))
            },
            Some(i) => {
                proof {
                    lemma_as_map_index(self.entries(), i as int);
                    lemma_as_map_remove(self.entries(), i as int);
                }
                let ghost before = self.entries();
                let entry = self.table.remove(i);
                proof {
                    assert(self.entries() =~= before.remove(i as int));
                    assert(keys_unique(self.entries()));
                }
                Ok(entry.1)
            },
        }
    }

    /// Updates record or returns error if the record was missing or
    /// identical.
    fn update(&mut self, key: &str, value: &str) -> (r: Result<String, Error>) {
        let probe = key.to_owned();
        match self.index_of(&probe) {
            None => {
                proof {
                    lemma_as_map_contains(self.entries(), key@);
                }
                Err(Error::RecordMissing(probe))
            },
            Some(i) => {
                proof {
                    lemma_as_map_index(self.entries(), i as int);
                }
                let offered = value.to_owned();
                if self.table[i].1.eq(&offered) {
                    Err(Error::RecordAlreadyExistsIdentical(probe))
                } else {
                    proof {
                        lemma_as_map_update(self.entries(), i as int, value@);
                    }
                    let ghost before = self.entries();
                    self.table[i] = (probe, offered);
                    proof {
                        assert(self.entries() =~= before.update(
                            i as int,
                            (before[i as int].0, value@),
                        ));
                        assert(keys_unique(self.entries()));
                    }
                    Ok(String::new())
                }
            },
        }
    }
}

} // verus!
