//! The persistent backend: the record log of one storage file.
//!
//! The engine itself works on the records scanned out of the file. The
//! surrounding shell serializes whole operations with a cross-process
//! exclusive lock, reads the file's lines into [`Persistent::from_lines`]
//! (a missing file is an empty store), runs one operation, and appends the
//! newly rendered lines — [`Persistent::render_line`] — to the file before
//! releasing the lock.

use crate::codec::{encoded, spec_parse};
use crate::database::Database;
use crate::error::{Error, ErrorV};
use crate::storage::{decoded, lines_decode, log_wf, resolved_map, Storage};
use vstd::prelude::*;

verus! {

/// Represents the database internals: the scanned log of one storage file.
#[derive(Debug)]
pub struct Persistent {
    storage: Storage,
}

impl Persistent {
    /// The record log this store stands for.
    pub closed spec fn log(&self) -> Seq<(Seq<char>, Seq<char>)> {
        self.storage@
    }

    /// Scans a store out of the raw lines of a log file; for a missing
    /// file the caller passes no lines, since non-existence is equivalent
    /// to an empty store. The first malformed line aborts the scan.
    pub fn from_lines(lines: &Vec<String>) -> (r: Result<Persistent, Error>)
        ensures
            match r {
                Ok(db) => {
                    &&& lines_decode(lines.deep_view())
                    &&& db.log() == decoded(lines.deep_view())
                    &&& db.inv()
                },
                Err(e) => {
                    &&& !lines_decode(lines.deep_view())
                    &&& exists|i: int|
                        {
                            &&& 0 <= i < lines.deep_view().len()
                            &&& spec_parse(lines.deep_view()[i]) is None
                            &&& e@ == ErrorV::RecordInvalid(lines.deep_view()[i])
                            &&& forall|j: int|
                                0 <= j < i ==> #[trigger] spec_parse(lines.deep_view()[j]) is Some
                        }
                },
            },
    {
        match Storage::from_lines(lines) {
            Ok(storage) => Ok(Persistent { storage }),
            Err(e) => Err(e),
        }
    }

    /// How many records the log holds.
    pub fn line_count(&self) -> (n: usize)
        ensures
            n == self.log().len(),
    {
        self.storage.len()
    }

    /// Renders one record of the log back into its file line.
    pub fn render_line(&self, i: usize) -> (line: String)
        requires
            i < self.log().len(),
        ensures
            line@ == encoded(self.log()[i as int].0, self.log()[i as int].1),
    {
        self.storage.render_line(i)
    }
}

impl View for Persistent {
    type V = Map<Seq<char>, Seq<char>>;

    open spec fn view(&self) -> Map<Seq<char>, Seq<char>> {
        resolved_map(self.log())
    }
}

impl Database for Persistent {
    open spec fn inv(&self) -> bool {
        log_wf(self.log())
    }

    /// Construct new instance of the database.
    fn new() -> (db: Self) {
        let db = Persistent { storage: Storage::new() };
        proof {
            crate::storage::lemma_resolved_map_empty();
        }
        db
    }

    /// Deletes the whole log; the caller removes the file itself.
    fn clear(&mut self) {
        self.storage.clear();
        proof {
            crate::storage::lemma_resolved_map_empty();
        }
    }

    /// Returns a value or error: scans the whole log for the last record
    /// of the key, and reports `RecordMissing` if the key never appears or
    /// was last tombstoned.
    fn get(&self, key: &str) -> (r: Result<String, Error>) {
        match self.storage.find_last(key) {
            Some(value) => Ok(value),
            None => Err(Error::RecordMissing(key.to_owned())),
        }
    }

    /// Inserts a new record if the key does not currently resolve; a prior
    /// tombstone does not count as existing.
    fn insert(&mut self, key: &str, value: &str) -> (r: Result<String, Error>) {
        match self.storage.find_last(key) {
            Some(_) => Err(Error::RecordAlreadyExists(key.to_owned())),
            None => {
                self.storage.append(key, value);
                proof {
                    crate::storage::lemma_resolved_map_push_value(
                        old(self).log(),
                        key@,
                        value@,
                    );
                }
                Ok(String::new())
            },
        }
    }

    /// Deletes a record by appending a tombstone, returning the value that
    /// was deleted, or fails `RecordAlreadyMissing`.
    fn delete(&mut self, key: &str) -> (r: Result<String, Error>) {
        match self.storage.find_last(key) {
            None => Err(Error::RecordAlreadyMissing(key.to_owned())),
            Some(value) => {
                self.storage.mark_deleted(key);
                proof {
                    crate::storage::lemma_resolved_map_push_tombstone(old(self).log(), key@);
                }
                Ok(value)
            },
        }
    }

    /// Updates a record with an actually different value, or fails
    /// `RecordMissing` or `RecordAlreadyExistsIdentical`.
    fn update(&mut self, key: &str, value: &str) -> (r: Result<String, Error>) {
        match self.storage.find_last(key) {
            None => Err(Error::RecordMissing(key.to_owned())),
            Some(old_value) => {
                let offered = value.to_owned();
                if old_value.eq(&offered) {
                    Err(Error::RecordAlreadyExistsIdentical(key.to_owned()))
                } else {
                    self.storage.append(key, value);
                    proof {
                        crate::storage::lemma_resolved_map_push_value(
                            old(self).log(),
                            key@,
                            value@,
                        );
                    }
                    Ok(String::new())
                }
            },
        }
    }
}

} // verus!
