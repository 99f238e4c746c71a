//! The backend contract: the capability set {construct, clear, get, insert,
//! delete, update}, with one mathematical transition per operation, so that
//! every backend behaves byte-for-byte identically.

use crate::codec::{valid_key, valid_value};
use crate::error::{Error, ErrorV};
use vstd::prelude::*;

verus! {

/// The mathematical image of an operation's outcome: the returned text, or
/// the error by value.
pub open spec fn res_view(r: Result<String, Error>) -> Result<Seq<char>, ErrorV> {
    match r {
        Ok(s) => Ok(s@),
        Err(e) => Err(e@),
    }
}

/// What `get` returns on a store holding `m`: the resolved value, or
/// `RecordMissing`.
pub open spec fn spec_get(m: Map<Seq<char>, Seq<char>>, key: Seq<char>) -> Result<
    Seq<char>,
    ErrorV,
> {
    if m.contains_key(key) {
        Ok(m[key])
    } else {
        Err(ErrorV::RecordMissing(key))
    }
}

/// What `insert` does to a store holding `m`: fails `RecordAlreadyExists` if
/// the key currently resolves, otherwise stores the record and succeeds with
/// an empty result.
pub open spec fn spec_insert(m: Map<Seq<char>, Seq<char>>, key: Seq<char>, value: Seq<char>) -> (
    Map<Seq<char>, Seq<char>>,
    Result<Seq<char>, ErrorV>,
) {
    if m.contains_key(key) {
        (m, Err(ErrorV::RecordAlreadyExists(key)))
    } else {
        (m.insert(key, value), Ok(Seq::<char>::empty()))
    }
}

/// What `delete` does to a store holding `m`: fails `RecordAlreadyMissing`
/// if the key is currently absent, otherwise removes it and returns the
/// value that was deleted.
pub open spec fn spec_delete(m: Map<Seq<char>, Seq<char>>, key: Seq<char>) -> (
    Map<Seq<char>, Seq<char>>,
    Result<Seq<char>, ErrorV>,
) {
    if m.contains_key(key) {
        (m.remove(key), Ok(m[key]))
    } else {
        (m, Err(ErrorV::RecordAlreadyMissing(key)))
    }
}

/// What `update` does to a store holding `m`: fails `RecordMissing` if the
/// key is absent, fails `RecordAlreadyExistsIdentical` if the value offered
/// equals the current one (an update requires an actual change, unlike
/// insert), otherwise stores the new value and succeeds with an empty
/// result.
pub open spec fn spec_update(m: Map<Seq<char>, Seq<char>>, key: Seq<char>, value: Seq<char>) -> (
    Map<Seq<char>, Seq<char>>,
    Result<Seq<char>, ErrorV>,
) {
    if !m.contains_key(key) {
        (m, Err(ErrorV::RecordMissing(key)))
    } else if m[key] == value {
        (m, Err(ErrorV::RecordAlreadyExistsIdentical(key)))
    } else {
        (m.insert(key, value), Ok(Seq::<char>::empty()))
    }
}

/// Represents the interface of the database.
///
/// A backend views as the mapping it currently represents, and every
/// operation is pinned to the transition functions above, so any two
/// backends holding equal mappings produce identical outcomes.
pub trait Database: Sized + View<V = Map<Seq<char>, Seq<char>>> {
    /// The internal well-formedness each operation preserves.
    spec fn inv(&self) -> bool;

    /// Constructs a new, empty instance of the database.
    fn new() -> (db: Self)
        ensures
            db.inv(),
            db@ == Map::<Seq<char>, Seq<char>>::empty(),
    ;

    /// Deletes all records.
    fn clear(&mut self)
        requires
            old(self).inv(),
        ensures
            final(self).inv(),
            final(self)@ == Map::<Seq<char>, Seq<char>>::empty(),
    ;

    /// Returns the resolved value of the key, or fails `RecordMissing`.
    fn get(&self, key: &str) -> (r: Result<String, Error>)
        requires
            self.inv(),
            valid_key(key@),
        ensures
            res_view(r) == spec_get(self@, key@),
    ;

    /// Stores a new record if the key does not currently resolve, or fails
    /// `RecordAlreadyExists`.
    fn insert(&mut self, key: &str, value: &str) -> (r: Result<String, Error>)
        requires
            old(self).inv(),
            valid_key(key@),
            valid_value(value@),
        ensures
            final(self).inv(),
            final(self)@ == spec_insert(old(self)@, key@, value@).0,
            res_view(r) == spec_insert(old(self)@, key@, value@).1,
    ;

    /// Removes the record and returns the deleted value, or fails
    /// `RecordAlreadyMissing`.
    fn delete(&mut self, key: &str) -> (r: Result<String, Error>)
        requires
            old(self).inv(),
            valid_key(key@),
        ensures
            final(self).inv(),
            final(self)@ == spec_delete(old(self)@, key@).0,
            res_view(r) == spec_delete(old(self)@, key@).1,
    ;

    /// Replaces the resolved value with a different one, or fails
    /// `RecordMissing` or `RecordAlreadyExistsIdentical`.
    fn update(&mut self, key: &str, value: &str) -> (r: Result<String, Error>)
        requires
            old(self).inv(),
            valid_key(key@),
            valid_value(value@),
        ensures
            final(self).inv(),
            final(self)@ == spec_update(old(self)@, key@, value@).0,
            res_view(r) == spec_update(old(self)@, key@, value@).1,
    ;
}

} // verus!
