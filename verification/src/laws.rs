//! The laws of the CRUD contract, stated over the transition functions that
//! every backend's contract is pinned to. Since each backend's operations
//! ensure exactly these transitions on its view, what is proved here holds
//! of every backend.

use crate::database::{spec_delete, spec_get, spec_insert, spec_update};
use crate::error::ErrorV;
use vstd::prelude::*;

verus! {

/// One CRUD request, by value.
pub enum OpV {
    Get { key: Seq<char> },
    Insert { key: Seq<char>, value: Seq<char> },
    Delete { key: Seq<char> },
    Update { key: Seq<char>, value: Seq<char> },
}

/// Whether the operation is an insertion of the given key.
pub open spec fn inserts_key(op: OpV, key: Seq<char>) -> bool {
    match op {
        OpV::Insert { key: k, .. } => k == key,
        _ => false,
    }
}

/// The mapping after one operation, and what the operation returns.
pub open spec fn spec_step(m: Map<Seq<char>, Seq<char>>, op: OpV) -> (
    Map<Seq<char>, Seq<char>>,
    Result<Seq<char>, ErrorV>,
) {
    match op {
        OpV::Get { key } => (m, spec_get(m, key)),
        OpV::Insert { key, value } => spec_insert(m, key, value),
        OpV::Delete { key } => spec_delete(m, key),
        OpV::Update { key, value } => spec_update(m, key, value),
    }
}

/// The mapping after a whole sequence of operations.
pub open spec fn run_ops(m: Map<Seq<char>, Seq<char>>, ops: Seq<OpV>) -> Map<Seq<char>, Seq<char>>
    decreases ops.len(),
{
    if ops.len() == 0 {
        m
    } else {
        run_ops(spec_step(m, ops[0]).0, ops.skip(1))
    }
}

/// A key that no operation inserts stays absent through any run: reading,
/// deleting or updating can never make an absent key present.
pub proof fn lemma_uninserted_key_stays_absent(
    m: Map<Seq<char>, Seq<char>>,
    ops: Seq<OpV>,
    key: Seq<char>,
)
    requires
        !m.contains_key(key),
        forall|i: int| 0 <= i < ops.len() ==> !inserts_key(#[trigger] ops[i], key),
    ensures
        !run_ops(m, ops).contains_key(key),
    decreases ops.len(),
{
    if ops.len() > 0 {
        let m1 = spec_step(m, ops[0]).0;
        assert(!m1.contains_key(key));
        assert(forall|i: int| 0 <= i < ops.skip(1).len() ==> !inserts_key(
            #[trigger] ops.skip(1)[i],
            key,
        )) by {
            assert(forall|i: int|
                0 <= i < ops.skip(1).len() ==> #[trigger] ops.skip(1)[i] == ops[i + 1]);
        }
        lemma_uninserted_key_stays_absent(m1, ops.skip(1), key);
    }
}

/// For any key never inserted — no operation of a run from the empty store
/// inserts it — `get` fails `RecordMissing`.
pub proof fn lemma_get_never_inserted(ops: Seq<OpV>, key: Seq<char>)
    requires
        forall|i: int| 0 <= i < ops.len() ==> !inserts_key(#[trigger] ops[i], key),
    ensures
        spec_get(run_ops(Map::empty(), ops), key) == Err::<Seq<char>, ErrorV>(
            ErrorV::RecordMissing(key),
        ),
{
    lemma_uninserted_key_stays_absent(Map::empty(), ops, key);
}

/// A successful `insert(key, value)` makes `get(key)` yield `value`.
pub proof fn lemma_insert_then_get(m: Map<Seq<char>, Seq<char>>, key: Seq<char>, value: Seq<char>)
    requires
        !m.contains_key(key),
    ensures
        spec_insert(m, key, value).1 == Ok::<Seq<char>, ErrorV>(Seq::<char>::empty()),
        spec_get(spec_insert(m, key, value).0, key) == Ok::<Seq<char>, ErrorV>(value),
{
}

/// A second `insert(key, _)` fails `RecordAlreadyExists`, changes nothing,
/// and `get(key)` still yields the first value.
pub proof fn lemma_insert_twice(
    m: Map<Seq<char>, Seq<char>>,
    key: Seq<char>,
    value: Seq<char>,
    value2: Seq<char>,
)
    requires
        !m.contains_key(key),
    ensures
        ({
            let m1 = spec_insert(m, key, value).0;
            &&& spec_insert(m1, key, value2).1 == Err::<Seq<char>, ErrorV>(
                ErrorV::RecordAlreadyExists(key),
            )
            &&& spec_insert(m1, key, value2).0 == m1
            &&& spec_get(spec_insert(m1, key, value2).0, key) == Ok::<Seq<char>, ErrorV>(value)
        }),
{
}

/// `delete(key)` after a successful `insert(key, value)` returns `value`;
/// `get(key)` then fails `RecordMissing`, and a second `delete(key)` fails
/// `RecordAlreadyMissing`. The store is back to where it started.
pub proof fn lemma_delete_after_insert(
    m: Map<Seq<char>, Seq<char>>,
    key: Seq<char>,
    value: Seq<char>,
)
    requires
        !m.contains_key(key),
    ensures
        ({
            let m1 = spec_insert(m, key, value).0;
            let m2 = spec_delete(m1, key).0;
            &&& spec_delete(m1, key).1 == Ok::<Seq<char>, ErrorV>(value)
            &&& spec_get(m2, key) == Err::<Seq<char>, ErrorV>(ErrorV::RecordMissing(key))
            &&& spec_delete(m2, key).1 == Err::<Seq<char>, ErrorV>(ErrorV::RecordAlreadyMissing(
                key,
            ))
            &&& m2 == m
        }),
{
    let m1 = spec_insert(m, key, value).0;
    let m2 = spec_delete(m1, key).0;
    assert(m2 =~= m);
}

/// `update(key, _)` on an absent key fails `RecordMissing` and changes
/// nothing.
pub proof fn lemma_update_missing(m: Map<Seq<char>, Seq<char>>, key: Seq<char>, value: Seq<char>)
    requires
        !m.contains_key(key),
    ensures
        spec_update(m, key, value).1 == Err::<Seq<char>, ErrorV>(ErrorV::RecordMissing(key)),
        spec_update(m, key, value).0 == m,
{
}

/// `update(key, value)` where `value` equals the current value fails
/// `RecordAlreadyExistsIdentical` and changes nothing.
pub proof fn lemma_update_identical(m: Map<Seq<char>, Seq<char>>, key: Seq<char>)
    requires
        m.contains_key(key),
    ensures
        spec_update(m, key, m[key]).1 == Err::<Seq<char>, ErrorV>(
            ErrorV::RecordAlreadyExistsIdentical(key),
        ),
        spec_update(m, key, m[key]).0 == m,
{
}

/// `update(key, value2)` with an actually differing value succeeds and
/// `get(key)` then yields `value2`.
pub proof fn lemma_update_changes(m: Map<Seq<char>, Seq<char>>, key: Seq<char>, value2: Seq<char>)
    requires
        m.contains_key(key),
        m[key] != value2,
    ensures
        spec_update(m, key, value2).1 == Ok::<Seq<char>, ErrorV>(Seq::<char>::empty()),
        spec_get(spec_update(m, key, value2).0, key) == Ok::<Seq<char>, ErrorV>(value2),
{
}

/// Re-insertion after deletion succeeds — a deleted key does not count as
/// existing — and `get(key)` then yields the new value.
pub proof fn lemma_reinsert_after_delete(
    m: Map<Seq<char>, Seq<char>>,
    key: Seq<char>,
    value2: Seq<char>,
)
    requires
        m.contains_key(key),
    ensures
        ({
            let m1 = spec_delete(m, key).0;
            &&& spec_insert(m1, key, value2).1 == Ok::<Seq<char>, ErrorV>(Seq::<char>::empty())
            &&& spec_get(spec_insert(m1, key, value2).0, key) == Ok::<Seq<char>, ErrorV>(value2)
        }),
{
}

/// Backend parity: two stores holding equal mappings produce the identical
/// outcome — the same new mapping and the same returned value or error —
/// for every operation, so a whole scenario suite runs identically against
/// any two backends that start equal.
pub proof fn lemma_backend_parity(p: Map<Seq<char>, Seq<char>>, q: Map<Seq<char>, Seq<char>>, op: OpV)
    requires
        p == q,
    ensures
        spec_step(p, op) == spec_step(q, op),
{
}

} // verus!
