//! Database statistics: per-operation success/failure counters and the
//! current record count, observed by the monitoring task.
//!
//! The collector only sees the boolean outcome of each call — and, for
//! insert and delete, the record-count delta — and never influences storage
//! behavior.

use vstd::prelude::*;

verus! {

/// Represents the statistics.
pub struct Stats {
    /// How many records the store currently holds.
    pub number_of_records: usize,
    /// Successful and failed `get` calls.
    pub get_ok_fail: (usize, usize),
    /// Successful and failed `insert` calls.
    pub insert_ok_fail: (usize, usize),
    /// Successful and failed `delete` calls.
    pub delete_ok_fail: (usize, usize),
    /// Successful and failed `update` calls.
    pub update_ok_fail: (usize, usize),
}

impl Default for Stats {
    /// All counters start at zero.
    fn default() -> (s: Stats)
        ensures
            s.number_of_records == 0,
            s.get_ok_fail == (0usize, 0usize),
            s.insert_ok_fail == (0usize, 0usize),
            s.delete_ok_fail == (0usize, 0usize),
            s.update_ok_fail == (0usize, 0usize),
    {
        Stats {
            number_of_records: 0,
            get_ok_fail: (0, 0),
            insert_ok_fail: (0, 0),
            delete_ok_fail: (0, 0),
            update_ok_fail: (0, 0),
        }
    }
}

impl Stats {
    /// Updates the GET stats.
    pub fn get(&mut self, ok: bool)
        requires
            ok ==> old(self).get_ok_fail.0 < usize::MAX,
            !ok ==> old(self).get_ok_fail.1 < usize::MAX,
        ensures
            ok ==> final(self).get_ok_fail == (
                (old(self).get_ok_fail.0 + 1) as usize,
                old(self).get_ok_fail.1,
            ),
            !ok ==> final(self).get_ok_fail == (
                old(self).get_ok_fail.0,
                (old(self).get_ok_fail.1 + 1) as usize,
            ),
            final(self).number_of_records == old(self).number_of_records,
            final(self).insert_ok_fail == old(self).insert_ok_fail,
            final(self).delete_ok_fail == old(self).delete_ok_fail,
            final(self).update_ok_fail == old(self).update_ok_fail,
    {
        if ok {
            self.get_ok_fail.0 += 1
        } else {
            self.get_ok_fail.1 += 1
        }
    }

    /// Updates the INSERT stats (may increment number of records).
    pub fn insert(&mut self, ok: bool)
        requires
            ok ==> old(self).insert_ok_fail.0 < usize::MAX,
            ok ==> old(self).number_of_records < usize::MAX,
            !ok ==> old(self).insert_ok_fail.1 < usize::MAX,
        ensures
            ok ==> final(self).insert_ok_fail == (
                (old(self).insert_ok_fail.0 + 1) as usize,
                old(self).insert_ok_fail.1,
            ),
            ok ==> final(self).number_of_records == old(self).number_of_records + 1,
            !ok ==> final(self).insert_ok_fail == (
                old(self).insert_ok_fail.0,
                (old(self).insert_ok_fail.1 + 1) as usize,
            ),
            !ok ==> final(self).number_of_records == old(self).number_of_records,
            final(self).get_ok_fail == old(self).get_ok_fail,
            final(self).delete_ok_fail == old(self).delete_ok_fail,
            final(self).update_ok_fail == old(self).update_ok_fail,
    {
        if ok {
            self.number_of_records += 1;
            self.insert_ok_fail.0 += 1
        } else {
            self.insert_ok_fail.1 += 1
        }
    }

    /// Updates the DELETE stats (may decrement number of records). A
    /// successful delete presupposes a record to delete.
    pub fn delete(&mut self, ok: bool)
        requires
            ok ==> old(self).delete_ok_fail.0 < usize::MAX,
            ok ==> old(self).number_of_records > 0,
            !ok ==> old(self).delete_ok_fail.1 < usize::MAX,
        ensures
            ok ==> final(self).delete_ok_fail == (
                (old(self).delete_ok_fail.0 + 1) as usize,
                old(self).delete_ok_fail.1,
            ),
            ok ==> final(self).number_of_records == old(self).number_of_records - 1,
            !ok ==> final(self).delete_ok_fail == (
                old(self).delete_ok_fail.0,
                (old(self).delete_ok_fail.1 + 1) as usize,
            ),
            !ok ==> final(self).number_of_records == old(self).number_of_records,
            final(self).get_ok_fail == old(self).get_ok_fail,
            final(self).insert_ok_fail == old(self).insert_ok_fail,
            final(self).update_ok_fail == old(self).update_ok_fail,
    {
        if ok {
            self.number_of_records -= 1;
            self.delete_ok_fail.0 += 1
        } else {
            self.delete_ok_fail.1 += 1
        }
    }

    /// Updates the UPDATE stats.
    pub fn update(&mut self, ok: bool)
        requires
            ok ==> old(self).update_ok_fail.0 < usize::MAX,
            !ok ==> old(self).update_ok_fail.1 < usize::MAX,
        ensures
            ok ==> final(self).update_ok_fail == (
                (old(self).update_ok_fail.0 + 1) as usize,
                old(self).update_ok_fail.1,
            ),
            !ok ==> final(self).update_ok_fail == (
                old(self).update_ok_fail.0,
                (old(self).update_ok_fail.1 + 1) as usize,
            ),
            final(self).number_of_records == old(self).number_of_records,
            final(self).get_ok_fail == old(self).get_ok_fail,
            final(self).insert_ok_fail == old(self).insert_ok_fail,
            final(self).delete_ok_fail == old(self).delete_ok_fail,
    {
        if ok {
            self.update_ok_fail.0 += 1
        } else {
            self.update_ok_fail.1 += 1
        }
    }
}

} // verus!
