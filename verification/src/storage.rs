//! The storage log: an ordered sequence of records, append-only, resolved by
//! last-write-wins.
//!
//! The log may hold many records for one key; only the last one is
//! authoritative, and a last value equal to the tombstone means the key is
//! absent. The `Storage` type holds the records scanned out of one log file;
//! the surrounding shell reads the file into it and appends the lines it
//! hands back.
//!
//! Compacting superseded and tombstoned records is deliberately left as
//! future work: the baseline engine never rewrites the log.

use crate::codec::{
    encode, encoded, parse, sep_char, spec_parse, tombstone, Record, is_tombstone, tombstone_seq,
};
use crate::error::{Error, ErrorV};
use vstd::prelude::*;
use vstd::string::*;

verus! {

/// The value of the last record with the given key, tombstone included;
/// `None` if no record has the key.
pub open spec fn resolve_raw(log: Seq<(Seq<char>, Seq<char>)>, key: Seq<char>) -> Option<
    Seq<char>,
>
    decreases log.len(),
{
    if log.len() == 0 {
        None
    } else if log.last().0 == key {
        Some(log.last().1)
    } else {
        resolve_raw(log.drop_last(), key)
    }
}

/// The resolved value of a key: the last value recorded for it, where the
/// tombstone means the key is logically absent.
pub open spec fn resolved(log: Seq<(Seq<char>, Seq<char>)>, key: Seq<char>) -> Option<Seq<char>> {
    match resolve_raw(log, key) {
        Some(v) => if v == tombstone_seq() {
            None
        } else {
            Some(v)
        },
        None => None,
    }
}

/// The mapping that the log currently represents.
pub open spec fn resolved_map(log: Seq<(Seq<char>, Seq<char>)>) -> Map<Seq<char>, Seq<char>> {
    Map::new(|k: Seq<char>| resolved(log, k) is Some, |k: Seq<char>| resolved(log, k)->0)
}

/// Appending a record resolves its own key to its value and leaves every
/// other key as it was.
pub proof fn lemma_resolve_raw_push(
    log: Seq<(Seq<char>, Seq<char>)>,
    key: Seq<char>,
    value: Seq<char>,
    probe: Seq<char>,
)
    ensures
        resolve_raw(log.push((key, value)), probe) == if probe == key {
            Some(value)
        } else {
            resolve_raw(log, probe)
        },
{
    assert(log.push((key, value)).drop_last() =~= log);
}

/// Appending an ordinary value updates the represented mapping at that key
/// alone.
pub proof fn lemma_resolved_map_push_value(
    log: Seq<(Seq<char>, Seq<char>)>,
    key: Seq<char>,
    value: Seq<char>,
)
    requires
        value != tombstone_seq(),
    ensures
        resolved_map(log.push((key, value))) == resolved_map(log).insert(key, value),
{
    let a = resolved_map(log.push((key, value)));
    let b = resolved_map(log).insert(key, value);
    assert forall|j: Seq<char>| #![auto] a.dom().contains(j) == b.dom().contains(j) by {
        lemma_resolve_raw_push(log, key, value, j);
    }
    assert(a.dom() =~= b.dom());
    assert forall|j: Seq<char>| #![auto] a.dom().contains(j) implies a[j] == b[j] by {
        lemma_resolve_raw_push(log, key, value, j);
    }
    assert(a =~= b);
}

/// Appending a tombstone removes that key from the represented mapping and
/// touches no other key.
pub proof fn lemma_resolved_map_push_tombstone(log: Seq<(Seq<char>, Seq<char>)>, key: Seq<char>)
    ensures
        resolved_map(log.push((key, tombstone_seq()))) == resolved_map(log).remove(key),
{
    let a = resolved_map(log.push((key, tombstone_seq())));
    let b = resolved_map(log).remove(key);
    assert forall|j: Seq<char>| #![auto] a.dom().contains(j) == b.dom().contains(j) by {
        lemma_resolve_raw_push(log, key, tombstone_seq(), j);
    }
    assert(a.dom() =~= b.dom());
    assert forall|j: Seq<char>| #![auto] a.dom().contains(j) implies a[j] == b[j] by {
        lemma_resolve_raw_push(log, key, tombstone_seq(), j);
    }
    assert(a =~= b);
}

/// The empty log represents the empty mapping.
pub proof fn lemma_resolved_map_empty()
    ensures
        resolved_map(Seq::<(Seq<char>, Seq<char>)>::empty()) == Map::<Seq<char>, Seq<char>>::empty(),
{
    assert(resolved_map(Seq::<(Seq<char>, Seq<char>)>::empty()) =~= Map::<
        Seq<char>,
        Seq<char>,
    >::empty());
}

/// Every line of a scan decodes into a record.
pub open spec fn lines_decode(lines: Seq<Seq<char>>) -> bool {
    forall|i: int| 0 <= i < lines.len() ==> #[trigger] spec_parse(lines[i]) is Some
}

/// The records of a fully well-formed scan.
pub open spec fn decoded(lines: Seq<Seq<char>>) -> Seq<(Seq<char>, Seq<char>)> {
    Seq::new(lines.len(), |i: int| spec_parse(lines[i])->0)
}

/// Every field recorded in the log is free of the separator, so each record
/// renders to a line that scans back to the same record.
pub open spec fn log_wf(log: Seq<(Seq<char>, Seq<char>)>) -> bool {
    forall|i: int|
        0 <= i < log.len() ==> !(#[trigger] log[i]).0.contains(sep_char()) && !log[i].1.contains(
            sep_char(),
        )
}

/// The lines a log renders to, one per record.
pub open spec fn rendered(log: Seq<(Seq<char>, Seq<char>)>) -> Seq<Seq<char>> {
    Seq::new(log.len(), |i: int| encoded(log[i].0, log[i].1))
}

/// Durability: the lines a well-formed log renders to scan back to exactly
/// the same log, so a store reloaded from what was written equals the store
/// that wrote it.
pub proof fn lemma_rendered_scans_back(log: Seq<(Seq<char>, Seq<char>)>)
    requires
        log_wf(log),
    ensures
        lines_decode(rendered(log)),
        decoded(rendered(log)) == log,
{
    assert forall|i: int| 0 <= i < rendered(log).len() implies #[trigger] spec_parse(
        rendered(log)[i],
    ) == Some((log[i].0, log[i].1)) by {
        crate::codec::lemma_parse_encoded(log[i].0, log[i].1);
    }
    assert(decoded(rendered(log)) =~= log);
}

/// Represents the contents of the storage: the scanned record log.
#[derive(Debug)]
pub struct Storage {
    records: Vec<Record>,
}

impl View for Storage {
    type V = Seq<(Seq<char>, Seq<char>)>;

    closed spec fn view(&self) -> Seq<(Seq<char>, Seq<char>)> {
        Seq::new(self.records@.len(), |i: int| self.records@[i]@)
    }
}

impl Storage {
    /// The log holds only well-formed records.
    pub open spec fn wf(&self) -> bool {
        log_wf(self@)
    }

    /// An empty log.
    pub fn new() -> (s: Storage)
        ensures
            s@ == Seq::<(Seq<char>, Seq<char>)>::empty(),
            s.wf(),
    {
        let s = Storage { records: Vec::new() };
        proof {
            assert(s@ =~= Seq::<(Seq<char>, Seq<char>)>::empty());
        }
        s
    }

    /// Scans a whole log, one raw line at a time. The first line that does
    /// not decode aborts the scan with `RecordInvalid`.
    pub fn from_lines(lines: &Vec<String>) -> (r: Result<Storage, Error>)
        ensures
            match r {
                Ok(s) => {
                    &&& lines_decode(lines.deep_view())
                    &&& s@ == decoded(lines.deep_view())
                    &&& s.wf()
                },
                Err(e) => {
                    &&& !lines_decode(lines.deep_view())
                    &&& exists|i: int|
                        {
                            &&& 0 <= i < lines.deep_view().len()
                            &&& spec_parse(lines.deep_view()[i]) is None
                            &&& e@ == ErrorV::RecordInvalid(lines.deep_view()[i])
                            &&& forall|j: int|
                                0 <= j < i ==> #[trigger] spec_parse(lines.deep_view()[j]) is Some
                        }
                },
            },
    {
        let ghost lv = lines.deep_view();
        let mut records: Vec<Record> = Vec::new();
        let n = lines.len();
        let mut i: usize = 0;
        while i < n
            invariant
                i <= n,
                n == lines@.len(),
                lv == lines.deep_view(),
                records@.len() == i,
                forall|j: int| 0 <= j < i ==> #[trigger] spec_parse(lv[j]) is Some,
                forall|j: int| 0 <= j < i ==> #[trigger] records@[j]@ == spec_parse(lv[j])->0,
                forall|j: int|
                    0 <= j < i ==> !(#[trigger] records@[j]@).0.contains(sep_char())
                        && !records@[j]@.1.contains(sep_char()),
            decreases n - i,
        {
            let line = &lines[i];
            proof {
                assert(lv[i as int] == line@);
            }
            match parse(line.as_str()) {
                Ok(rec) => {
                    records.push(rec);
                },
                Err(e) => {
                    return Err(e);
                },
            }
            i += 1;
        }
        let s = Storage { records };
        proof {
            assert(s@ =~= decoded(lv));
        }
        Ok(s)
    }

    /// How many records the log holds.
    pub fn len(&self) -> (n: usize)
        ensures
            n == self@.len(),
    {
        self.records.len()
    }

    /// Renders one record back into its log line.
    pub fn render_line(&self, i: usize) -> (line: String)
        requires
            i < self@.len(),
        ensures
            line@ == encoded(self@[i as int].0, self@[i as int].1),
    {
        let rec = &self.records[i];
        encode(rec.key.as_str(), rec.value.as_str())
    }

    /// Whether any record — tombstone included — carries the key.
    pub fn contains(&self, key: &str) -> (b: bool)
        ensures
            b == (resolve_raw(self@, key@) is Some),
    {
        let probe = key.to_owned();
        let n = self.records.len();
        let mut found = false;
        let mut i: usize = 0;
        while i < n
            invariant
                i <= n,
                n == self@.len(),
                probe@ == key@,
                found == (resolve_raw(self@.take(i as int), key@) is Some),
            decreases n - i,
        {
            let rec = &self.records[i];
            proof {
                assert(self@.take(i + 1).drop_last() =~= self@.take(i as int));
                assert(self@.take(i + 1).last() == self@[i as int]);
            }
            if rec.key.eq(&probe) {
                found = true;
            }
            i += 1;
        }
        proof {
            assert(self@.take(n as int) =~= self@);
        }
        found
    }

    /// Searches the whole log for the key and keeps the value of the last
    /// matching record; the entire log must be scanned because only the last
    /// record for a key is authoritative. A last value equal to the tombstone
    /// reports the key absent.
    pub fn find_last(&self, key: &str) -> (r: Option<String>)
        ensures
            match r {
                Some(v) => resolved(self@, key@) == Some(v@),
                None => resolved(self@, key@) is None,
            },
    {
        let probe = key.to_owned();
        let n = self.records.len();
        let mut cur: Option<String> = None;
        let mut i: usize = 0;
        while i < n
            invariant
                i <= n,
                n == self@.len(),
                probe@ == key@,
                match cur {
                    Some(v) => resolve_raw(self@.take(i as int), key@) == Some(v@),
                    None => resolve_raw(self@.take(i as int), key@) is None,
                },
            decreases n - i,
        {
            let rec = &self.records[i];
            proof {
                assert(self@.take(i + 1).drop_last() =~= self@.take(i as int));
                assert(self@.take(i + 1).last() == self@[i as int]);
            }
            if rec.key.eq(&probe) {
                cur = Some(rec.value.clone());
            }
            i += 1;
        }
        proof {
            assert(self@.take(n as int) =~= self@);
        }
        match cur {
            Some(v) => {
                if is_tombstone(&v) {
                    None
                } else {
                    Some(v)
                }
            },
            None => None,
        }
    }

    /// Appends one record; the caller flushes the rendered line to the log
    /// file before relying on it.
    pub fn append(&mut self, key: &str, value: &str)
        requires
            old(self).wf(),
            !key@.contains(sep_char()),
            !value@.contains(sep_char()),
        ensures
            final(self)@ == old(self)@.push((key@, value@)),
            final(self).wf(),
    {
        let rec = Record { key: key.to_owned(), value: value.to_owned() };
        self.records.push(rec);
        proof {
            assert(self@ =~= old(self)@.push((key@, value@)));
        }
    }

    /// Appends a record whose value is the tombstone, marking the key
    /// deleted.
    pub fn mark_deleted(&mut self, key: &str)
        requires
            old(self).wf(),
            !key@.contains(sep_char()),
        ensures
            final(self)@ == old(self)@.push((key@, tombstone_seq())),
            final(self).wf(),
    {
        let value = tombstone();
        let rec = Record { key: key.to_owned(), value };
        self.records.push(rec);
        proof {
            assert(!tombstone_seq().contains(sep_char())) by {
                assert(forall|j: int|
                    0 <= j < tombstone_seq().len() ==> tombstone_seq()[j] == '\0');
            }
            assert(self@ =~= old(self)@.push((key@, tombstone_seq())));
        }
    }

    /// Forgets every record; the caller removes the log file itself.
    pub fn clear(&mut self)
        ensures
            final(self)@ == Seq::<(Seq<char>, Seq<char>)>::empty(),
            final(self).wf(),
    {
        self.records.clear();
        proof {
            assert(self@ =~= Seq::<(Seq<char>, Seq<char>)>::empty());
        }
    }
}

} // verus!
