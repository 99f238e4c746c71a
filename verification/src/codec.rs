//! The record codec: one record per log line, `key SEP value`, with a
//! reserved tombstone sentinel marking a deleted key.
//!
//! A line decodes by splitting on the single reserved separator; a line that
//! does not split into exactly two fields is malformed and aborts a scan.

use crate::error::{Error, ErrorV};
use vstd::prelude::*;
use vstd::string::*;

verus! {

/// The reserved separator between the key and the value of a log line.
pub open spec fn sep_char() -> char {
    '\t'
}

/// The reserved tombstone sentinel: the value stored to mark a key deleted.
/// No legitimate client request can produce it as a value.
pub open spec fn tombstone_seq() -> Seq<char> {
    seq!['\0']
}

/// The tombstone sentinel as a string.
pub fn tombstone() -> (t: String)
    ensures
        t@ == tombstone_seq(),
{
    let t = "\0".to_owned();
    proof {
        reveal_strlit("\0");
        assert(t@ =~= tombstone_seq());
    }
    t
}

/// Whether `v` is the tombstone sentinel.
pub fn is_tombstone(v: &String) -> (b: bool)
    ensures
        b == (v@ == tombstone_seq()),
{
    let t = tombstone();
    let b = v.eq(&t);
    b
}

/// A field (key or value) must contain neither the separator nor a line
/// terminator; otherwise the line written for it would not scan back.
pub open spec fn field_free(s: Seq<char>) -> bool {
    !s.contains(sep_char()) && !s.contains('\n')
}

/// A legal key: free of the reserved separator and line terminator.
pub open spec fn valid_key(k: Seq<char>) -> bool {
    field_free(k)
}

/// A legal value: a legal field that is not the tombstone sentinel.
pub open spec fn valid_value(v: Seq<char>) -> bool {
    field_free(v) && v != tombstone_seq()
}

/// One record of the log: a key and a value (possibly the tombstone).
#[derive(Debug)]
pub struct Record {
    pub key: String,
    pub value: String,
}

impl View for Record {
    type V = (Seq<char>, Seq<char>);

    open spec fn view(&self) -> (Seq<char>, Seq<char>) {
        (self.key@, self.value@)
    }
}

/// The line encoding a record: the key, the separator, the value.
pub open spec fn encoded(key: Seq<char>, value: Seq<char>) -> Seq<char> {
    key + seq![sep_char()] + value
}

/// `line` splits into exactly two fields at position `i`.
pub open spec fn line_split_at(line: Seq<char>, i: int) -> bool {
    &&& 0 <= i < line.len()
    &&& line[i] == sep_char()
    &&& !line.take(i).contains(sep_char())
    &&& !line.skip(i + 1).contains(sep_char())
}

/// `line` splits into exactly two fields somewhere.
pub open spec fn is_record_line(line: Seq<char>) -> bool {
    exists|i: int| line_split_at(line, i)
}

/// The position of the single separator of a well-formed line.
pub open spec fn sep_index(line: Seq<char>) -> int {
    choose|i: int| line_split_at(line, i)
}

/// What a line decodes to: its two fields, or nothing if it is malformed.
pub open spec fn spec_parse(line: Seq<char>) -> Option<(Seq<char>, Seq<char>)> {
    if is_record_line(line) {
        Some((line.take(sep_index(line)), line.skip(sep_index(line) + 1)))
    } else {
        None
    }
}

/// A line splits at no more than one position.
pub proof fn lemma_split_at_unique(line: Seq<char>, i: int, j: int)
    requires
        line_split_at(line, i),
        line_split_at(line, j),
    ensures
        i == j,
{
    if i < j {
        assert(line.take(j)[i] == sep_char());
        assert(false);
    } else if j < i {
        assert(line.take(i)[j] == sep_char());
        assert(false);
    }
}

/// Round trip: the line encoding two legal fields decodes back to them.
pub proof fn lemma_parse_encoded(key: Seq<char>, value: Seq<char>)
    requires
        !key.contains(sep_char()),
        !value.contains(sep_char()),
    ensures
        spec_parse(encoded(key, value)) == Some((key, value)),
{
    let line = encoded(key, value);
    let n = key.len() as int;
    assert(line[n] == sep_char());
    assert(line.take(n) =~= key);
    assert(line.skip(n + 1) =~= value);
    assert(line_split_at(line, n));
    let i = sep_index(line);
    lemma_split_at_unique(line, i, n);
}

/// The encoding of legal fields is injective.
pub proof fn lemma_encoded_injective(k1: Seq<char>, v1: Seq<char>, k2: Seq<char>, v2: Seq<char>)
    requires
        !k1.contains(sep_char()),
        !v1.contains(sep_char()),
        !k2.contains(sep_char()),
        !v2.contains(sep_char()),
        encoded(k1, v1) == encoded(k2, v2),
    ensures
        k1 == k2,
        v1 == v2,
{
    lemma_parse_encoded(k1, v1);
    lemma_parse_encoded(k2, v2);
}

/// Encodes a record as one log line (without the line terminator).
pub fn encode(key: &str, value: &str) -> (line: String)
    ensures
        line@ == encoded(key@, value@),
{
    let mut s = key.to_owned();
    s.append("\t");
    s.append(value);
    proof {
        reveal_strlit("\t");
        assert(s@ =~= encoded(key@, value@));
    }
    s
}

/// Decodes one log line into a record, by splitting on the single reserved
/// separator. A line that does not split into exactly two fields fails with
/// `RecordInvalid`, so that a scan aborts rather than skipping the bad line.
pub fn parse(line: &str) -> (r: Result<Record, Error>)
    ensures
        match r {
            Ok(rec) => spec_parse(line@) == Some((rec.key@, rec.value@)),
            Err(e) => spec_parse(line@) is None && e@ == ErrorV::RecordInvalid(line@),
        },
{
    let n = line.unicode_len();
    let mut i: usize = 0;
    let mut sep_at: Option<usize> = None;
    while i < n
        invariant
            i <= n,
            n == line@.len(),
            match sep_at {
                None => forall|j: int| 0 <= j < i ==> line@[j] != sep_char(),
                Some(s) => {
                    &&& s < i
                    &&& line@[s as int] == sep_char()
                    &&& forall|j: int| 0 <= j < i && j != s ==> line@[j] != sep_char()
                },
            },
        decreases n - i,
    {
        let c = line.get_char(i);
        if c == '\t' {
            match sep_at {
                None => {
                    sep_at = Some(i);
                },
                Some(s) => {
                    proof {
                        assert forall|t: int| !line_split_at(line@, t) by {
                            if line_split_at(line@, t) {
                                if t < s {
                                    assert(line@[t] != sep_char());
                                } else if t == s {
                                    assert(line@.skip(t + 1)[i - t - 1] == sep_char());
                                } else {
                                    assert(line@.take(t)[s as int] == sep_char());
                                }
                            }
                        }
                    }
                    return Err(Error::RecordInvalid(line.to_owned()));
                },
            }
        }
        i += 1;
    }
    match sep_at {
        None => {
            proof {
                assert forall|t: int| !line_split_at(line@, t) by {
                    if 0 <= t < line@.len() {
                        assert(line@[t] != sep_char());
                    }
                }
            }
            Err(Error::RecordInvalid(line.to_owned()))
        },
        Some(s) => {
            let key = line.substring_char(0, s).to_owned();
            let value = line.substring_char(s + 1, n).to_owned();
            proof {
                assert(line@.take(s as int) =~= line@.subrange(0, s as int));
                assert(line@.skip(s as int + 1) =~= line@.subrange(s as int + 1, n as int));
                assert forall|j: int| 0 <= j < line@.take(s as int).len() implies line@.take(
                    s as int,
                )[j] != sep_char() by {
                    assert(line@[j] != sep_char());
                }
                assert forall|j: int| 0 <= j < line@.skip(s as int + 1).len() implies #[trigger] line@.skip(
                    s as int + 1,
                )[j] != sep_char() by {
                    assert(line@[j + s + 1] != sep_char());
                }
                assert(line_split_at(line@, s as int));
                lemma_split_at_unique(line@, sep_index(line@), s as int);
                assert(key@ == line@.take(sep_index(line@)));
                assert(value@ == line@.skip(sep_index(line@) + 1));
            }
            Ok(Record { key, value })
        },
    }
}

} // verus!
