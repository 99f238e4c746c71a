//! Client-side request validation: a key or a value over the size limit is
//! rejected before it is ever sent to a store.

use vstd::prelude::*;
use vstd::string::StringSliceAdditionalSpecFns;

verus! {

/// The largest key accepted from a client, in bytes.
pub const MAX_KEY_LEN: usize = 1024;

/// The largest value accepted from a client, in bytes.
pub const MAX_VALUE_LEN: usize = 1048576;

/// Checks the length of a key is below the limit; an over-long key is
/// rejected with its byte length.
pub fn ensure_key_valid(key: &str) -> (r: Result<(), usize>)
    ensures
        match r {
            Ok(_) => key.spec_bytes().len() <= MAX_KEY_LEN,
            Err(n) => n == key.spec_bytes().len() && n > MAX_KEY_LEN,
        },
{
    let n = key.as_bytes().len();
    if n > MAX_KEY_LEN {
        return Err(n);
    }
    Ok(())
}

/// Checks the length of a value is below the limit; an over-long value is
/// rejected with its byte length.
pub fn ensure_value_valid(value: &str) -> (r: Result<(), usize>)
    ensures
        match r {
            Ok(_) => value.spec_bytes().len() <= MAX_VALUE_LEN,
            Err(n) => n == value.spec_bytes().len() && n > MAX_VALUE_LEN,
        },
{
    let n = value.as_bytes().len();
    if n > MAX_VALUE_LEN {
        return Err(n);
    }
    Ok(())
}

} // verus!
