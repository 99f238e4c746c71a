//! The error taxonomy of the storage engine.
//!
//! Record-level outcomes (`RecordMissing`, `RecordAlreadyMissing`,
//! `RecordAlreadyExists`, `RecordAlreadyExistsIdentical`, `RecordInvalid`)
//! are produced by the engine itself; the file-level kinds (`Filename`,
//! `OpenFile`, `DeleteFile`, `LockFile`, `UnlockFile`, `Io`) carry a path and
//! an underlying cause reported by the I/O shell around the engine.

use vstd::prelude::*;
use vstd::string::*;

verus! {

/// An error returned by a storage operation.
#[derive(Debug)]
pub enum Error {
    /// The key does not resolve to a value (`get`, `update`).
    RecordMissing(String),
    /// The key does not resolve to a value (`delete`); deliberately distinct
    /// from `RecordMissing`.
    RecordAlreadyMissing(String),
    /// The key already resolves to a value (`insert`).
    RecordAlreadyExists(String),
    /// The key already resolves to exactly the value offered (`update`).
    RecordAlreadyExistsIdentical(String),
    /// A log line does not split into exactly a key and a value.
    RecordInvalid(String),
    /// A storage path that cannot be represented as text.
    Filename(String),
    /// Opening the file failed: underlying cause, then path.
    OpenFile(String, String),
    /// Deleting the file failed: underlying cause, then path.
    DeleteFile(String, String),
    /// Locking the file failed: underlying cause, then path.
    LockFile(String, String),
    /// Unlocking the file failed: underlying cause, then path.
    UnlockFile(String, String),
    /// Any other input/output failure.
    Io(String),
}

/// The mathematical image of an [`Error`]: the same variants over character
/// sequences, so that contracts can speak about errors by value.
pub enum ErrorV {
    RecordMissing(Seq<char>),
    RecordAlreadyMissing(Seq<char>),
    RecordAlreadyExists(Seq<char>),
    RecordAlreadyExistsIdentical(Seq<char>),
    RecordInvalid(Seq<char>),
    Filename(Seq<char>),
    OpenFile(Seq<char>, Seq<char>),
    DeleteFile(Seq<char>, Seq<char>),
    LockFile(Seq<char>, Seq<char>),
    UnlockFile(Seq<char>, Seq<char>),
    Io(Seq<char>),
}

impl View for Error {
    type V = ErrorV;

    open spec fn view(&self) -> ErrorV {
        match self {
            Error::RecordMissing(k) => ErrorV::RecordMissing(k@),
            Error::RecordAlreadyMissing(k) => ErrorV::RecordAlreadyMissing(k@),
            Error::RecordAlreadyExists(k) => ErrorV::RecordAlreadyExists(k@),
            Error::RecordAlreadyExistsIdentical(k) => ErrorV::RecordAlreadyExistsIdentical(k@),
            Error::RecordInvalid(line) => ErrorV::RecordInvalid(line@),
            Error::Filename(path) => ErrorV::Filename(path@),
            Error::OpenFile(cause, path) => ErrorV::OpenFile(cause@, path@),
            Error::DeleteFile(cause, path) => ErrorV::DeleteFile(cause@, path@),
            Error::LockFile(cause, path) => ErrorV::LockFile(cause@, path@),
            Error::UnlockFile(cause, path) => ErrorV::UnlockFile(cause@, path@),
            Error::Io(cause) => ErrorV::Io(cause@),
        }
    }
}

/// The text reported for each error, as a sequence of characters.
pub open spec fn message_of(e: ErrorV) -> Seq<char> {
    match e {
        ErrorV::RecordMissing(k) => "Record '"@ + k + "' is missing"@,
        ErrorV::RecordAlreadyMissing(k) => "Record '"@ + k + "' is missing already"@,
        ErrorV::RecordAlreadyExists(k) => "Record '"@ + k + "' already exists"@,
        ErrorV::RecordAlreadyExistsIdentical(k) => "Record '"@ + k
            + "' already exists and identical"@,
        ErrorV::RecordInvalid(line) => "Invalid record '"@ + line + "'"@,
        ErrorV::Filename(path) => "Unsupported file name '"@ + path + "'"@,
        ErrorV::OpenFile(cause, path) => "Cannot open file '"@ + path + "': "@ + cause,
        ErrorV::DeleteFile(cause, path) => "Cannot delete file '"@ + path + "': "@ + cause,
        ErrorV::LockFile(cause, path) => "Cannot lock file '"@ + path + "': "@ + cause,
        ErrorV::UnlockFile(cause, path) => "Cannot unlock file '"@ + path + "': "@ + cause,
        ErrorV::Io(_) => "Input/output error"@,
    }
}

impl Error {
    /// The text a caller sees for this error.
    pub fn message(&self) -> (r: String)
        ensures
            r@ == message_of(self@),
    {
        match self {
            Error::RecordMissing(k) => {
                let mut s = "Record '".to_owned();
                s.append(k.as_str());
                s.append("' is missing");
                s
            },
            Error::RecordAlreadyMissing(k) => {
                let mut s = "Record '".to_owned();
                s.append(k.as_str());
                s.append("' is missing already");
                s
            },
            Error::RecordAlreadyExists(k) => {
                let mut s = "Record '".to_owned();
                s.append(k.as_str());
                s.append("' already exists");
                s
            },
            Error::RecordAlreadyExistsIdentical(k) => {
                let mut s = "Record '".to_owned();
                s.append(k.as_str());
                s.append("' already exists and identical");
                s
            },
            Error::RecordInvalid(line) => {
                let mut s = "Invalid record '".to_owned();
                s.append(line.as_str());
                s.append("'");
                s
            },
            Error::Filename(path) => {
                let mut s = "Unsupported file name '".to_owned();
                s.append(path.as_str());
                s.append("'");
                s
            },
            Error::OpenFile(cause, path) => {
                let mut s = "Cannot open file '".to_owned();
                s.append(path.as_str());
                s.append("': ");
                s.append(cause.as_str());
                s
            },
            Error::DeleteFile(cause, path) => {
                let mut s = "Cannot delete file '".to_owned();
                s.append(path.as_str());
                s.append("': ");
                s.append(cause.as_str());
                s
            },
            Error::LockFile(cause, path) => {
                let mut s = "Cannot lock file '".to_owned();
                s.append(path.as_str());
                s.append("': ");
                s.append(cause.as_str());
                s
            },
            Error::UnlockFile(cause, path) => {
                let mut s = "Cannot unlock file '".to_owned();
                s.append(path.as_str());
                s.append("': ");
                s.append(cause.as_str());
                s
            },
            Error::Io(_) => "Input/output error".to_owned(),
        }
    }
}

} // verus!
