//! Reader for the two files of a Nullsoft Database Engine table: the index file, which lists
//! the offsets of the records, and the data file, which holds each record as a chain of
//! self-describing fields.
//!
//! The library works on the bytes of the two files, already read into memory.
use vstd::prelude::*;

pub mod export;
pub mod fields;
pub mod index;
pub mod table;
pub mod tracks;
pub mod wire;

pub use export::{dump_records, export_tracks, DumpFormat, ExportFormat};
pub use index::{read_indicies, NdeIndex};
pub use table::{follow_redirects, read_columns, read_record};

use fields::FieldType;

verus! {

/// Why a table could not be read.
#[derive(Debug, PartialEq, Eq)]
pub enum Cause {
    /// A file ended in the middle of an item.
    ShortRead,
    /// No signature in the index or data file.
    NoSig,
    /// No indices found in the index file.
    NoIndicies,
    /// A field carries an unknown type code.
    BadFieldType(u8),
    /// Failed to read a UTF-8 string.
    NotUtf8,
    /// Failed to read a UTF-16 string.
    NotUtf16,
    /// A non-column field appeared in the first record.
    NonColumnField(FieldType),
    /// A name that is no output format.
    BadFormat(String),
    /// A chain of redirects is longer than the reader follows.
    TooManyRedirects,
    /// A record's chain of fields does not end.
    CyclicRecord,
    /// The primary index lacks the schema record or the index record.
    MissingRecords,
    /// A record has no file name.
    NoFilename,
}

/// An error that ends the reading of a table.
#[derive(Debug, PartialEq, Eq)]
pub struct Error {
    pub cause: Cause,
}

pub type Result<T> = std::result::Result<T, Error>;

/// The table-level cause for a field-level one.
pub open spec fn field_cause(c: fields::Cause) -> Cause {
    match c {
        fields::Cause::ShortRead => Cause::ShortRead,
        fields::Cause::BadFieldType(t) => Cause::BadFieldType(t),
        fields::Cause::NotUtf8 => Cause::NotUtf8,
        fields::Cause::NotUtf16 => Cause::NotUtf16,
    }
}

impl Error {
    pub fn from_field_error(e: fields::Error) -> (r: Error)
        ensures
            r.cause == field_cause(e.cause),
    {
        let cause = match e.cause {
            fields::Cause::ShortRead => Cause::ShortRead,
            fields::Cause::BadFieldType(t) => Cause::BadFieldType(t),
            fields::Cause::NotUtf8 => Cause::NotUtf8,
            fields::Cause::NotUtf16 => Cause::NotUtf16,
        };
        Error { cause }
    }
}

/// The eight bytes `"NDEINDEX"` that open an index file.
pub open spec fn index_signature() -> Seq<u8> {
    seq![0x4eu8, 0x44, 0x45, 0x49, 0x4e, 0x44, 0x45, 0x58]
}

/// The eight bytes `"NDETABLE"` that open a data file.
pub open spec fn table_signature() -> Seq<u8> {
    seq![0x4eu8, 0x44, 0x45, 0x54, 0x41, 0x42, 0x4c, 0x45]
}

/// Whether `b` opens with `sig`.
pub open spec fn opens_with(b: Seq<u8>, sig: Seq<u8>) -> bool {
    sig.len() <= b.len() && b.subrange(0, sig.len() as int) == sig
}

/// Whether `b` opens with the bytes of `sig`.
pub fn has_signature(b: &[u8], sig: &[u8]) -> (r: bool)
    ensures
        r == opens_with(b@, sig@),
{
    if sig.len() > b.len() {
        return false;
    }
    let mut i: usize = 0;
    while i < sig.len()
        invariant
            i <= sig@.len() <= b@.len(),
            b@.subrange(0, i as int) == sig@.subrange(0, i as int),
        decreases sig@.len() - i,
    {
        if b[i] != sig[i] {
            assert(b@.subrange(0, sig@.len() as int)[i as int] != sig@[i as int]);
            return false;
        }
        i = i + 1;
        assert(b@.subrange(0, i as int) =~= sig@.subrange(0, i as int));
    }
    assert(sig@.subrange(0, i as int) =~= sig@);
    true
}

} // verus!
