//! The fields of an NDE data file.
//!
//! A field is a one-byte column id, a one-byte type code, a twelve-byte common header
//! (payload size, offset of the next field, offset of the previous field, each a 32-bit
//! little-endian integer) and a payload whose layout depends on the type. The decoders here
//! start at the common header: the id and the type have already been read while following
//! redirects.
use vstd::prelude::*;
use vstd::utf8::{decode_utf8, valid_utf8};

use crate::wire::{
    be_u16, copy_range, le_i32, le_i64, le_u16, le_u32, read_i32_le, read_i64_le, read_u16_be,
    read_u16_le, read_u32_le, utf16_to_string, utf16_text, utf8_to_string,
};

verus! {

/// Length of the common header that precedes every payload.
pub const HEADER_LEN: usize = 12;

/// Why a field could not be decoded.
#[derive(Debug, Clone, Copy, PartialEq, Eq, Structural)]
pub enum Cause {
    /// The buffer ended before the field did.
    ShortRead,
    /// Unknown field type code.
    BadFieldType(u8),
    /// A text payload that should be UTF-8 is not.
    NotUtf8,
    /// A text payload marked as UTF-16 is not well-formed UTF-16.
    NotUtf16,
}

/// An error that ends the decoding of a field.
#[derive(Debug, Clone, Copy, PartialEq, Eq, Structural)]
pub struct Error {
    pub cause: Cause,
}

pub type Result<T> = std::result::Result<T, Error>;

/// NDE field types.
#[derive(Debug, Clone, Copy, PartialEq, Eq, Structural)]
pub enum FieldType {
    Column,
    Index,
    Redirector,
    String,
    Integer,
    Boolean,
    Binary,
    Guid,
    Private,
    Float,
    Datetime,
    Length,
    Filename,
    Int64,
    Binary32,
    Int128,
}

/// The field type that a type code stands for, if any.
pub open spec fn type_of_code(c: u8) -> Option<FieldType> {
    if c == 0 {
        Some(FieldType::Column)
    } else if c == 1 {
        Some(FieldType::Index)
    } else if c == 2 {
        Some(FieldType::Redirector)
    } else if c == 3 {
        Some(FieldType::String)
    } else if c == 4 {
        Some(FieldType::Integer)
    } else if c == 5 {
        Some(FieldType::Boolean)
    } else if c == 6 {
        Some(FieldType::Binary)
    } else if c == 7 {
        Some(FieldType::Guid)
    } else if c == 8 {
        Some(FieldType::Private)
    } else if c == 9 {
        Some(FieldType::Float)
    } else if c == 10 {
        Some(FieldType::Datetime)
    } else if c == 11 {
        Some(FieldType::Length)
    } else if c == 12 {
        Some(FieldType::Filename)
    } else if c == 13 {
        Some(FieldType::Int64)
    } else if c == 14 {
        Some(FieldType::Binary32)
    } else if c == 15 {
        Some(FieldType::Int128)
    } else {
        None
    }
}

impl FieldType {
    /// The field type for a numeric type code; codes above 15 are refused.
    pub fn from(i: u8) -> (r: Result<FieldType>)
        ensures
            match r {
                Ok(t) => type_of_code(i) == Some(t),
                Err(e) => type_of_code(i) is None && e.cause == Cause::BadFieldType(i),
            },
    {
        match i {
            0 => Ok(FieldType::Column),
            1 => Ok(FieldType::Index),
            2 => Ok(FieldType::Redirector),
            3 => Ok(FieldType::String),
            4 => Ok(FieldType::Integer),
            5 => Ok(FieldType::Boolean),
            6 => Ok(FieldType::Binary),
            7 => Ok(FieldType::Guid),
            8 => Ok(FieldType::Private),
            9 => Ok(FieldType::Float),
            10 => Ok(FieldType::Datetime),
            11 => Ok(FieldType::Length),
            12 => Ok(FieldType::Filename),
            13 => Ok(FieldType::Int64),
            14 => Ok(FieldType::Binary32),
            15 => Ok(FieldType::Int128),
            _ => Err(Error { cause: Cause::BadFieldType(i) }),
        }
    }
}

/// The value a decoded field carries.
#[derive(Debug, PartialEq, Eq)]
pub enum FieldValue {
    /// A payload whose type is known but which is kept as raw bytes.
    Unknown,
    Column(i32, String),
    Index(i32, i32),
    String(String),
    Integer(i32),
    Boolean(bool),
    Datetime(i32),
    Length(i32),
    /// A file system path, as text.
    Filename(String),
    Int64(i64),
}

/// What a payload decodes to, with text as characters and raw data as bytes.
pub enum Payload {
    Column { col_type: FieldType, index_unique: bool, name: Seq<char> },
    Index { pos: u64, ftype: i32, name: Seq<char> },
    String(Seq<char>),
    Filename(Seq<char>),
    Integer(i32),
    Datetime(i32),
    Length(i32),
    Int64(i64),
    Unsupported(FieldType, Seq<u8>),
}

/// Common NDE field attributes: id, payload size, next field, previous field.
#[derive(Debug, Clone, Copy, PartialEq, Eq, Structural)]
pub struct NdeFieldBase {
    /// Id of the column that owns the field.
    pub id: i32,
    /// Size of the payload on disk.
    pub max_size_on_disk: usize,
    /// Offset of the previous field of the record, or zero.
    pub prev_field_pos: u64,
    /// Offset of the next field of the record, or zero at the end of the record.
    pub next_field_pos: u64,
}

/// The common header at `p`, given the id read before it; `None` where the buffer is too short.
pub open spec fn header_at(b: Seq<u8>, p: int, id: i32) -> Option<NdeFieldBase> {
    if 0 <= p && p + 12 <= b.len() {
        Some(
            NdeFieldBase {
                id,
                max_size_on_disk: le_u32(b, p) as usize,
                next_field_pos: le_u32(b, p + 4) as u64,
                prev_field_pos: le_u32(b, p + 8) as u64,
            },
        )
    } else {
        None
    }
}

/// UTF-16 code units, two bytes each, that follow the two-byte byte-order mark of `d`.
pub open spec fn utf16_units(d: Seq<u8>, big_endian: bool) -> Seq<u16> {
    Seq::new(
        ((d.len() - 2) / 2) as nat,
        |i: int|
            if big_endian {
                be_u16(d, 2 + 2 * i) as u16
            } else {
                le_u16(d, 2 + 2 * i) as u16
            },
    )
}

/// Whether `d` opens with the byte-order mark `m0 m1` and holds whole code units.
pub open spec fn has_bom(d: Seq<u8>, m0: u8, m1: u8) -> bool {
    d.len() >= 2 && d.len() % 2 == 0 && d[0] == m0 && d[1] == m1
}

/// The text that the bytes `d` of a string payload stand for: UTF-16LE after `FF FE`,
/// UTF-16BE after `FE FF`, UTF-8 otherwise.
pub open spec fn text_of(d: Seq<u8>) -> std::result::Result<Seq<char>, Cause> {
    if has_bom(d, 0xff, 0xfe) {
        match utf16_text(utf16_units(d, false)) {
            Some(t) => Ok(t),
            None => Err(Cause::NotUtf16),
        }
    } else if has_bom(d, 0xfe, 0xff) {
        match utf16_text(utf16_units(d, true)) {
            Some(t) => Ok(t),
            None => Err(Cause::NotUtf16),
        }
    } else if valid_utf8(d) {
        Ok(decode_utf8(d))
    } else {
        Err(Cause::NotUtf8)
    }
}

/// A string payload at `q`: a 16-bit little-endian byte count, then the text.
pub open spec fn text_at(b: Seq<u8>, q: int) -> std::result::Result<Seq<char>, Cause> {
    if q + 2 > b.len() {
        Err(Cause::ShortRead)
    } else if le_u16(b, q) == 0 {
        Ok(Seq::empty())
    } else if q + 2 + le_u16(b, q) > b.len() {
        Err(Cause::ShortRead)
    } else {
        text_of(b.subrange(q + 2, q + 2 + le_u16(b, q)))
    }
}

/// A length-prefixed name at `q`: a one-byte length, then UTF-8 text.
pub open spec fn name_at(b: Seq<u8>, q: int) -> std::result::Result<Seq<char>, Cause> {
    if q + 1 > b.len() || q + 1 + b[q] > b.len() {
        Err(Cause::ShortRead)
    } else if valid_utf8(b.subrange(q + 1, q + 1 + b[q])) {
        Ok(decode_utf8(b.subrange(q + 1, q + 1 + b[q])))
    } else {
        Err(Cause::NotUtf8)
    }
}

/// The payload of a field of type `ft` that starts at `q` and takes `size` bytes on disk.
pub open spec fn payload_at(b: Seq<u8>, q: int, size: int, ft: FieldType) -> std::result::Result<
    Payload,
    Cause,
> {
    match ft {
        FieldType::Column => {
            if q + 3 > b.len() {
                Err(Cause::ShortRead)
            } else {
                match type_of_code(b[q]) {
                    None => Err(Cause::BadFieldType(b[q])),
                    Some(t) => match name_at(b, q + 2) {
                        Ok(name) => Ok(
                            Payload::Column { col_type: t, index_unique: b[q + 1] != 0, name },
                        ),
                        Err(c) => Err(c),
                    },
                }
            }
        },
        FieldType::Index => {
            if q + 8 > b.len() {
                Err(Cause::ShortRead)
            } else {
                match name_at(b, q + 8) {
                    Ok(name) => Ok(
                        Payload::Index {
                            pos: le_u32(b, q) as u64,
                            ftype: le_i32(b, q + 4) as i32,
                            name,
                        },
                    ),
                    Err(c) => Err(c),
                }
            }
        },
        FieldType::String => match text_at(b, q) {
            Ok(t) => Ok(Payload::String(t)),
            Err(c) => Err(c),
        },
        FieldType::Filename => match text_at(b, q) {
            Ok(t) => Ok(Payload::Filename(t)),
            Err(c) => Err(c),
        },
        FieldType::Integer => if q + 4 > b.len() {
            Err(Cause::ShortRead)
        } else {
            Ok(Payload::Integer(le_i32(b, q) as i32))
        },
        FieldType::Datetime => if q + 4 > b.len() {
            Err(Cause::ShortRead)
        } else {
            Ok(Payload::Datetime(le_i32(b, q) as i32))
        },
        FieldType::Length => if q + 4 > b.len() {
            Err(Cause::ShortRead)
        } else {
            Ok(Payload::Length(le_i32(b, q) as i32))
        },
        FieldType::Int64 => if q + 8 > b.len() {
            Err(Cause::ShortRead)
        } else {
            Ok(Payload::Int64(le_i64(b, q) as i64))
        },
        _ => raw_at(b, q, size, ft),
    }
}

/// A payload of `size` bytes at `q`, kept as it is.
pub open spec fn raw_at(b: Seq<u8>, q: int, size: int, ft: FieldType) -> std::result::Result<
    Payload,
    Cause,
> {
    if q + size > b.len() {
        Err(Cause::ShortRead)
    } else {
        Ok(Payload::Unsupported(ft, b.subrange(q, q + size)))
    }
}

/// A field of type `ft` at `p` whose payload is kept as raw bytes.
pub open spec fn raw_field_at(b: Seq<u8>, p: int, id: i32, ft: FieldType) -> std::result::Result<
    (NdeFieldBase, Payload),
    Cause,
> {
    match header_at(b, p, id) {
        None => Err(Cause::ShortRead),
        Some(h) => match raw_at(b, p + 12, h.max_size_on_disk as int, ft) {
            Ok(pl) => Ok((h, pl)),
            Err(c) => Err(c),
        },
    }
}

/// The field of type `ft` whose common header starts at `p`, owned by column `id`.
pub open spec fn field_at(b: Seq<u8>, p: int, id: i32, ft: FieldType) -> std::result::Result<
    (NdeFieldBase, Payload),
    Cause,
> {
    match header_at(b, p, id) {
        None => Err(Cause::ShortRead),
        Some(h) => match payload_at(b, p + 12, h.max_size_on_disk as int, ft) {
            Ok(pl) => Ok((h, pl)),
            Err(c) => Err(c),
        },
    }
}

/// Whether a decoder's result `r` is the one that `s` describes.
pub open spec fn decodes_as<T: View<V = (NdeFieldBase, Payload)>>(
    r: Result<T>,
    s: std::result::Result<(NdeFieldBase, Payload), Cause>,
) -> bool {
    match r {
        Ok(f) => s == Ok::<(NdeFieldBase, Payload), Cause>(f@),
        Err(e) => s == Err::<(NdeFieldBase, Payload), Cause>(e.cause),
    }
}

fn short_read<T>() -> (r: Result<T>)
    ensures
        r matches Err(e) && e.cause == Cause::ShortRead,
{
    Err(Error { cause: Cause::ShortRead })
}

impl NdeFieldBase {
    /// Reads the common header at `p`; the caller already has the id, read while following
    /// redirects.
    pub fn new(b: &[u8], p: usize, id: i32) -> (r: Result<NdeFieldBase>)
        ensures
            match r {
                Ok(h) => header_at(b@, p as int, id) == Some(h),
                Err(e) => header_at(b@, p as int, id) is None && e.cause == Cause::ShortRead,
            },
    {
        if b.len() < HEADER_LEN || p > b.len() - HEADER_LEN {
            return short_read();
        }
        let max_size_on_disk = read_u32_le(b, p) as usize;
        let next_field_pos = read_u32_le(b, p + 4) as u64;
        let prev_field_pos = read_u32_le(b, p + 8) as u64;
        Ok(NdeFieldBase { id, max_size_on_disk, prev_field_pos, next_field_pos })
    }

    pub fn id(&self) -> (r: i32)
        ensures
            r == self.id,
    {
        self.id
    }

    pub fn max_size_on_disk(&self) -> (r: usize)
        ensures
            r == self.max_size_on_disk,
    {
        self.max_size_on_disk
    }

    pub fn next(&self) -> (r: u64)
        ensures
            r == self.next_field_pos,
    {
        self.next_field_pos
    }

    pub fn prev(&self) -> (r: u64)
        ensures
            r == self.prev_field_pos,
    {
        self.prev_field_pos
    }
}

/// Reads the one-byte-length-prefixed UTF-8 name at `q`.
fn read_name(b: &[u8], q: usize) -> (r: Result<String>)
    ensures
        match r {
            Ok(s) => name_at(b@, q as int) == Ok::<Seq<char>, Cause>(s@),
            Err(e) => name_at(b@, q as int) == Err::<Seq<char>, Cause>(e.cause),
        },
{
    if q >= b.len() {
        return short_read();
    }
    let cb = b[q] as usize;
    if cb > b.len() - q - 1 {
        return short_read();
    }
    match utf8_to_string(copy_range(b, q + 1, q + 1 + cb)) {
        Some(s) => Ok(s),
        None => Err(Error { cause: Cause::NotUtf8 }),
    }
}

/// Reads the string payload at `q`: a 16-bit little-endian byte count, then the text.
fn read_text(b: &[u8], q: usize) -> (r: Result<String>)
    ensures
        match r {
            Ok(s) => text_at(b@, q as int) == Ok::<Seq<char>, Cause>(s@),
            Err(e) => text_at(b@, q as int) == Err::<Seq<char>, Cause>(e.cause),
        },
{
    if b.len() < 2 || q > b.len() - 2 {
        return short_read();
    }
    let cb = read_u16_le(b, q) as usize;
    if cb == 0 {
        return Ok(String::new());
    }
    if cb > b.len() - q - 2 {
        return short_read();
    }
    decode_text(copy_range(b, q + 2, q + 2 + cb))
}

/// Decodes the bytes of a string payload, as `text_of` describes.
fn decode_text(d: Vec<u8>) -> (r: Result<String>)
    ensures
        match r {
            Ok(s) => text_of(d@) == Ok::<Seq<char>, Cause>(s@),
            Err(e) => text_of(d@) == Err::<Seq<char>, Cause>(e.cause),
        },
{
    let n = d.len();
    let even = n >= 2 && n % 2 == 0;
    if even && d[0] == 0xff && d[1] == 0xfe {
        let units = utf16_units_of(d.as_slice(), false);
        match utf16_to_string(units.as_slice()) {
            Some(s) => Ok(s),
            None => Err(Error { cause: Cause::NotUtf16 }),
        }
    } else if even && d[0] == 0xfe && d[1] == 0xff {
        let units = utf16_units_of(d.as_slice(), true);
        match utf16_to_string(units.as_slice()) {
            Some(s) => Ok(s),
            None => Err(Error { cause: Cause::NotUtf16 }),
        }
    } else {
        match utf8_to_string(d) {
            Some(s) => Ok(s),
            None => Err(Error { cause: Cause::NotUtf8 }),
        }
    }
}

/// Gathers the UTF-16 code units that follow the byte-order mark of `d`.
fn utf16_units_of(d: &[u8], big_endian: bool) -> (r: Vec<u16>)
    requires
        d@.len() >= 2,
        d@.len() % 2 == 0,
    ensures
        r@ == utf16_units(d@, big_endian),
{
    let count = (d.len() - 2) / 2;
    let mut r: Vec<u16> = Vec::with_capacity(count);
    let mut k: usize = 0;
    while k < count
        invariant
            count == (d@.len() - 2) / 2,
            d@.len() <= usize::MAX,
            d@.len() >= 2,
            d@.len() % 2 == 0,
            k <= count,
            r@ == utf16_units(d@, big_endian).take(k as int),
        decreases count - k,
    {
        let i = 2 + 2 * k;
        let u = if big_endian {
            read_u16_be(d, i)
        } else {
            read_u16_le(d, i)
        };
        r.push(u);
        k = k + 1;
        assert(r@ =~= utf16_units(d@, big_endian).take(k as int));
    }
    assert(r@ =~= utf16_units(d@, big_endian));
    r
}

/// An NDE field whose payload is kept as raw bytes.
#[derive(Debug)]
pub struct UnsupportedNdeField {
    pub base: NdeFieldBase,
    pub field_type: FieldType,
    pub bytes: Vec<u8>,
}

impl View for UnsupportedNdeField {
    type V = (NdeFieldBase, Payload);

    open spec fn view(&self) -> (NdeFieldBase, Payload) {
        (self.base, Payload::Unsupported(self.field_type, self.bytes@))
    }
}

impl UnsupportedNdeField {
    /// Reads the header at `p` and then `max_size_on_disk` bytes of payload.
    pub fn new(b: &[u8], p: usize, id: i32, ft: FieldType) -> (r: Result<UnsupportedNdeField>)
        ensures
            decodes_as(r, raw_field_at(b@, p as int, id, ft)),
    {
        let base = match NdeFieldBase::new(b, p, id) {
            Ok(h) => h,
            Err(e) => return Err(e),
        };
        let n = b.len();
        let q = p + HEADER_LEN;
        let size = base.max_size_on_disk();
        if size > n - q {
            return short_read();
        }
        let bytes = copy_range(b, q, q + size);
        Ok(UnsupportedNdeField { base, field_type: ft, bytes })
    }
}

/// NDE FIELD_COLUMN: a column of the table, declared in its first record.
#[derive(Debug)]
pub struct ColumnField {
    pub base: NdeFieldBase,
    pub col_type: FieldType,
    pub index_unique: bool,
    pub name: String,
}

impl View for ColumnField {
    type V = (NdeFieldBase, Payload);

    open spec fn view(&self) -> (NdeFieldBase, Payload) {
        (
            self.base,
            Payload::Column {
                col_type: self.col_type,
                index_unique: self.index_unique,
                name: self.name@,
            },
        )
    }
}

impl ColumnField {
    pub fn new(b: &[u8], p: usize, id: i32) -> (r: Result<ColumnField>)
        ensures
            decodes_as(r, field_at(b@, p as int, id, FieldType::Column)),
    {
        let base = match NdeFieldBase::new(b, p, id) {
            Ok(h) => h,
            Err(e) => return Err(e),
        };
        let n = b.len();
        let q = p + HEADER_LEN;
        if n - q < 3 {
            return short_read();
        }
        let col_type = FieldType::from(b[q])?;
        let index_unique = b[q + 1] != 0;
        let name = read_name(b, q + 2)?;
        Ok(ColumnField { base, col_type, index_unique, name })
    }

    pub fn name(&self) -> (r: String)
        ensures
            r@ == self.name@,
    {
        self.name.clone()
    }

    /// A copy of this column.
    pub fn duplicate(&self) -> (r: ColumnField)
        ensures
            r@ == self@,
    {
        ColumnField {
            base: self.base,
            col_type: self.col_type,
            index_unique: self.index_unique,
            name: self.name.clone(),
        }
    }
}

/// NDE FIELD_DATETIME
#[derive(Debug)]
pub struct DatetimeField {
    pub base: NdeFieldBase,
    pub data: i32,
}

impl View for DatetimeField {
    type V = (NdeFieldBase, Payload);

    open spec fn view(&self) -> (NdeFieldBase, Payload) {
        (self.base, Payload::Datetime(self.data))
    }
}

impl DatetimeField {
    pub fn new(b: &[u8], p: usize, id: i32) -> (r: Result<DatetimeField>)
        ensures
            decodes_as(r, field_at(b@, p as int, id, FieldType::Datetime)),
    {
        let base = match NdeFieldBase::new(b, p, id) {
            Ok(h) => h,
            Err(e) => return Err(e),
        };
        let n = b.len();
        let q = p + HEADER_LEN;
        if n - q < 4 {
            return short_read();
        }
        Ok(DatetimeField { base, data: read_i32_le(b, q) })
    }
}

/// NDE FIELD_FILENAME: a string payload naming a file.
#[derive(Debug)]
pub struct FilenameField {
    pub base: NdeFieldBase,
    pub path: String,
}

impl View for FilenameField {
    type V = (NdeFieldBase, Payload);

    open spec fn view(&self) -> (NdeFieldBase, Payload) {
        (self.base, Payload::Filename(self.path@))
    }
}

impl FilenameField {
    pub fn new(b: &[u8], p: usize, id: i32) -> (r: Result<FilenameField>)
        ensures
            decodes_as(r, field_at(b@, p as int, id, FieldType::Filename)),
    {
        let s = StringField::new(b, p, id)?;
        Ok(FilenameField { base: s.base, path: s.text })
    }
}

/// NDE FIELD_INDEX
#[derive(Debug)]
pub struct IndexField {
    pub base: NdeFieldBase,
    pub pos: u64,
    pub ftype: i32,
    pub name: String,
}

impl View for IndexField {
    type V = (NdeFieldBase, Payload);

    open spec fn view(&self) -> (NdeFieldBase, Payload) {
        (self.base, Payload::Index { pos: self.pos, ftype: self.ftype, name: self.name@ })
    }
}

impl IndexField {
    pub fn new(b: &[u8], p: usize, id: i32) -> (r: Result<IndexField>)
        ensures
            decodes_as(r, field_at(b@, p as int, id, FieldType::Index)),
    {
        let base = match NdeFieldBase::new(b, p, id) {
            Ok(h) => h,
            Err(e) => return Err(e),
        };
        let n = b.len();
        let q = p + HEADER_LEN;
        if n - q < 8 {
            return short_read();
        }
        let pos = read_u32_le(b, q) as u64;
        let ftype = read_i32_le(b, q + 4);
        let name = read_name(b, q + 8)?;
        Ok(IndexField { base, pos, ftype, name })
    }
}

/// NDE FIELD_INT64
#[derive(Debug)]
pub struct Int64Field {
    pub base: NdeFieldBase,
    pub data: i64,
}

impl View for Int64Field {
    type V = (NdeFieldBase, Payload);

    open spec fn view(&self) -> (NdeFieldBase, Payload) {
        (self.base, Payload::Int64(self.data))
    }
}

impl Int64Field {
    pub fn new(b: &[u8], p: usize, id: i32) -> (r: Result<Int64Field>)
        ensures
            decodes_as(r, field_at(b@, p as int, id, FieldType::Int64)),
    {
        let base = match NdeFieldBase::new(b, p, id) {
            Ok(h) => h,
            Err(e) => return Err(e),
        };
        let n = b.len();
        let q = p + HEADER_LEN;
        if n - q < 8 {
            return short_read();
        }
        Ok(Int64Field { base, data: read_i64_le(b, q) })
    }
}

/// NDE FIELD_INTEGER
#[derive(Debug)]
pub struct IntegerField {
    pub base: NdeFieldBase,
    pub data: i32,
}

impl View for IntegerField {
    type V = (NdeFieldBase, Payload);

    open spec fn view(&self) -> (NdeFieldBase, Payload) {
        (self.base, Payload::Integer(self.data))
    }
}

impl IntegerField {
    pub fn new(b: &[u8], p: usize, id: i32) -> (r: Result<IntegerField>)
        ensures
            decodes_as(r, field_at(b@, p as int, id, FieldType::Integer)),
    {
        let base = match NdeFieldBase::new(b, p, id) {
            Ok(h) => h,
            Err(e) => return Err(e),
        };
        let n = b.len();
        let q = p + HEADER_LEN;
        if n - q < 4 {
            return short_read();
        }
        Ok(IntegerField { base, data: read_i32_le(b, q) })
    }
}

/// NDE FIELD_LENGTH
#[derive(Debug)]
pub struct LengthField {
    pub base: NdeFieldBase,
    pub data: i32,
}

impl View for LengthField {
    type V = (NdeFieldBase, Payload);

    open spec fn view(&self) -> (NdeFieldBase, Payload) {
        (self.base, Payload::Length(self.data))
    }
}

impl LengthField {
    pub fn new(b: &[u8], p: usize, id: i32) -> (r: Result<LengthField>)
        ensures
            decodes_as(r, field_at(b@, p as int, id, FieldType::Length)),
    {
        let base = match NdeFieldBase::new(b, p, id) {
            Ok(h) => h,
            Err(e) => return Err(e),
        };
        let n = b.len();
        let q = p + HEADER_LEN;
        if n - q < 4 {
            return short_read();
        }
        Ok(LengthField { base, data: read_i32_le(b, q) })
    }
}

/// NDE FIELD_STRING
#[derive(Debug)]
pub struct StringField {
    pub base: NdeFieldBase,
    pub text: String,
}

impl View for StringField {
    type V = (NdeFieldBase, Payload);

    open spec fn view(&self) -> (NdeFieldBase, Payload) {
        (self.base, Payload::String(self.text@))
    }
}

impl StringField {
    pub fn new(b: &[u8], p: usize, id: i32) -> (r: Result<StringField>)
        ensures
            decodes_as(r, field_at(b@, p as int, id, FieldType::String)),
    {
        let base = match NdeFieldBase::new(b, p, id) {
            Ok(h) => h,
            Err(e) => return Err(e),
        };
        let n = b.len();
        assert(p + HEADER_LEN <= n);
        let text = read_text(b, p + HEADER_LEN)?;
        Ok(StringField { base, text })
    }

    pub fn text(&self) -> (r: String)
        ensures
            r@ == self.text@,
    {
        self.text.clone()
    }
}

/// A decoded field of any type.
#[derive(Debug)]
pub enum NdeField {
    Unsupported(UnsupportedNdeField),
    Column(ColumnField),
    Datetime(DatetimeField),
    Filename(FilenameField),
    Index(IndexField),
    Int64(Int64Field),
    Integer(IntegerField),
    Length(LengthField),
    String(StringField),
}

impl View for NdeField {
    type V = (NdeFieldBase, Payload);

    open spec fn view(&self) -> (NdeFieldBase, Payload) {
        match self {
            NdeField::Unsupported(f) => f@,
            NdeField::Column(f) => f@,
            NdeField::Datetime(f) => f@,
            NdeField::Filename(f) => f@,
            NdeField::Index(f) => f@,
            NdeField::Int64(f) => f@,
            NdeField::Integer(f) => f@,
            NdeField::Length(f) => f@,
            NdeField::String(f) => f@,
        }
    }
}

/// Whether `v` is the value of a field with header `h` and payload `pl`.
pub open spec fn is_value_of(v: FieldValue, h: NdeFieldBase, pl: Payload) -> bool {
    match pl {
        Payload::Column { name, .. } => v matches FieldValue::Column(i, s) && i == h.id && s@
            == name,
        Payload::Index { ftype, .. } => v == FieldValue::Index(h.id, ftype),
        Payload::String(t) => v matches FieldValue::String(s) && s@ == t,
        Payload::Filename(t) => v matches FieldValue::Filename(s) && s@ == t,
        Payload::Integer(x) => v == FieldValue::Integer(x),
        Payload::Datetime(x) => v == FieldValue::Datetime(x),
        Payload::Length(x) => v == FieldValue::Length(x),
        Payload::Int64(x) => v == FieldValue::Int64(x),
        Payload::Unsupported(..) => v == FieldValue::Unknown,
    }
}

/// The type a field reports: the type it was decoded as, or none for a raw payload.
pub open spec fn reported_type(pl: Payload) -> Option<FieldType> {
    match pl {
        Payload::Column { .. } => Some(FieldType::Column),
        Payload::Index { .. } => Some(FieldType::Index),
        Payload::String(_) => Some(FieldType::String),
        Payload::Filename(_) => Some(FieldType::Filename),
        Payload::Integer(_) => Some(FieldType::Integer),
        Payload::Datetime(_) => Some(FieldType::Datetime),
        Payload::Length(_) => Some(FieldType::Length),
        Payload::Int64(_) => Some(FieldType::Int64),
        Payload::Unsupported(..) => None,
    }
}

impl NdeField {
    pub fn base(&self) -> (r: &NdeFieldBase)
        ensures
            *r == self@.0,
    {
        match self {
            NdeField::Unsupported(f) => &f.base,
            NdeField::Column(f) => &f.base,
            NdeField::Datetime(f) => &f.base,
            NdeField::Filename(f) => &f.base,
            NdeField::Index(f) => &f.base,
            NdeField::Int64(f) => &f.base,
            NdeField::Integer(f) => &f.base,
            NdeField::Length(f) => &f.base,
            NdeField::String(f) => &f.base,
        }
    }

    pub fn id(&self) -> (r: i32)
        ensures
            r == self@.0.id,
    {
        self.base().id
    }

    pub fn type_id(&self) -> (r: Option<FieldType>)
        ensures
            r == reported_type(self@.1),
    {
        match self {
            NdeField::Unsupported(_) => None,
            NdeField::Column(_) => Some(FieldType::Column),
            NdeField::Datetime(_) => Some(FieldType::Datetime),
            NdeField::Filename(_) => Some(FieldType::Filename),
            NdeField::Index(_) => Some(FieldType::Index),
            NdeField::Int64(_) => Some(FieldType::Int64),
            NdeField::Integer(_) => Some(FieldType::Integer),
            NdeField::Length(_) => Some(FieldType::Length),
            NdeField::String(_) => Some(FieldType::String),
        }
    }

    pub fn prev_field_pos(&self) -> (r: u64)
        ensures
            r == self@.0.prev_field_pos,
    {
        self.base().prev_field_pos
    }

    pub fn next_field_pos(&self) -> (r: u64)
        ensures
            r == self@.0.next_field_pos,
    {
        self.base().next_field_pos
    }

    pub fn value(&self) -> (r: FieldValue)
        ensures
            is_value_of(r, self@.0, self@.1),
    {
        match self {
            NdeField::Unsupported(_) => FieldValue::Unknown,
            NdeField::Column(f) => FieldValue::Column(f.base.id, f.name.clone()),
            NdeField::Datetime(f) => FieldValue::Datetime(f.data),
            NdeField::Filename(f) => FieldValue::Filename(f.path.clone()),
            NdeField::Index(f) => FieldValue::Index(f.base.id, f.ftype),
            NdeField::Int64(f) => FieldValue::Int64(f.data),
            NdeField::Integer(f) => FieldValue::Integer(f.data),
            NdeField::Length(f) => FieldValue::Length(f.data),
            NdeField::String(f) => FieldValue::String(f.text.clone()),
        }
    }
}

/// Decodes the field of type `ft` whose common header starts at `p`.
pub fn field_factory(b: &[u8], p: usize, id: i32, ft: FieldType) -> (r: Result<NdeField>)
    ensures
        decodes_as(r, field_at(b@, p as int, id, ft)),
{
    match ft {
        FieldType::Column => match ColumnField::new(b, p, id) {
            Ok(f) => Ok(NdeField::Column(f)),
            Err(e) => Err(e),
        },
        FieldType::Datetime => match DatetimeField::new(b, p, id) {
            Ok(f) => Ok(NdeField::Datetime(f)),
            Err(e) => Err(e),
        },
        FieldType::Filename => match FilenameField::new(b, p, id) {
            Ok(f) => Ok(NdeField::Filename(f)),
            Err(e) => Err(e),
        },
        FieldType::Index => match IndexField::new(b, p, id) {
            Ok(f) => Ok(NdeField::Index(f)),
            Err(e) => Err(e),
        },
        FieldType::Integer => match IntegerField::new(b, p, id) {
            Ok(f) => Ok(NdeField::Integer(f)),
            Err(e) => Err(e),
        },
        FieldType::Int64 => match Int64Field::new(b, p, id) {
            Ok(f) => Ok(NdeField::Int64(f)),
            Err(e) => Err(e),
        },
        FieldType::Length => match LengthField::new(b, p, id) {
            Ok(f) => Ok(NdeField::Length(f)),
            Err(e) => Err(e),
        },
        FieldType::String => match StringField::new(b, p, id) {
            Ok(f) => Ok(NdeField::String(f)),
            Err(e) => Err(e),
        },
        _ => match UnsupportedNdeField::new(b, p, id, ft) {
            Ok(f) => Ok(NdeField::Unsupported(f)),
            Err(e) => Err(e),
        },
    }
}

/// Decoding is a function of the bytes: two buffers that agree decode alike at every
/// position, for every id and type.
pub proof fn decoding_is_deterministic(b1: Seq<u8>, b2: Seq<u8>, p: int, id: i32, ft: FieldType)
    requires
        b1 =~= b2,
    ensures
        field_at(b1, p, id, ft) == field_at(b2, p, id, ft),
{
}

/// How a string or file name payload of `cb` bytes decodes: no bytes give the empty text,
/// an even count after `FF FE` is little-endian UTF-16, after `FE FF` big-endian UTF-16, and
/// anything else is UTF-8, which fails on bytes that are not UTF-8 rather than replacing them.
pub proof fn string_payload_cases(b: Seq<u8>, q: int)
    requires
        0 <= q,
        q + 2 <= b.len(),
        q + 2 + le_u16(b, q) <= b.len(),
    ensures
        ({
            let d = b.subrange(q + 2, q + 2 + le_u16(b, q));
            &&& le_u16(b, q) == 0 ==> text_at(b, q) == Ok::<Seq<char>, Cause>(Seq::empty())
            &&& le_u16(b, q) != 0 && has_bom(d, 0xff, 0xfe) ==> text_at(b, q) == match utf16_text(
                utf16_units(d, false),
            ) {
                Some(t) => Ok(t),
                None => Err(Cause::NotUtf16),
            }
            &&& le_u16(b, q) != 0 && has_bom(d, 0xfe, 0xff) ==> text_at(b, q) == match utf16_text(
                utf16_units(d, true),
            ) {
                Some(t) => Ok(t),
                None => Err(Cause::NotUtf16),
            }
            &&& le_u16(b, q) != 0 && !has_bom(d, 0xff, 0xfe) && !has_bom(d, 0xfe, 0xff) ==> {
                &&& valid_utf8(d) ==> text_at(b, q) == Ok::<Seq<char>, Cause>(decode_utf8(d))
                &&& !valid_utf8(d) ==> text_at(b, q) == Err::<Seq<char>, Cause>(Cause::NotUtf8)
            }
        }),
{
}

} // verus!
