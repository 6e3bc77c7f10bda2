//! Little-endian integers and encoded text, read out of an in-memory byte buffer.
use vstd::prelude::*;
use vstd::utf8::{decode_utf8, valid_utf8};

verus! {

/// The unsigned little-endian value of the two bytes at `p`.
pub open spec fn le_u16(b: Seq<u8>, p: int) -> int {
    b[p] + 256 * b[p + 1]
}

/// The unsigned big-endian value of the two bytes at `p`.
pub open spec fn be_u16(b: Seq<u8>, p: int) -> int {
    256 * b[p] + b[p + 1]
}

/// The unsigned little-endian value of the four bytes at `p`.
pub open spec fn le_u32(b: Seq<u8>, p: int) -> int {
    le_u16(b, p) + 0x1_0000 * le_u16(b, p + 2)
}

/// The two's-complement little-endian value of the four bytes at `p`.
pub open spec fn le_i32(b: Seq<u8>, p: int) -> int {
    if le_u32(b, p) < 0x8000_0000 {
        le_u32(b, p)
    } else {
        le_u32(b, p) - 0x1_0000_0000
    }
}

/// The unsigned little-endian value of the eight bytes at `p`.
pub open spec fn le_u64(b: Seq<u8>, p: int) -> int {
    le_u32(b, p) + 0x1_0000_0000 * le_u32(b, p + 4)
}

/// The two's-complement little-endian value of the eight bytes at `p`.
pub open spec fn le_i64(b: Seq<u8>, p: int) -> int {
    if le_u64(b, p) < 0x8000_0000_0000_0000 {
        le_u64(b, p)
    } else {
        le_u64(b, p) - 0x1_0000_0000_0000_0000
    }
}

/// What decoding `units` as UTF-16 yields: `None` where they are not well-formed UTF-16.
pub uninterp spec fn utf16_text(units: Seq<u16>) -> Option<Seq<char>>;

pub fn read_u16_le(b: &[u8], p: usize) -> (r: u16)
    requires
        p + 2 <= b@.len(),
    ensures
        r == le_u16(b@, p as int),
{
    (b[p] as u16) + (b[p + 1] as u16) * 256
}

pub fn read_u16_be(b: &[u8], p: usize) -> (r: u16)
    requires
        p + 2 <= b@.len(),
    ensures
        r == be_u16(b@, p as int),
{
    (b[p] as u16) * 256 + (b[p + 1] as u16)
}

pub fn read_u32_le(b: &[u8], p: usize) -> (r: u32)
    requires
        p + 4 <= b@.len(),
    ensures
        r == le_u32(b@, p as int),
{
    let n = b.len();
    assert(p + 4 <= n);
    let lo = read_u16_le(b, p) as u32;
    let hi = read_u16_le(b, p + 2) as u32;
    lo + hi * 0x1_0000
}

pub fn read_i32_le(b: &[u8], p: usize) -> (r: i32)
    requires
        p + 4 <= b@.len(),
    ensures
        r == le_i32(b@, p as int),
{
    let u = read_u32_le(b, p);
    if u < 0x8000_0000 {
        u as i32
    } else {
        ((u - 0x8000_0000) as i32) + i32::MIN
    }
}

pub fn read_u64_le(b: &[u8], p: usize) -> (r: u64)
    requires
        p + 8 <= b@.len(),
    ensures
        r == le_u64(b@, p as int),
{
    let n = b.len();
    assert(p + 8 <= n);
    let lo = read_u32_le(b, p) as u64;
    let hi = read_u32_le(b, p + 4) as u64;
    lo + hi * 0x1_0000_0000
}

pub fn read_i64_le(b: &[u8], p: usize) -> (r: i64)
    requires
        p + 8 <= b@.len(),
    ensures
        r == le_i64(b@, p as int),
{
    let u = read_u64_le(b, p);
    if u < 0x8000_0000_0000_0000 {
        u as i64
    } else {
        ((u - 0x8000_0000_0000_0000) as i64) + i64::MIN
    }
}

/// Copies `b[from..to]` into a fresh vector.
pub fn copy_range(b: &[u8], from: usize, to: usize) -> (r: Vec<u8>)
    requires
        from <= to <= b@.len(),
    ensures
        r@ == b@.subrange(from as int, to as int),
{
    let mut r: Vec<u8> = Vec::with_capacity(to - from);
    let mut i: usize = from;
    while i < to
        invariant
            from <= i <= to <= b@.len(),
            r@ == b@.subrange(from as int, i as int),
        decreases to - i,
    {
        r.push(b[i]);
        i = i + 1;
        assert(r@ =~= b@.subrange(from as int, i as int));
    }
    r
}

/// Relies on `String::from_utf8`: it accepts exactly the well-formed UTF-8 sequences and
/// returns the characters that they encode.
#[verifier::external_body]
pub(crate) fn utf8_to_string(bytes: Vec<u8>) -> (r: Option<String>)
    ensures
        r is Some <==> valid_utf8(bytes@),
        r matches Some(s) ==> s@ == decode_utf8(bytes@),
{
    String::from_utf8(bytes).ok()
}

/// Relies on `String::from_utf16`: its result depends on the code units alone.
#[verifier::external_body]
pub(crate) fn utf16_to_string(units: &[u16]) -> (r: Option<String>)
    ensures
        match r {
            Some(s) => utf16_text(units@) == Some(s@),
            None => utf16_text(units@) is None,
        },
{
    String::from_utf16(units).ok()
}

} // verus!
