//! The index file: the signature `"NDEINDEX"`, the number `N` of records, then blocks of an
//! index id and `N` pairs of a record offset and an auxiliary key, until the file ends.
use vstd::prelude::*;

use crate::wire::{le_i32, le_u32, read_i32_le, read_u32_le};
use crate::{has_signature, index_signature, opens_with, Cause, Error, Result};

verus! {

/// One traversal order over the records of a table.
#[derive(Debug)]
pub struct NdeIndex {
    /// The index id; the primary index has id 255.
    pub id: i32,
    /// Record offset and auxiliary key of each record, in index order.
    pub table: Vec<(u64, i32)>,
}

impl View for NdeIndex {
    type V = (i32, Seq<(u64, i32)>);

    open spec fn view(&self) -> (i32, Seq<(u64, i32)>) {
        (self.id, self.table@)
    }
}

/// The `n` entries of the index block at `p`.
pub open spec fn block_entries(b: Seq<u8>, p: int, n: nat) -> Seq<(u64, i32)> {
    Seq::new(n, |i: int| (le_u32(b, p + 4 + 8 * i) as u64, le_i32(b, p + 8 + 8 * i) as i32))
}

/// The index block at `p` with `n` entries; `None` exactly at the end of the file.
pub open spec fn block_at(b: Seq<u8>, p: int, n: nat) -> std::result::Result<
    Option<(i32, Seq<(u64, i32)>)>,
    Cause,
> {
    if p >= b.len() {
        Ok(None)
    } else if p + 4 + 8 * n > b.len() {
        Err(Cause::ShortRead)
    } else {
        Ok(Some((le_i32(b, p) as i32, block_entries(b, p, n))))
    }
}

/// The index blocks from `p` to the end of the file.
pub open spec fn blocks_from(b: Seq<u8>, p: int, n: nat) -> std::result::Result<
    Seq<(i32, Seq<(u64, i32)>)>,
    Cause,
>
    decreases b.len() - p,
{
    if p >= b.len() {
        Ok(Seq::empty())
    } else if p + 4 + 8 * n > b.len() {
        Err(Cause::ShortRead)
    } else {
        match blocks_from(b, p + 4 + 8 * n, n) {
            Ok(rest) => Ok(seq![(le_i32(b, p) as i32, block_entries(b, p, n))] + rest),
            Err(c) => Err(c),
        }
    }
}

/// The indices of an index file.
pub open spec fn indices_of(b: Seq<u8>) -> std::result::Result<
    Seq<(i32, Seq<(u64, i32)>)>,
    Cause,
> {
    if !opens_with(b, index_signature()) {
        Err(Cause::NoSig)
    } else if b.len() < 12 {
        Err(Cause::ShortRead)
    } else {
        blocks_from(b, 12, le_u32(b, 8) as nat)
    }
}

impl NdeIndex {
    /// Reads the index block at `p` of an index file whose indices have `nrec` entries each;
    /// `None` where `p` is the end of the file.
    pub fn from_reader(b: &[u8], p: usize, nrec: usize) -> (r: Result<Option<NdeIndex>>)
        ensures
            match r {
                Ok(None) => block_at(b@, p as int, nrec as nat) == Ok::<
                    Option<(i32, Seq<(u64, i32)>)>,
                    Cause,
                >(None),
                Ok(Some(ix)) => block_at(b@, p as int, nrec as nat) == Ok::<
                    Option<(i32, Seq<(u64, i32)>)>,
                    Cause,
                >(Some(ix@)),
                Err(e) => block_at(b@, p as int, nrec as nat) == Err::<
                    Option<(i32, Seq<(u64, i32)>)>,
                    Cause,
                >(e.cause),
            },
    {
        let n = b.len();
        if p >= n {
            return Ok(None);
        }
        if ((n - p) as u128) < 4 + 8 * (nrec as u128) {
            return Err(Error { cause: Cause::ShortRead });
        }
        let id = read_i32_le(b, p);
        let mut table: Vec<(u64, i32)> = Vec::with_capacity(nrec);
        let mut k: usize = 0;
        let mut q: usize = p + 4;
        while k < nrec
            invariant
                n == b@.len(),
                p + 4 + 8 * nrec <= n,
                k <= nrec,
                q == p + 4 + 8 * k,
                table@ == block_entries(b@, p as int, nrec as nat).take(k as int),
            decreases nrec - k,
        {
            let off = read_u32_le(b, q) as u64;
            let key = read_i32_le(b, q + 4);
            table.push((off, key));
            k = k + 1;
            q = q + 8;
            assert(table@ =~= block_entries(b@, p as int, nrec as nat).take(k as int));
        }
        assert(table@ =~= block_entries(b@, p as int, nrec as nat));
        Ok(Some(NdeIndex { id, table }))
    }

    /// The offset of record `i` in this index.
    pub fn off(&self, i: usize) -> (r: u64)
        requires
            i < self.table@.len(),
        ensures
            r == self.table@[i as int].0,
    {
        self.table[i].0
    }

    /// The number of records in this index.
    pub fn len(&self) -> (r: usize)
        ensures
            r == self.table@.len(),
    {
        self.table.len()
    }

    pub fn id(&self) -> (r: i32)
        ensures
            r == self.id,
    {
        self.id
    }
}

/// Reads all indices out of the bytes of an index file.
pub fn read_indicies(b: &[u8]) -> (r: Result<Vec<NdeIndex>>)
    ensures
        match r {
            Ok(v) => indices_of(b@) == Ok::<Seq<(i32, Seq<(u64, i32)>)>, Cause>(
                v@.map_values(|ix: NdeIndex| ix@),
            ),
            Err(e) => indices_of(b@) == Err::<Seq<(i32, Seq<(u64, i32)>)>, Cause>(e.cause),
        },
{
    let sig: Vec<u8> = vec![0x4e, 0x44, 0x45, 0x49, 0x4e, 0x44, 0x45, 0x58];
    assert(sig@ =~= index_signature());
    if !has_signature(b, sig.as_slice()) {
        return Err(Error { cause: Cause::NoSig });
    }
    let n = b.len();
    if n < 12 {
        return Err(Error { cause: Cause::ShortRead });
    }
    let nrecs = read_u32_le(b, 8) as usize;
    let ghost total = blocks_from(b@, 12, nrecs as nat);
    assert(total == indices_of(b@));
    let mut idxes: Vec<NdeIndex> = Vec::new();
    let mut p: usize = 12;
    loop
        invariant
            n == b@.len(),
            12 <= p <= n,
            total == indices_of(b@),
            total == match blocks_from(b@, p as int, nrecs as nat) {
                Ok(rest) => Ok(idxes@.map_values(|ix: NdeIndex| ix@) + rest),
                Err(c) => Err(c),
            },
        decreases n - p,
    {
        match NdeIndex::from_reader(b, p, nrecs) {
            Err(e) => {
                assert(blocks_from(b@, p as int, nrecs as nat) == Err::<
                    Seq<(i32, Seq<(u64, i32)>)>,
                    Cause,
                >(e.cause));
                return Err(e);
            },
            Ok(None) => {
                assert(idxes@.map_values(|ix: NdeIndex| ix@) + Seq::empty() =~= idxes@.map_values(
                    |ix: NdeIndex| ix@,
                ));
                return Ok(idxes);
            },
            Ok(Some(ix)) => {
                let ghost before = idxes@.map_values(|ix: NdeIndex| ix@);
                idxes.push(ix);
                p = p + 4 + 8 * nrecs;
                let ghost after = idxes@.map_values(|ix: NdeIndex| ix@);
                assert(after =~= before.push(ix@));
                proof {
                    match blocks_from(b@, p as int, nrecs as nat) {
                        Ok(rest) => {
                            assert(before + (seq![ix@] + rest) =~= after + rest);
                        },
                        Err(_) => {},
                    }
                }
            },
        }
    }
}

/// An index file that does not open with `"NDEINDEX"` is refused for its signature, whatever
/// else it holds, including a file too short to hold a signature at all.
pub proof fn unsigned_index_is_refused(b: Seq<u8>)
    requires
        !opens_with(b, index_signature()),
    ensures
        indices_of(b) == Err::<Seq<(i32, Seq<(u64, i32)>)>, Cause>(Cause::NoSig),
{
}

} // verus!
