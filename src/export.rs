//! Reading a whole table: every record of the primary index, either as raw fields or as
//! tracks.
use vstd::prelude::*;

use crate::fields::{NdeField, NdeFieldBase, Payload};
use crate::index::{indices_of, read_indicies};
use crate::table::{read_columns, read_record, record_at, views};
use crate::tracks::{last_value, new_column_map, same_text, schema_of, Track, TrackAttrs};
use crate::{has_signature, opens_with, table_signature, Cause, Error, Result};

verus! {

/// The fields of the records at `offs`, in order; the first record that cannot be read gives
/// the result.
pub open spec fn records_from(dat: Seq<u8>, offs: Seq<u64>) -> std::result::Result<
    Seq<Seq<(NdeFieldBase, Payload)>>,
    Cause,
>
    decreases offs.len(),
{
    if offs.len() == 0 {
        Ok(Seq::empty())
    } else {
        match records_from(dat, offs.drop_last()) {
            Err(c) => Err(c),
            Ok(prev) => match record_at(dat, offs.last() as int, false) {
                Err(c) => Err(c),
                Ok(fs) => Ok(prev.push(fs)),
            },
        }
    }
}

/// The fields of the records at `offs`, in order, each of which must have a file name under
/// the column map `m`; the first record that fails gives the result.
pub open spec fn tracks_from(dat: Seq<u8>, offs: Seq<u64>, m: Map<i32, TrackAttrs>) -> std::result::Result<
    Seq<Seq<(NdeFieldBase, Payload)>>,
    Cause,
>
    decreases offs.len(),
{
    if offs.len() == 0 {
        Ok(Seq::empty())
    } else {
        match tracks_from(dat, offs.drop_last(), m) {
            Err(c) => Err(c),
            Ok(prev) => match record_at(dat, offs.last() as int, false) {
                Err(c) => Err(c),
                Ok(fs) => if last_value(m, fs, TrackAttrs::Filename) is None {
                    Err(Cause::NoFilename)
                } else {
                    Ok(prev.push(fs))
                },
            },
        }
    }
}

/// The record offsets of the first index in the index file `idx`, once both files have been
/// checked.
pub open spec fn primary_offsets(idx: Seq<u8>, dat: Seq<u8>) -> std::result::Result<Seq<u64>, Cause> {
    match indices_of(idx) {
        Err(c) => Err(c),
        Ok(ixs) => if ixs.len() == 0 {
            Err(Cause::NoIndicies)
        } else if !opens_with(dat, table_signature()) {
            Err(Cause::NoSig)
        } else {
            Ok(ixs[0].1.map_values(|e: (u64, i32)| e.0))
        },
    }
}

/// The records of a table, in the order of its first index.
pub open spec fn dump_of(idx: Seq<u8>, dat: Seq<u8>) -> std::result::Result<
    Seq<Seq<(NdeFieldBase, Payload)>>,
    Cause,
> {
    match primary_offsets(idx, dat) {
        Err(c) => Err(c),
        Ok(offs) => records_from(dat, offs),
    }
}

/// The column map that the first record of a table declares, and the fields of each record
/// from the third on.
pub open spec fn export_of(idx: Seq<u8>, dat: Seq<u8>) -> std::result::Result<
    (Map<i32, TrackAttrs>, Seq<Seq<(NdeFieldBase, Payload)>>),
    Cause,
> {
    match primary_offsets(idx, dat) {
        Err(c) => Err(c),
        Ok(offs) => if offs.len() < 2 {
            Err(Cause::MissingRecords)
        } else {
            match record_at(dat, offs[0] as int, true) {
                Err(c) => Err(c),
                Ok(cols) => match tracks_from(dat, offs.skip(2), schema_of(cols)) {
                    Err(c) => Err(c),
                    Ok(recs) => Ok((schema_of(cols), recs)),
                },
            }
        },
    }
}

/// Reads the index file and checks the data file's signature; returns the first index's
/// record offsets.
fn open_table(idx: &[u8], dat: &[u8]) -> (r: Result<Vec<u64>>)
    ensures
        match r {
            Ok(v) => primary_offsets(idx@, dat@) == Ok::<Seq<u64>, Cause>(v@),
            Err(e) => primary_offsets(idx@, dat@) == Err::<Seq<u64>, Cause>(e.cause),
        },
{
    let idxes = match read_indicies(idx) {
        Ok(v) => v,
        Err(e) => {
            return Err(e);
        },
    };
    if idxes.len() == 0 {
        return Err(Error { cause: Cause::NoIndicies });
    }
    let sig: Vec<u8> = vec![0x4e, 0x44, 0x45, 0x54, 0x41, 0x42, 0x4c, 0x45];
    assert(sig@ =~= table_signature());
    if !has_signature(dat, sig.as_slice()) {
        return Err(Error { cause: Cause::NoSig });
    }
    let primary = &idxes[0];
    let ghost offs = primary.table@.map_values(|e: (u64, i32)| e.0);
    assert(idxes@.map_values(|ix: crate::NdeIndex| ix@)[0] == primary@);
    let n = primary.len();
    let mut v: Vec<u64> = Vec::with_capacity(n);
    let mut i: usize = 0;
    while i < n
        invariant
            n == primary.table@.len(),
            offs == primary.table@.map_values(|e: (u64, i32)| e.0),
            i <= n,
            v@ == offs.take(i as int),
        decreases n - i,
    {
        v.push(primary.off(i));
        i = i + 1;
        assert(v@ =~= offs.take(i as int));
    }
    assert(v@ =~= offs);
    Ok(v)
}

/// Reads every record of a table, in the order of its first index, as decoded fields.
pub fn dump_records(idx: &[u8], dat: &[u8]) -> (r: Result<Vec<Vec<NdeField>>>)
    ensures
        match r {
            Ok(v) => dump_of(idx@, dat@) == Ok::<Seq<Seq<(NdeFieldBase, Payload)>>, Cause>(
                v@.map_values(|fs: Vec<NdeField>| views(fs@)),
            ),
            Err(e) => dump_of(idx@, dat@) == Err::<Seq<Seq<(NdeFieldBase, Payload)>>, Cause>(
                e.cause,
            ),
        },
{
    let offs = match open_table(idx, dat) {
        Ok(v) => v,
        Err(e) => {
            return Err(e);
        },
    };
    let mut recs: Vec<Vec<NdeField>> = Vec::with_capacity(offs.len());
    let mut i: usize = 0;
    assert(offs@.take(0) =~= Seq::<u64>::empty());
    assert(recs@.map_values(|fs: Vec<NdeField>| views(fs@)) =~= Seq::empty());
    while i < offs.len()
        invariant
            primary_offsets(idx@, dat@) == Ok::<Seq<u64>, Cause>(offs@),
            i <= offs@.len(),
            records_from(dat@, offs@.take(i as int)) == Ok::<
                Seq<Seq<(NdeFieldBase, Payload)>>,
                Cause,
            >(recs@.map_values(|fs: Vec<NdeField>| views(fs@))),
        decreases offs@.len() - i,
    {
        assert(offs@.take(i + 1).drop_last() =~= offs@.take(i as int));
        let fields = match read_record(dat, offs[i]) {
            Ok(f) => f,
            Err(e) => {
                proof {
                    lemma_records_fail(dat@, offs@, i as int);
                }
                return Err(e);
            },
        };
        let ghost before = recs@.map_values(|fs: Vec<NdeField>| views(fs@));
        recs.push(fields);
        i = i + 1;
        assert(recs@.map_values(|fs: Vec<NdeField>| views(fs@)) =~= before.push(
            views(fields@),
        ));
    }
    assert(offs@.take(i as int) =~= offs@);
    Ok(recs)
}

/// Once a record fails to read, so does the whole walk.
proof fn lemma_records_fail(dat: Seq<u8>, offs: Seq<u64>, i: int)
    requires
        0 <= i < offs.len(),
        records_from(dat, offs.take(i)) is Ok,
        record_at(dat, offs[i] as int, false) is Err,
    ensures
        records_from(dat, offs) == Err::<Seq<Seq<(NdeFieldBase, Payload)>>, Cause>(
            record_at(dat, offs[i] as int, false)->Err_0,
        ),
    decreases offs.len() - i,
{
    assert(offs.take(i + 1).drop_last() =~= offs.take(i));
    if i + 1 < offs.len() {
        lemma_records_fail_prefix(dat, offs, i + 1);
    } else {
        assert(offs.take(i + 1) =~= offs);
    }
}

/// A walk that fails on a prefix fails with the same cause on the whole.
proof fn lemma_records_fail_prefix(dat: Seq<u8>, offs: Seq<u64>, k: int)
    requires
        0 <= k <= offs.len(),
        records_from(dat, offs.take(k)) is Err,
    ensures
        records_from(dat, offs) == records_from(dat, offs.take(k)),
    decreases offs.len() - k,
{
    if k < offs.len() {
        assert(offs.take(k + 1).drop_last() =~= offs.take(k));
        lemma_records_fail_prefix(dat, offs, k + 1);
    } else {
        assert(offs.take(k) =~= offs);
    }
}

/// Reads the tracks of a table: the first record of its first index declares the columns, the
/// second is skipped, and each further record becomes a track. The first failure ends the
/// whole export.
pub fn export_tracks(idx: &[u8], dat: &[u8]) -> (r: Result<Vec<Track>>)
    ensures
        match r {
            Ok(ts) => export_of(idx@, dat@) matches Ok((m, recs)) && ts@.len() == recs.len()
                && forall|i: int, a: TrackAttrs|
                0 <= i < recs.len() ==> #[trigger] ts@[i].attr(a) == last_value(m, recs[i], a),
            Err(e) => export_of(idx@, dat@) == Err::<
                (Map<i32, TrackAttrs>, Seq<Seq<(NdeFieldBase, Payload)>>),
                Cause,
            >(e.cause),
        },
{
    let offs = match open_table(idx, dat) {
        Ok(v) => v,
        Err(e) => {
            return Err(e);
        },
    };
    if offs.len() < 2 {
        return Err(Error { cause: Cause::MissingRecords });
    }
    let cols = match read_columns(dat, offs[0]) {
        Ok(c) => c,
        Err(e) => {
            return Err(e);
        },
    };
    let col_map = new_column_map(&cols);
    let ghost m = col_map@;
    let ghost rest = offs@.skip(2);
    let ghost whole = export_of(idx@, dat@);
    assert(whole == match tracks_from(dat@, rest, m) {
        Ok(recs) => Ok((m, recs)),
        Err(c) => Err(c),
    });
    let mut trks: Vec<Track> = Vec::with_capacity(offs.len() - 2);
    let ghost mut recs: Seq<Seq<(NdeFieldBase, Payload)>> = Seq::empty();
    let mut i: usize = 2;
    assert(rest.take(0) =~= Seq::<u64>::empty());
    while i < offs.len()
        invariant
            2 <= i <= offs@.len(),
            rest == offs@.skip(2),
            col_map@ == m,
            whole == export_of(idx@, dat@),
            whole == match tracks_from(dat@, rest, m) {
                Ok(recs) => Ok((m, recs)),
                Err(c) => Err(c),
            },
            tracks_from(dat@, rest.take(i - 2), m) == Ok::<
                Seq<Seq<(NdeFieldBase, Payload)>>,
                Cause,
            >(recs),
            trks@.len() == recs.len(),
            forall|j: int, a: TrackAttrs|
                0 <= j < recs.len() ==> #[trigger] trks@[j].attr(a) == last_value(m, recs[j], a),
        decreases offs@.len() - i,
    {
        assert(rest.take(i - 1).drop_last() =~= rest.take(i - 2));
        assert(rest.take(i - 1).last() == offs@[i as int]);
        let fields = match read_record(dat, offs[i]) {
            Ok(f) => f,
            Err(e) => {
                proof {
                    lemma_tracks_fail_prefix(dat@, rest, i - 1, m);
                }
                return Err(e);
            },
        };
        let t = match Track::new(&col_map, &fields) {
            Ok(t) => t,
            Err(_) => {
                proof {
                    lemma_tracks_fail_prefix(dat@, rest, i - 1, m);
                }
                return Err(Error { cause: Cause::NoFilename });
            },
        };
        assert(t.attr(TrackAttrs::Filename) is Some);
        trks.push(t);
        proof {
            recs = recs.push(views(fields@));
        }
        i = i + 1;
    }
    assert(rest.take(i - 2) =~= rest);
    Ok(trks)
}

/// A track walk that fails on a prefix fails with the same cause on the whole.
proof fn lemma_tracks_fail_prefix(dat: Seq<u8>, offs: Seq<u64>, k: int, m: Map<i32, TrackAttrs>)
    requires
        0 <= k <= offs.len(),
        tracks_from(dat, offs.take(k), m) is Err,
    ensures
        tracks_from(dat, offs, m) == tracks_from(dat, offs.take(k), m),
    decreases offs.len() - k,
{
    if k < offs.len() {
        assert(offs.take(k + 1).drop_last() =~= offs.take(k));
        lemma_tracks_fail_prefix(dat, offs, k + 1, m);
    } else {
        assert(offs.take(k) =~= offs);
    }
}

/// How `dump` prints each field.
#[derive(Debug, Clone, Copy, PartialEq, Eq, Structural)]
pub enum DumpFormat {
    Display,
    Sexp,
    Json,
}

impl DumpFormat {
    /// The format named `x`: `display`, `sexp` or `json`.
    pub fn try_from(x: &str) -> (r: Result<DumpFormat>)
        ensures
            match r {
                Ok(f) => {
                    ||| f == DumpFormat::Display && x@ == "display"@
                    ||| f == DumpFormat::Sexp && x@ == "sexp"@
                    ||| f == DumpFormat::Json && x@ == "json"@
                },
                Err(e) => {
                    &&& x@ != "display"@ && x@ != "sexp"@ && x@ != "json"@
                    &&& e.cause matches Cause::BadFormat(s) && s@ == x@
                },
            },
    {
        if same_text(x, "display") {
            Ok(DumpFormat::Display)
        } else if same_text(x, "sexp") {
            Ok(DumpFormat::Sexp)
        } else if same_text(x, "json") {
            Ok(DumpFormat::Json)
        } else {
            Err(Error { cause: Cause::BadFormat(x.to_owned()) })
        }
    }
}

/// The document format that `export` writes.
#[derive(Debug, Clone, Copy, PartialEq, Eq, Structural)]
pub enum ExportFormat {
    Json,
    Sexp,
}

impl ExportFormat {
    /// The format named `x`: `sexp` or `json`.
    pub fn try_from(x: &str) -> (r: Result<ExportFormat>)
        ensures
            match r {
                Ok(f) => {
                    ||| f == ExportFormat::Sexp && x@ == "sexp"@
                    ||| f == ExportFormat::Json && x@ == "json"@
                },
                Err(e) => {
                    &&& x@ != "sexp"@ && x@ != "json"@
                    &&& e.cause matches Cause::BadFormat(s) && s@ == x@
                },
            },
    {
        if same_text(x, "sexp") {
            Ok(ExportFormat::Sexp)
        } else if same_text(x, "json") {
            Ok(ExportFormat::Json)
        } else {
            Err(Error { cause: Cause::BadFormat(x.to_owned()) })
        }
    }
}

} // verus!
