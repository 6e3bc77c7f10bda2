//! Walking the data file: following redirects to a field, and following a record's chain of
//! fields from its first field to the one whose `next` offset is zero.
use vstd::prelude::*;

use crate::fields::{
    field_at, field_factory, type_of_code, ColumnField, FieldType, NdeField, NdeFieldBase,
    Payload,
};
use crate::wire::{le_u32, read_u32_le};
use crate::{field_cause, Cause, Error, Result};

verus! {

/// The most redirects followed on the way to one field.
pub const MAX_REDIRECTS: u32 = 32;

/// The id, the type and the header position of the field reached from `p` by following at most
/// `hops` redirects.
pub open spec fn resolve(b: Seq<u8>, p: int, hops: nat) -> std::result::Result<
    (u8, FieldType, int),
    Cause,
>
    decreases hops,
{
    if p < 0 || p + 2 > b.len() {
        Err(Cause::ShortRead)
    } else {
        match type_of_code(b[p + 1]) {
            None => Err(Cause::BadFieldType(b[p + 1])),
            Some(FieldType::Redirector) => {
                if p + 6 > b.len() {
                    Err(Cause::ShortRead)
                } else if hops == 0 {
                    Err(Cause::TooManyRedirects)
                } else {
                    resolve(b, le_u32(b, p + 2), (hops - 1) as nat)
                }
            },
            Some(t) => Ok((b[p], t, p + 2)),
        }
    }
}

/// Reads a field's id and type at `at`, following redirects: a redirect's payload is the
/// 32-bit little-endian offset of the field it stands for.
pub fn follow_redirects(b: &[u8], at: u64) -> (r: Result<(u8, FieldType, usize)>)
    ensures
        match r {
            Ok((id, t, q)) => resolve(b@, at as int, MAX_REDIRECTS as nat) == Ok::<
                (u8, FieldType, int),
                Cause,
            >((id, t, q as int)),
            Err(e) => resolve(b@, at as int, MAX_REDIRECTS as nat) == Err::<
                (u8, FieldType, int),
                Cause,
            >(e.cause),
        },
{
    let n = b.len();
    let mut p: u64 = at;
    let mut hops: u32 = MAX_REDIRECTS;
    loop
        invariant
            n == b@.len(),
            resolve(b@, at as int, MAX_REDIRECTS as nat) == resolve(b@, p as int, hops as nat),
        decreases hops,
    {
        if p >= n as u64 || (n as u64) - p < 2 {
            return Err(Error { cause: Cause::ShortRead });
        }
        let q = p as usize;
        let ft = match FieldType::from(b[q + 1]) {
            Ok(t) => t,
            Err(e) => {
                return Err(Error::from_field_error(e));
            },
        };
        if ft != FieldType::Redirector {
            return Ok((b[q], ft, q + 2));
        }
        if n - q < 6 {
            return Err(Error { cause: Cause::ShortRead });
        }
        if hops == 0 {
            return Err(Error { cause: Cause::TooManyRedirects });
        }
        p = read_u32_le(b, q + 2) as u64;
        hops = hops - 1;
    }
}

/// The fields of the chain that starts at `p`, taking at most `fuel` fields; where
/// `columns_only`, a field that is not a column ends the walk with an error.
pub open spec fn chain(b: Seq<u8>, p: int, fuel: nat, columns_only: bool) -> std::result::Result<
    Seq<(NdeFieldBase, Payload)>,
    Cause,
>
    decreases fuel,
{
    if fuel == 0 {
        Err(Cause::CyclicRecord)
    } else {
        match resolve(b, p, MAX_REDIRECTS as nat) {
            Err(c) => Err(c),
            Ok((id, ft, q)) => {
                if columns_only && ft != FieldType::Column {
                    Err(Cause::NonColumnField(ft))
                } else {
                    match field_at(b, q, id as i32, ft) {
                        Err(c) => Err(field_cause(c)),
                        Ok(f) => {
                            if f.0.next_field_pos == 0 {
                                Ok(seq![f])
                            } else {
                                match chain(
                                    b,
                                    f.0.next_field_pos as int,
                                    (fuel - 1) as nat,
                                    columns_only,
                                ) {
                                    Ok(rest) => Ok(seq![f] + rest),
                                    Err(c) => Err(c),
                                }
                            }
                        },
                    }
                }
            },
        }
    }
}

/// The fields of the record that starts at `at`.
///
/// A chain that ends visits each offset once, and each offset lies inside the file, so a
/// chain of more fields than the file has bytes never ends.
pub open spec fn record_at(b: Seq<u8>, at: int, columns_only: bool) -> std::result::Result<
    Seq<(NdeFieldBase, Payload)>,
    Cause,
> {
    chain(b, at, b.len(), columns_only)
}

/// What each field of `v` decodes to.
pub open spec fn views(v: Seq<NdeField>) -> Seq<(NdeFieldBase, Payload)> {
    v.map_values(|f: NdeField| f@)
}

/// Walks the chain of fields that starts at `at`.
fn walk_fields(b: &[u8], at: u64, columns_only: bool) -> (r: Result<Vec<NdeField>>)
    ensures
        match r {
            Ok(v) => record_at(b@, at as int, columns_only) == Ok::<
                Seq<(NdeFieldBase, Payload)>,
                Cause,
            >(views(v@)),
            Err(e) => record_at(b@, at as int, columns_only) == Err::<
                Seq<(NdeFieldBase, Payload)>,
                Cause,
            >(e.cause),
        },
{
    let ghost total = record_at(b@, at as int, columns_only);
    let mut fields: Vec<NdeField> = Vec::new();
    let mut p: u64 = at;
    let mut fuel: usize = b.len();
    loop
        invariant
            total == record_at(b@, at as int, columns_only),
            total == match chain(b@, p as int, fuel as nat, columns_only) {
                Ok(rest) => Ok(views(fields@) + rest),
                Err(c) => Err(c),
            },
        decreases fuel,
    {
        if fuel == 0 {
            return Err(Error { cause: Cause::CyclicRecord });
        }
        let (id, ft, q) = match follow_redirects(b, p) {
            Ok(x) => x,
            Err(e) => {
                return Err(e);
            },
        };
        if columns_only && ft != FieldType::Column {
            return Err(Error { cause: Cause::NonColumnField(ft) });
        }
        let f = match field_factory(b, q, id as i32, ft) {
            Ok(f) => f,
            Err(e) => {
                return Err(Error::from_field_error(e));
            },
        };
        let next = f.next_field_pos();
        let ghost before = views(fields@);
        let ghost fv = f@;
        fields.push(f);
        assert(views(fields@) =~= before.push(fv));
        if next == 0 {
            assert(before + seq![fv] =~= views(fields@));
            return Ok(fields);
        }
        p = next;
        fuel = fuel - 1;
        proof {
            match chain(b@, p as int, fuel as nat, columns_only) {
                Ok(rest) => {
                    assert(before + (seq![fv] + rest) =~= views(fields@) + rest);
                },
                Err(_) => {},
            }
        }
    }
}

/// Reads the fields of the record whose first field is at `at`, in chain order.
pub fn read_record(b: &[u8], at: u64) -> (r: Result<Vec<NdeField>>)
    ensures
        match r {
            Ok(v) => record_at(b@, at as int, false) == Ok::<
                Seq<(NdeFieldBase, Payload)>,
                Cause,
            >(views(v@)),
            Err(e) => record_at(b@, at as int, false) == Err::<
                Seq<(NdeFieldBase, Payload)>,
                Cause,
            >(e.cause),
        },
{
    walk_fields(b, at, false)
}

/// Reads the columns that the schema record at `at` declares; any other kind of field there
/// is an error.
pub fn read_columns(b: &[u8], at: u64) -> (r: Result<Vec<ColumnField>>)
    ensures
        match r {
            Ok(v) => record_at(b@, at as int, true) == Ok::<Seq<(NdeFieldBase, Payload)>, Cause>(
                v@.map_values(|c: ColumnField| c@),
            ),
            Err(e) => record_at(b@, at as int, true) == Err::<
                Seq<(NdeFieldBase, Payload)>,
                Cause,
            >(e.cause),
        },
{
    let fields = walk_fields(b, at, true)?;
    let ghost fs = views(fields@);
    proof {
        lemma_column_chain(b@, at as int, b@.len(), fs);
    }
    let mut cols: Vec<ColumnField> = Vec::with_capacity(fields.len());
    let mut k: usize = 0;
    while k < fields.len()
        invariant
            fs == views(fields@),
            k <= fields@.len(),
            cols@.map_values(|c: ColumnField| c@) == fs.take(k as int),
            forall|i: int| 0 <= i < fs.len() ==> (#[trigger] fs[i]).1 is Column,
        decreases fields@.len() - k,
    {
        assert(fs[k as int] == fields@[k as int]@);
        match &fields[k] {
            NdeField::Column(c) => {
                let ghost before = cols@.map_values(|c: ColumnField| c@);
                cols.push(c.duplicate());
                assert(cols@.map_values(|c: ColumnField| c@) =~= before.push(fs[k as int]));
            },
            _ => {
                assert(fs[k as int].1 is Column);
            },
        }
        k = k + 1;
        assert(cols@.map_values(|c: ColumnField| c@) =~= fs.take(k as int));
    }
    assert(fs.take(k as int) =~= fs);
    Ok(cols)
}

/// Every field of a chain walked with `columns_only` is a column.
proof fn lemma_column_chain(b: Seq<u8>, p: int, fuel: nat, fs: Seq<(NdeFieldBase, Payload)>)
    requires
        chain(b, p, fuel, true) == Ok::<Seq<(NdeFieldBase, Payload)>, Cause>(fs),
    ensures
        forall|i: int| 0 <= i < fs.len() ==> (#[trigger] fs[i]).1 is Column,
    decreases fuel,
{
    match resolve(b, p, MAX_REDIRECTS as nat) {
        Ok((id, ft, q)) => {
            match field_at(b, q, id as i32, ft) {
                Ok(f) => {
                    if f.0.next_field_pos != 0 {
                        let next = f.0.next_field_pos as int;
                        match chain(b, next, (fuel - 1) as nat, true) {
                            Ok(rest) => {
                                lemma_column_chain(b, next, (fuel - 1) as nat, rest);
                                assert forall|i: int| 0 <= i < fs.len() implies (
                                #[trigger] fs[i]).1 is Column by {
                                    if i > 0 {
                                        assert(fs[i] == rest[i - 1]);
                                    }
                                }
                            },
                            Err(_) => {},
                        }
                    }
                },
                Err(_) => {},
            }
        },
        Err(_) => {},
    }
}

/// A field that is no redirect resolves to itself: its id, its type, and the position right
/// after them.
pub proof fn direct_field_resolves_to_itself(b: Seq<u8>, x: int, t: FieldType, hops: nat)
    requires
        0 <= x,
        x + 2 <= b.len(),
        type_of_code(b[x + 1]) == Some(t),
        t != FieldType::Redirector,
    ensures
        resolve(b, x, hops) == Ok::<(u8, FieldType, int), Cause>((b[x], t, x + 2)),
{
}

/// A redirect to a field that is no redirect resolves to that field.
pub proof fn single_redirect_resolves(b: Seq<u8>, x: int, y: int, t: FieldType)
    requires
        0 <= x,
        x + 6 <= b.len(),
        type_of_code(b[x + 1]) == Some(FieldType::Redirector),
        le_u32(b, x + 2) == y,
        y + 2 <= b.len(),
        type_of_code(b[y + 1]) == Some(t),
        t != FieldType::Redirector,
    ensures
        resolve(b, x, MAX_REDIRECTS as nat) == Ok::<(u8, FieldType, int), Cause>(
            (b[y], t, y + 2),
        ),
{
    direct_field_resolves_to_itself(b, y, t, (MAX_REDIRECTS - 1) as nat);
}

/// Two redirects that point at each other end in an error once the hops run out, rather than
/// in an endless walk.
pub proof fn redirect_cycle_is_refused(b: Seq<u8>, x: int, y: int, hops: nat)
    requires
        0 <= x,
        0 <= y,
        x + 6 <= b.len(),
        y + 6 <= b.len(),
        type_of_code(b[x + 1]) == Some(FieldType::Redirector),
        type_of_code(b[y + 1]) == Some(FieldType::Redirector),
        le_u32(b, x + 2) == y,
        le_u32(b, y + 2) == x,
    ensures
        resolve(b, x, hops) == Err::<(u8, FieldType, int), Cause>(Cause::TooManyRedirects),
        resolve(b, y, hops) == Err::<(u8, FieldType, int), Cause>(Cause::TooManyRedirects),
    decreases hops,
{
    if hops > 0 {
        redirect_cycle_is_refused(b, x, y, (hops - 1) as nat);
    }
}

/// A record whose first field, at `a`, points on to a field at `c` that ends the record is
/// exactly those two fields, in that order; the walk stops at the zero offset and never reads
/// there.
pub proof fn two_field_record(
    b: Seq<u8>,
    a: int,
    c: int,
    first: (NdeFieldBase, Payload),
    second: (NdeFieldBase, Payload),
)
    requires
        resolve(b, a, MAX_REDIRECTS as nat) matches Ok((id, ft, q)) && field_at(b, q, id as i32, ft)
            == Ok::<(NdeFieldBase, Payload), crate::fields::Cause>(first),
        first.0.next_field_pos == c,
        c != 0,
        resolve(b, c, MAX_REDIRECTS as nat) matches Ok((id, ft, q)) && field_at(b, q, id as i32, ft)
            == Ok::<(NdeFieldBase, Payload), crate::fields::Cause>(second),
        second.0.next_field_pos == 0,
    ensures
        record_at(b, a, false) == Ok::<Seq<(NdeFieldBase, Payload)>, Cause>(seq![first, second]),
{
    let fuel = b.len();
    assert(chain(b, c, (fuel - 1) as nat, false) == Ok::<Seq<(NdeFieldBase, Payload)>, Cause>(
        seq![second],
    ));
    assert(seq![first] + seq![second] =~= seq![first, second]);
}

} // verus!
