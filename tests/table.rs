use xnde::fields::{FieldType, FieldValue};
use xnde::tracks::{new_column_map, Track, TrackAttrs};
use xnde::{
    dump_records, export_tracks, follow_redirects, read_columns, read_record, Cause,
    DumpFormat, ExportFormat,
};

/// A field at the end of `data`: id, type, header and payload.
fn push_field(data: &mut Vec<u8>, id: u8, ty: u8, next: u32, payload: &[u8]) -> u32 {
    let at = data.len() as u32;
    data.push(id);
    data.push(ty);
    data.extend_from_slice(&(payload.len() as u32).to_le_bytes());
    data.extend_from_slice(&next.to_le_bytes());
    data.extend_from_slice(&0u32.to_le_bytes());
    data.extend_from_slice(payload);
    at
}

fn text(s: &str) -> Vec<u8> {
    let mut v = (s.len() as u16).to_le_bytes().to_vec();
    v.extend_from_slice(s.as_bytes());
    v
}

fn column(ty: u8, name: &str) -> Vec<u8> {
    let mut v = vec![ty, 0, name.len() as u8];
    v.extend_from_slice(name.as_bytes());
    v
}

fn redirect(data: &mut Vec<u8>, id: u8, to: u32) -> u32 {
    let at = data.len() as u32;
    data.push(id);
    data.push(2);
    data.extend_from_slice(&to.to_le_bytes());
    at
}

fn index_file(offsets: &[u32]) -> Vec<u8> {
    let mut v: Vec<u8> = Vec::new();
    v.extend_from_slice(b"NDEINDEX");
    v.extend_from_slice(&(offsets.len() as u32).to_le_bytes());
    v.extend_from_slice(&255u32.to_le_bytes());
    for (i, o) in offsets.iter().enumerate() {
        v.extend_from_slice(&o.to_le_bytes());
        v.extend_from_slice(&(i as u32).to_le_bytes());
    }
    v
}

/// Lays out fields one after another, each pointing to the next; returns the first offset.
fn push_record(data: &mut Vec<u8>, fields: &[(u8, u8, Vec<u8>)]) -> u32 {
    let first = data.len() as u32;
    for (i, (id, ty, payload)) in fields.iter().enumerate() {
        let size = 14 + payload.len() as u32;
        let next = if i + 1 == fields.len() { 0 } else { data.len() as u32 + size };
        push_field(data, *id, *ty, next, payload);
    }
    first
}

/// A table whose schema declares filename (id 0), artist (id 1), an unknown column (id 2)
/// and length (id 3); record 1 holds one index field; records 2 and 3 are tracks.
fn library() -> (Vec<u8>, Vec<u8>) {
    let mut dat: Vec<u8> = b"NDETABLE".to_vec();
    let r0 = push_record(
        &mut dat,
        &[
            (0, 0, column(12, "filename")),
            (1, 0, column(3, "artist")),
            (2, 0, column(3, "mystery")),
            (3, 0, column(11, "length")),
        ],
    );
    let mut idx_payload = 0u32.to_le_bytes().to_vec();
    idx_payload.extend_from_slice(&12i32.to_le_bytes());
    idx_payload.push(4);
    idx_payload.extend_from_slice(b"Name");
    let r1 = push_record(&mut dat, &[(0, 1, idx_payload)]);
    let r2 = push_record(
        &mut dat,
        &[
            (1, 3, text("Artist A")),
            (0, 12, text("C:\\a.mp3")),
            (2, 3, text("ignored")),
            (3, 11, 215i32.to_le_bytes().to_vec()),
        ],
    );
    let r3 = push_record(&mut dat, &[(0, 12, text("C:\\b.mp3")), (1, 3, text("Artist B"))]);
    (index_file(&[r0, r1, r2, r3]), dat)
}

#[test]
fn redirect_smoke() {
    let bytes: [u8; 2] = [0x01, 0x00];
    let (id, ft, q) = follow_redirects(&bytes, 0).unwrap();
    assert_eq!(id, 1);
    assert_eq!(ft, FieldType::Column);
    assert_eq!(q, 2);
}

#[test]
fn single_redirect_is_followed() {
    let mut data = vec![0u8; 4];
    let target = push_field(&mut data, 5, 4, 0, &7i32.to_le_bytes());
    let at = redirect(&mut data, 9, target);
    let (id, ft, q) = follow_redirects(&data, at as u64).unwrap();
    assert_eq!((id, ft, q), (5, FieldType::Integer, target as usize + 2));
}

#[test]
fn redirect_cycle_is_an_error() {
    let mut data = vec![0u8; 4];
    // x at 4 points to y at 10; y points back to x.
    redirect(&mut data, 1, 10);
    redirect(&mut data, 1, 4);
    assert_eq!(follow_redirects(&data, 4).unwrap_err().cause, Cause::TooManyRedirects);
}

#[test]
fn redirect_past_end() {
    let mut data = vec![0u8; 4];
    redirect(&mut data, 1, 1000);
    assert_eq!(follow_redirects(&data, 4).unwrap_err().cause, Cause::ShortRead);
}

#[test]
fn unknown_type_code() {
    let data = [0u8, 1, 20];
    assert_eq!(follow_redirects(&data, 1).unwrap_err().cause, Cause::BadFieldType(20));
}

#[test]
fn chain_visits_fields_in_order() {
    let mut data = vec![0u8; 8];
    // B first on disk, then A, so the chain order differs from the file order.
    let b_at = data.len() as u32;
    push_field(&mut data, 2, 4, 0, &2i32.to_le_bytes());
    let a_at = push_field(&mut data, 1, 4, b_at, &1i32.to_le_bytes());
    let fields = read_record(&data, a_at as u64).unwrap();
    assert_eq!(fields.len(), 2);
    assert_eq!(fields[0].id(), 1);
    assert_eq!(fields[0].next_field_pos(), b_at as u64);
    assert_eq!(fields[1].id(), 2);
    assert_eq!(fields[1].value(), FieldValue::Integer(2));
}

#[test]
fn chain_through_redirect() {
    let mut data = vec![0u8; 8];
    let real = push_field(&mut data, 3, 3, 0, &text("x"));
    let at = redirect(&mut data, 3, real);
    let fields = read_record(&data, at as u64).unwrap();
    assert_eq!(fields.len(), 1);
    assert_eq!(fields[0].value(), FieldValue::String(String::from("x")));
}

#[test]
fn cyclic_chain_is_an_error() {
    let mut data = vec![0u8; 8];
    push_field(&mut data, 1, 4, 8, &1i32.to_le_bytes());
    assert_eq!(read_record(&data, 8).unwrap_err().cause, Cause::CyclicRecord);
}

#[test]
fn schema_record_must_hold_columns() {
    let mut data = vec![0u8; 8];
    let at = push_record(&mut data, &[(0, 0, column(12, "filename")), (1, 4, vec![0, 0, 0, 0])]);
    assert_eq!(
        read_columns(&data, at as u64).unwrap_err().cause,
        Cause::NonColumnField(FieldType::Integer)
    );
}

#[test]
fn column_map_skips_unknown_names() {
    let mut data = vec![0u8; 8];
    let at = push_record(
        &mut data,
        &[
            (4, 0, column(12, "filename")),
            (5, 0, column(3, "Filename")),
            (6, 0, column(3, "GracenoteFileID")),
            (7, 0, column(3, "not a column")),
        ],
    );
    let cols = read_columns(&data, at as u64).unwrap();
    assert_eq!(cols.len(), 4);
    let m = new_column_map(&cols);
    assert_eq!(m.len(), 2);
    assert_eq!(m.get(&4), Some(&TrackAttrs::Filename));
    assert_eq!(m.get(&6), Some(&TrackAttrs::GracenoteFileId));
    assert_eq!(m.get(&5), None);
    assert_eq!(m.get(&7), None);
}

#[test]
fn track_without_filename() {
    let mut data = vec![0u8; 8];
    let schema = push_record(&mut data, &[(0, 0, column(12, "filename")), (1, 0, column(3, "artist"))]);
    let rec = push_record(&mut data, &[(1, 3, text("Someone"))]);
    let m = new_column_map(&read_columns(&data, schema as u64).unwrap());
    let fields = read_record(&data, rec as u64).unwrap();
    let e = Track::new(&m, &fields).unwrap_err();
    assert_eq!(e.cause, xnde::tracks::Cause::NoFilename);
}

#[test]
fn filename_of_wrong_kind_is_dropped() {
    let mut data = vec![0u8; 8];
    let schema = push_record(&mut data, &[(0, 0, column(12, "filename"))]);
    let rec = push_record(&mut data, &[(0, 3, text("C:\\not-a-filename-field"))]);
    let m = new_column_map(&read_columns(&data, schema as u64).unwrap());
    let fields = read_record(&data, rec as u64).unwrap();
    assert!(Track::new(&m, &fields).is_err());
}

#[test]
fn track_ignores_unmapped_fields_and_last_wins() {
    let mut data = vec![0u8; 8];
    let schema = push_record(&mut data, &[(0, 0, column(12, "filename")), (1, 0, column(3, "title"))]);
    let rec = push_record(
        &mut data,
        &[
            (9, 3, text("unmapped")),
            (1, 3, text("first")),
            (0, 12, text("C:\\x.mp3")),
            (1, 3, text("second")),
            (1, 4, 5i32.to_le_bytes().to_vec()),
        ],
    );
    let m = new_column_map(&read_columns(&data, schema as u64).unwrap());
    let fields = read_record(&data, rec as u64).unwrap();
    let t = Track::new(&m, &fields).unwrap();
    assert_eq!(t.filename, "C:\\x.mp3");
    assert_eq!(t.title, Some(String::from("second")));
    assert_eq!(t.artist, None);
}

#[test]
fn export_library() {
    let (idx, dat) = library();
    let ts = export_tracks(&idx, &dat).unwrap();
    assert_eq!(ts.len(), 2);
    assert_eq!(ts[0].filename, "C:\\a.mp3");
    assert_eq!(ts[0].artist, Some(String::from("Artist A")));
    assert_eq!(ts[0].length, Some(215));
    assert_eq!(ts[0].title, None);
    assert_eq!(ts[1].filename, "C:\\b.mp3");
    assert_eq!(ts[1].artist, Some(String::from("Artist B")));
    assert_eq!(ts[1].length, None);
}

#[test]
fn dump_library() {
    let (idx, dat) = library();
    let recs = dump_records(&idx, &dat).unwrap();
    assert_eq!(recs.len(), 4);
    assert_eq!(recs[0].len(), 4);
    assert_eq!(recs[1].len(), 1);
    assert_eq!(recs[1][0].type_id(), Some(FieldType::Index));
    assert_eq!(recs[2].len(), 4);
    assert_eq!(recs[3].len(), 2);
}

#[test]
fn export_needs_table_signature() {
    let (idx, mut dat) = library();
    dat[3] = b'X';
    assert_eq!(export_tracks(&idx, &dat).unwrap_err().cause, Cause::NoSig);
}

#[test]
fn export_needs_an_index() {
    let (_, dat) = library();
    let mut idx: Vec<u8> = b"NDEINDEX".to_vec();
    idx.extend_from_slice(&4u32.to_le_bytes());
    assert_eq!(export_tracks(&idx, &dat).unwrap_err().cause, Cause::NoIndicies);
    assert_eq!(dump_records(&idx, &dat).unwrap_err().cause, Cause::NoIndicies);
}

#[test]
fn export_needs_two_records() {
    let (_, dat) = library();
    let idx = index_file(&[8]);
    assert_eq!(export_tracks(&idx, &dat).unwrap_err().cause, Cause::MissingRecords);
}

#[test]
fn export_stops_at_first_bad_track() {
    let (_, mut dat) = library();
    let bad = push_record(&mut dat, &[(1, 3, text("no file"))]);
    let r0 = 8;
    let idx = index_file(&[r0, r0, bad]);
    assert_eq!(export_tracks(&idx, &dat).unwrap_err().cause, Cause::NoFilename);
}

#[test]
fn format_names() {
    assert_eq!(DumpFormat::try_from("display").unwrap(), DumpFormat::Display);
    assert_eq!(DumpFormat::try_from("sexp").unwrap(), DumpFormat::Sexp);
    assert_eq!(DumpFormat::try_from("json").unwrap(), DumpFormat::Json);
    assert_eq!(ExportFormat::try_from("json").unwrap(), ExportFormat::Json);
    assert_eq!(ExportFormat::try_from("sexp").unwrap(), ExportFormat::Sexp);
    assert_eq!(
        ExportFormat::try_from("display").unwrap_err().cause,
        Cause::BadFormat(String::from("display"))
    );
    assert_eq!(
        DumpFormat::try_from("JSON").unwrap_err().cause,
        Cause::BadFormat(String::from("JSON"))
    );
}
