use xnde::{read_indicies, Cause, NdeIndex};

#[test]
fn lib_smoke() {
    let bytes: [u8; 20] = [
        0xff, 0x00, 0x00, 0x00, 0x08, 0x00, 0x00, 0x00, 0x00, 0x00, 0x00, 0x00, 0x20, 0x00,
        0x00, 0x00, 0x01, 0x00, 0x00, 0x00,
    ];
    let idx = match NdeIndex::from_reader(&bytes, 0, 2) {
        Ok(opt) => match opt {
            Some(x) => x,
            None => panic!("premature EOF"),
        },
        Err(err) => panic!("{:?}", err),
    };
    assert_eq!(idx.len(), 2);
    assert_eq!(idx.off(0), 8);
    assert_eq!(idx.off(1), 32);
}

#[test]
fn negative() {
    let bytes: [u8; 12] = [
        0xff, 0x00, 0x00, 0x00, 0x08, 0x00, 0x00, 0x00, 0x00, 0x00, 0x00, 0x00,
    ];
    if NdeIndex::from_reader(&bytes, 0, 2).is_ok() {
        panic!("construction should have failed");
    }
}

#[test]
fn idx() {
    let mut buf: Vec<u8> = Vec::new();
    buf.extend_from_slice(b"NDEINDEX");
    buf.extend_from_slice(&2i32.to_le_bytes()); // each index has 2 records
    buf.extend_from_slice(&0xffi32.to_le_bytes()); // the primary index
    buf.extend_from_slice(&8i32.to_le_bytes()); // offset 0x08
    buf.extend_from_slice(&0i32.to_le_bytes());
    buf.extend_from_slice(&0x20i32.to_le_bytes()); // offset 0x020
    buf.extend_from_slice(&1i32.to_le_bytes());
    buf.extend_from_slice(&0x00i32.to_le_bytes()); // ID 0
    buf.extend_from_slice(&0x20i32.to_le_bytes());
    buf.extend_from_slice(&0i32.to_le_bytes());
    buf.extend_from_slice(&0x08i32.to_le_bytes());
    buf.extend_from_slice(&1i32.to_le_bytes());

    let v = match read_indicies(&buf) {
        Ok(v) => v,
        Err(err) => panic!("{:?}", err),
    };
    assert_eq!(v.len(), 2);
    assert_eq!(v[0].len(), 2);
    assert_eq!(v[0].off(0), 8);
    assert_eq!(v[0].off(1), 32);
    assert_eq!(v[1].len(), 2);
    assert_eq!(v[1].off(1), 8);
    assert_eq!(v[1].off(0), 32);
    assert_eq!(v[0].id(), 255);
    assert_eq!(v[1].id(), 0);
    assert_eq!(v[0].table[1], (32, 1));
}

#[test]
fn index_at_end_of_file() {
    let bytes = [0u8; 4];
    assert!(NdeIndex::from_reader(&bytes, 4, 2).unwrap().is_none());
}

#[test]
fn partial_index_id_is_an_error() {
    let bytes = [0xffu8, 0x00];
    assert_eq!(NdeIndex::from_reader(&bytes, 0, 0).unwrap_err().cause, Cause::ShortRead);
}

#[test]
fn missing_index_signature() {
    let mut buf: Vec<u8> = Vec::new();
    buf.extend_from_slice(b"NDETABLE");
    buf.extend_from_slice(&0u32.to_le_bytes());
    assert_eq!(read_indicies(&buf).unwrap_err().cause, Cause::NoSig);
    assert_eq!(read_indicies(b"NDE").unwrap_err().cause, Cause::NoSig);
    assert_eq!(read_indicies(b"").unwrap_err().cause, Cause::NoSig);
}

#[test]
fn index_file_without_count() {
    assert_eq!(read_indicies(b"NDEINDEX\x01").unwrap_err().cause, Cause::ShortRead);
}

#[test]
fn index_file_without_indices() {
    let mut buf: Vec<u8> = Vec::new();
    buf.extend_from_slice(b"NDEINDEX");
    buf.extend_from_slice(&3u32.to_le_bytes());
    assert_eq!(read_indicies(&buf).unwrap().len(), 0);
}

#[test]
fn truncated_second_index() {
    let mut buf: Vec<u8> = Vec::new();
    buf.extend_from_slice(b"NDEINDEX");
    buf.extend_from_slice(&1u32.to_le_bytes());
    buf.extend_from_slice(&0xffu32.to_le_bytes());
    buf.extend_from_slice(&8u32.to_le_bytes());
    buf.extend_from_slice(&0u32.to_le_bytes());
    buf.extend_from_slice(&0u32.to_le_bytes());
    buf.extend_from_slice(&8u32.to_le_bytes());
    assert_eq!(read_indicies(&buf).unwrap_err().cause, Cause::ShortRead);
}
