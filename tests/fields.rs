use xnde::fields::{
    field_factory, Cause, ColumnField, DatetimeField, FieldType, FieldValue, FilenameField,
    IndexField, Int64Field, IntegerField, LengthField, NdeField, NdeFieldBase, StringField,
    UnsupportedNdeField,
};

/// A common header: payload size, next offset, previous offset.
fn header(size: u32, next: u32, prev: u32) -> Vec<u8> {
    let mut v = Vec::new();
    v.extend_from_slice(&size.to_le_bytes());
    v.extend_from_slice(&next.to_le_bytes());
    v.extend_from_slice(&prev.to_le_bytes());
    v
}

fn string_payload(text: &[u8]) -> Vec<u8> {
    let mut v = header(2 + text.len() as u32, 0, 0);
    v.extend_from_slice(&(text.len() as u16).to_le_bytes());
    v.extend_from_slice(text);
    v
}

#[test]
fn fields_smoke() {
    let bytes: [u8; 12] = [
        0x10, 0x00, 0x00, 0x00, 0x14, 0x00, 0x00, 0x00, 0x00, 0x00, 0x00, 0x00,
    ];
    let b = match NdeFieldBase::new(&bytes, 0, 11) {
        Ok(x) => x,
        Err(e) => panic!("{:?}", e),
    };
    assert_eq!(b.id(), 11);
    assert_eq!(b.next(), 20);
}

#[test]
fn string_field_smoke() {
    let bytes: [u8; 32] = [
        0x14, 0x00, 0x00, 0x00, 0x14, 0x00, 0x00, 0x00, 0x00, 0x00, 0x00, 0x00, 0x12, 0x00,
        0xff, 0xfe, 0x43, 0x00, 0x3a, 0x00, 0x5c, 0x00, 0x61, 0x00, 0x2e, 0x00, 0x6d, 0x00,
        0x70, 0x00, 0x33, 0x00,
    ];
    let s = match StringField::new(&bytes, 0, 1) {
        Ok(s) => s,
        Err(err) => panic!("{:?}", err),
    };
    let t = match NdeField::String(s).value() {
        FieldValue::String(t) => t,
        _ => panic!("bad field value"),
    };
    assert_eq!(t, "C:\\a.mp3");
}

#[test]
fn header_fields_in_order() {
    let bytes = header(4, 0x20, 0x08);
    let b = NdeFieldBase::new(&bytes, 0, 3).unwrap();
    assert_eq!(b.max_size_on_disk(), 4);
    assert_eq!(b.next(), 0x20);
    assert_eq!(b.prev(), 0x08);
}

#[test]
fn header_short_read() {
    let bytes = [0u8; 11];
    let e = NdeFieldBase::new(&bytes, 0, 3).unwrap_err();
    assert_eq!(e.cause, Cause::ShortRead);
}

#[test]
fn field_type_codes() {
    assert_eq!(FieldType::from(0).unwrap(), FieldType::Column);
    assert_eq!(FieldType::from(2).unwrap(), FieldType::Redirector);
    assert_eq!(FieldType::from(12).unwrap(), FieldType::Filename);
    assert_eq!(FieldType::from(15).unwrap(), FieldType::Int128);
    assert_eq!(FieldType::from(16).unwrap_err().cause, Cause::BadFieldType(16));
    assert_eq!(FieldType::from(255).unwrap_err().cause, Cause::BadFieldType(255));
}

#[test]
fn column_field_decodes() {
    let mut bytes = header(10, 0x40, 0x10);
    bytes.extend_from_slice(&[12, 1, 8]);
    bytes.extend_from_slice(b"filename");
    let c = ColumnField::new(&bytes, 0, 7).unwrap();
    assert_eq!(c.base.id, 7);
    assert_eq!(c.base.next_field_pos, 0x40);
    assert_eq!(c.base.prev_field_pos, 0x10);
    assert_eq!(c.col_type, FieldType::Filename);
    assert!(c.index_unique);
    assert_eq!(c.name(), "filename");
    match NdeField::Column(c).value() {
        FieldValue::Column(id, name) => {
            assert_eq!(id, 7);
            assert_eq!(name, "filename");
        }
        v => panic!("{:?}", v),
    }
}

#[test]
fn column_field_bad_type() {
    let mut bytes = header(4, 0, 0);
    bytes.extend_from_slice(&[99, 0, 1, b'x']);
    assert_eq!(ColumnField::new(&bytes, 0, 1).unwrap_err().cause, Cause::BadFieldType(99));
}

#[test]
fn index_field_decodes() {
    let mut bytes = header(13, 0, 0);
    bytes.extend_from_slice(&5u32.to_le_bytes());
    bytes.extend_from_slice(&(-1i32).to_le_bytes());
    bytes.push(4);
    bytes.extend_from_slice(b"Abcd");
    let f = IndexField::new(&bytes, 0, 2).unwrap();
    assert_eq!(f.pos, 5);
    assert_eq!(f.ftype, -1);
    assert_eq!(f.name, "Abcd");
    assert_eq!(NdeField::Index(f).value(), FieldValue::Index(2, -1));
}

#[test]
fn integer_kinds_decode() {
    let mut bytes = header(4, 0x30, 0);
    bytes.extend_from_slice(&(-123456i32).to_le_bytes());
    let i = IntegerField::new(&bytes, 0, 4).unwrap();
    assert_eq!(i.data, -123456);
    assert_eq!(i.base.next_field_pos, 0x30);
    assert_eq!(NdeField::Integer(i).value(), FieldValue::Integer(-123456));
    let d = DatetimeField::new(&bytes, 0, 4).unwrap();
    assert_eq!(NdeField::Datetime(d).value(), FieldValue::Datetime(-123456));
    let l = LengthField::new(&bytes, 0, 4).unwrap();
    assert_eq!(NdeField::Length(l).value(), FieldValue::Length(-123456));
}

#[test]
fn int64_field_decodes() {
    let mut bytes = header(8, 0, 0);
    bytes.extend_from_slice(&(-5_000_000_000i64).to_le_bytes());
    let f = Int64Field::new(&bytes, 0, 9).unwrap();
    assert_eq!(NdeField::Int64(f).value(), FieldValue::Int64(-5_000_000_000));
    let mut big = header(8, 0, 0);
    big.extend_from_slice(&i64::MAX.to_le_bytes());
    assert_eq!(Int64Field::new(&big, 0, 9).unwrap().data, i64::MAX);
}

#[test]
fn integer_field_short_read() {
    let mut bytes = header(4, 0, 0);
    bytes.extend_from_slice(&[1, 2, 3]);
    assert_eq!(IntegerField::new(&bytes, 0, 1).unwrap_err().cause, Cause::ShortRead);
}

#[test]
fn unsupported_field_keeps_bytes() {
    let mut bytes = header(3, 0, 0);
    bytes.extend_from_slice(&[7, 8, 9, 10]);
    let f = UnsupportedNdeField::new(&bytes, 0, 1, FieldType::Guid).unwrap();
    assert_eq!(f.bytes, vec![7, 8, 9]);
    let g = field_factory(&bytes, 0, 1, FieldType::Boolean).unwrap();
    assert_eq!(g.type_id(), None);
    assert_eq!(g.value(), FieldValue::Unknown);
}

#[test]
fn decoding_twice_agrees() {
    let bytes = string_payload(b"same");
    let a = field_factory(&bytes, 0, 1, FieldType::String).unwrap();
    let b = field_factory(&bytes, 0, 1, FieldType::String).unwrap();
    assert_eq!(a.value(), b.value());
    assert_eq!(a.next_field_pos(), b.next_field_pos());
}

#[test]
fn empty_string_payload() {
    let bytes = string_payload(b"");
    let s = StringField::new(&bytes, 0, 1).unwrap();
    assert_eq!(s.text(), "");
}

#[test]
fn utf16_big_endian_payload() {
    let bytes = string_payload(&[0xfe, 0xff, 0x00, 0x41, 0x00, 0xe9]);
    let s = StringField::new(&bytes, 0, 1).unwrap();
    assert_eq!(s.text(), "A\u{e9}");
}

#[test]
fn utf16_little_endian_payload() {
    let bytes = string_payload(&[0xff, 0xfe, 0x41, 0x00, 0x3d, 0xd8, 0x00, 0xde]);
    let s = StringField::new(&bytes, 0, 1).unwrap();
    assert_eq!(s.text(), "A\u{1f600}");
}

#[test]
fn utf8_payload() {
    let bytes = string_payload("caf\u{e9}".as_bytes());
    let s = StringField::new(&bytes, 0, 1).unwrap();
    assert_eq!(s.text(), "caf\u{e9}");
}

#[test]
fn odd_length_after_bom_is_utf8() {
    // An odd count rules out UTF-16, and FF is no UTF-8.
    let bytes = string_payload(&[0xff, 0xfe, 0x41]);
    assert_eq!(StringField::new(&bytes, 0, 1).unwrap_err().cause, Cause::NotUtf8);
}

#[test]
fn invalid_utf8_is_an_error() {
    let bytes = string_payload(&[0x61, 0xc3, 0x28]);
    assert_eq!(StringField::new(&bytes, 0, 1).unwrap_err().cause, Cause::NotUtf8);
}

#[test]
fn unpaired_surrogate_is_an_error() {
    let bytes = string_payload(&[0xff, 0xfe, 0x00, 0xd8]);
    assert_eq!(StringField::new(&bytes, 0, 1).unwrap_err().cause, Cause::NotUtf16);
}

#[test]
fn string_length_past_end() {
    let mut bytes = header(6, 0, 0);
    bytes.extend_from_slice(&10u16.to_le_bytes());
    bytes.extend_from_slice(b"abc");
    assert_eq!(StringField::new(&bytes, 0, 1).unwrap_err().cause, Cause::ShortRead);
}

#[test]
fn filename_field_decodes() {
    let bytes = string_payload(b"C:\\music\\a.mp3");
    let f = FilenameField::new(&bytes, 0, 0).unwrap();
    assert_eq!(f.path, "C:\\music\\a.mp3");
    let g = NdeField::Filename(f);
    assert_eq!(g.type_id(), Some(FieldType::Filename));
    assert_eq!(g.value(), FieldValue::Filename(String::from("C:\\music\\a.mp3")));
}
