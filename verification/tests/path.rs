use zfi::path::{Path, PathBuf};
use zfi::string::EfiString;

fn efi(s: &str) -> zfi::string::EfiStr {
    EfiString::from_str(s).unwrap().as_str()
}

#[test]
fn empty_path_is_exactly_the_end_record() {
    let buf = PathBuf::new();
    assert_eq!(buf.as_bytes(), &[0x7f, 0xff, 0x04, 0x00]);
    let path = buf.as_path();
    assert_eq!(path.measure(), 4);
    let mut it = path.nodes();
    assert!(it.next().is_none());
}

#[test]
fn media_file_path_round_trip() {
    let name = efi(r"\EFI\BOOT\BOOTX64.EFI");
    let mut buf = PathBuf::new();
    buf.push_media_file_path(&name);

    // Reading back through the iterator yields exactly one non-end record.
    let path = buf.as_path();
    let mut it = path.nodes();
    let (ty, sub, payload) = it.next().unwrap();
    assert_eq!((ty, sub), (4, 4));
    assert_eq!(payload.len(), 2 * name.as_units().len());
    assert!(it.next().is_none());

    // The decoded string equals the input.
    let decoded = path.to_media_file_path().unwrap();
    assert_eq!(decoded.as_units(), name.as_units());

    // The buffer still ends with the end record.
    let bytes = buf.as_bytes();
    assert_eq!(&bytes[bytes.len() - 4..], &[0x7f, 0xff, 0x04, 0x00]);

    // Measuring by traversal agrees with the byte length.
    assert_eq!(path.measure(), bytes.len());
}

#[test]
fn two_records_traverse_in_push_order() {
    let a = efi("A");
    let bc = efi("BC");
    let mut buf = PathBuf::new();
    buf.push_media_file_path(&a);
    buf.push_media_file_path(&bc);

    let path = buf.as_path();
    let mut it = path.nodes();
    let first = it.next().unwrap();
    let second = it.next().unwrap();
    assert!(it.next().is_none());
    assert_eq!((first.0, first.1), (4, 4));
    assert_eq!((second.0, second.1), (4, 4));
    // "A\0" little endian, then "BC\0".
    assert_eq!(first.2, vec![0x41, 0x00, 0x00, 0x00]);
    assert_eq!(second.2, vec![0x42, 0x00, 0x43, 0x00, 0x00, 0x00]);

    // Total length is the sum of both records' lengths plus the end
    // record's four bytes.
    let len1 = first.2.len() + 4;
    let len2 = second.2.len() + 4;
    assert_eq!(buf.as_bytes().len(), len1 + len2 + 4);
}

#[test]
fn join_copies_before_growing() {
    let base = PathBuf::new();
    let joined = base.as_path().join_media_file_path(&efi("X"));
    // The original buffer is untouched; the copy grew.
    assert_eq!(base.as_bytes().len(), 4);
    assert_eq!(joined.as_bytes().len(), 12);
}

#[test]
fn from_bytes_checks_the_format() {
    // A well-formed one-record path.
    let good = vec![
        0x04, 0x04, 0x08, 0x00, 0x41, 0x00, 0x00, 0x00, 0x7f, 0xff, 0x04, 0x00,
    ];
    assert!(Path::from_bytes(good).is_some());
    // Too short.
    assert!(Path::from_bytes(vec![0x7f, 0xff, 0x04]).is_none());
    // End record with a wrong length field.
    assert!(Path::from_bytes(vec![0x7f, 0xff, 0x05, 0x00]).is_none());
    // A record length running past the buffer.
    assert!(Path::from_bytes(vec![0x04, 0x04, 0x40, 0x00, 0x7f, 0xff, 0x04, 0x00]).is_none());
    // Trailing bytes after the end record.
    assert!(Path::from_bytes(vec![0x7f, 0xff, 0x04, 0x00, 0x00]).is_none());
    // A record shorter than its own header.
    assert!(Path::from_bytes(vec![0x04, 0x04, 0x03, 0x00, 0x7f, 0xff, 0x04, 0x00]).is_none());
}
