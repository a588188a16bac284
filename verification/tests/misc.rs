use zfi::codec::{le_read, le_write};
use zfi::header::{TableHeader, TableRevision};
use zfi::memory::{page_count, PAGE_SIZE};
use zfi::status::{Status, BUFFER_TOO_SMALL, SUCCESS};
use zfi::time::Time;

#[test]
fn status_err_or() {
    assert_eq!(Status(SUCCESS).err_or(42), Ok(42));
    assert_eq!(Status(BUFFER_TOO_SMALL).err_or(42), Err(Status(BUFFER_TOO_SMALL)));
    assert!(Status(SUCCESS).is_success());
    assert!(!Status(BUFFER_TOO_SMALL).is_success());
}

#[test]
fn table_revision_packs_major_and_minor() {
    assert_eq!(TableRevision::new(2, 70).0, 2 * 0x10000 + 70);
    assert!(TableRevision::new(1, 1) < TableRevision::new(2, 0));
    let hdr = TableHeader {
        signature: 1,
        revision: TableRevision::new(2, 70),
        header_size: 24,
        crc32: 0,
        reserved: 0,
    };
    assert_eq!(hdr.revision(), TableRevision::new(2, 70));
}

#[test]
fn page_count_rounds_up() {
    assert_eq!(page_count(0), 0);
    assert_eq!(page_count(1), 1);
    assert_eq!(page_count(PAGE_SIZE), 1);
    assert_eq!(page_count(PAGE_SIZE + 1), 2);
    assert_eq!(page_count(3 * PAGE_SIZE), 3);
}

#[test]
fn zeroed_time_is_all_zero() {
    let t = Time::zeroed();
    assert_eq!(t.year, 0);
    assert_eq!(t.nanosecond, 0);
    assert_eq!(t.time_zone, 0);
    assert_eq!(t, Time::default());
}

#[test]
fn unaligned_fields_round_trip() {
    let mut v = vec![0xaau8; 16];
    // Write a 64-bit field at an odd offset, byte by byte.
    le_write(&mut v, 3, 8, 0x0123456789abcdef);
    assert_eq!(le_read(&v, 3, 8), 0x0123456789abcdef);
    // The surrounding bytes are untouched.
    assert_eq!(v[2], 0xaa);
    assert_eq!(v[11], 0xaa);
    // Little endian: the low byte sits first.
    assert_eq!(v[3], 0xef);
    // A shorter field reads only its own bytes.
    assert_eq!(le_read(&v, 3, 2), 0xcdef);
}
