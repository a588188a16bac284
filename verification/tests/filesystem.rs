use zfi::boot::BootServices;
use zfi::filesystem::{
    File, FileAttributes, FileCreateError, FileModes, FileScript, FileSetLenError, OpenResponse,
    ReadResponse, SimpleFileSystem, WriteResponse,
};
use zfi::header::{TableHeader, TableRevision};
use zfi::query::QueryEvent;
use zfi::status::{Status, ABORTED, SUCCESS, UNSUPPORTED};
use zfi::string::EfiString;

fn fresh_bs(pool: usize) -> BootServices {
    let hdr = TableHeader {
        signature: 0,
        revision: TableRevision::new(2, 70),
        header_size: 24,
        crc32: 0,
        reserved: 0,
    };
    BootServices::new(hdr, pool, Vec::new())
}

fn le(v: u64, n: usize) -> Vec<u8> {
    let mut out = Vec::new();
    let mut x = v;
    for _ in 0..n {
        out.push((x % 0x100) as u8);
        x /= 0x100;
    }
    out
}

/// A metadata record: sizes, zeroed times, attributes, and an ASCII name.
fn info_record(file_size: u64, physical_size: u64, attr: u64, name: &str) -> Vec<u8> {
    let mut units: Vec<u16> = name.chars().map(|c| c as u16).collect();
    units.push(0);
    let total = 0x50 + 2 * units.len() as u64;
    let mut b = Vec::new();
    b.extend(le(total, 8));
    b.extend(le(file_size, 8));
    b.extend(le(physical_size, 8));
    b.extend(vec![0u8; 48]);
    b.extend(le(attr, 8));
    for u in &units {
        b.extend(le(*u as u64, 2));
    }
    b
}

/// A script whose metadata query reports its size once, then succeeds.
fn info_script(record: Vec<u8>, set_info: Vec<Status>) -> FileScript {
    FileScript {
        info_events: vec![
            QueryEvent::BufferTooSmall { new_len: record.len() },
            QueryEvent::Success { data: record, key: 0 },
        ],
        set_info_results: set_info,
        read_responses: Vec::new(),
        write_responses: Vec::new(),
        set_position_results: Vec::new(),
        flush_results: Vec::new(),
        open_responses: Vec::new(),
    }
}

#[test]
fn file_info() {
    let record = info_record(123_456, 131_072, 0x20, "BOOTX64.EFI");
    let mut bs = fresh_bs(4096);
    let mut file = File::from_script(1, info_script(record, Vec::new()));
    let info = file.info(&mut bs).unwrap();
    assert_ne!(info.file_size(), 0);
    assert_ne!(info.physical_size(), 0);
    assert_eq!(info.attributes().contains(FileAttributes::directory()), false);
    assert_eq!(info.file_size(), 123_456);
    let name = EfiString::from_str("BOOTX64.EFI").unwrap();
    assert_eq!(info.file_name().as_units(), name.as_str().as_units());
    // Every buffer of the probe loop was handed back.
    assert!(bs.pool_live.is_empty());
    assert_eq!(bs.pool_allocated.len(), bs.pool_freed.len());
}

#[test]
fn create() {
    // A root whose host will open the same file twice: first to create and
    // write it, then to create it again truncated.
    let file_record = info_record(13, 4096, 0x20, "test-file.txt");
    let mut first = info_script(file_record.clone(), vec![Status(SUCCESS)]);
    first.write_responses = vec![WriteResponse { status: Status(SUCCESS), written: 13 }];
    let mut second = info_script(file_record, vec![Status(SUCCESS)]);
    second.read_responses = vec![ReadResponse { status: Status(SUCCESS), data: Vec::new() }];
    let mut root = File {
        handle: 1,
        info_events: Vec::new(),
        set_info_results: Vec::new(),
        read_responses: Vec::new(),
        write_responses: Vec::new(),
        set_position_results: Vec::new(),
        flush_results: Vec::new(),
        open_responses: vec![
            OpenResponse { status: Status(SUCCESS), script: first },
            OpenResponse { status: Status(SUCCESS), script: second },
        ],
    };
    let mut bs = fresh_bs(8192);
    let path = EfiString::from_str("\\test-file.txt").unwrap().as_str();

    // Create a non-empty file.
    let mut file = root.create(&mut bs, &path, FileAttributes::empty()).unwrap();
    let data: Vec<u8> = b"Hello, world!".to_vec();
    assert_eq!(file.value.write(&data).unwrap(), data.len());

    // Create the same file again: it comes back truncated.
    let mut file = root.create(&mut bs, &path, FileAttributes::empty()).unwrap();
    let mut buf = data;
    assert_eq!(file.value.read(&mut buf).unwrap(), 0);
}

#[test]
fn create_surfaces_open_failure() {
    let mut root = File {
        handle: 1,
        info_events: Vec::new(),
        set_info_results: Vec::new(),
        read_responses: Vec::new(),
        write_responses: Vec::new(),
        set_position_results: Vec::new(),
        flush_results: Vec::new(),
        open_responses: vec![OpenResponse {
            status: Status(UNSUPPORTED),
            script: FileScript::empty(),
        }],
    };
    let mut bs = fresh_bs(4096);
    let path = EfiString::from_str("\\x").unwrap().as_str();
    let r = root.create(&mut bs, &path, FileAttributes::empty());
    assert_eq!(r.unwrap_err(), FileCreateError::CreateFailed(Status(UNSUPPORTED)));
    assert!(bs.open_handles.is_empty());
}

#[test]
fn create_closes_the_file_when_truncation_fails() {
    // The opened file turns out to be a directory.
    let dir_record = info_record(0, 0, 0x10, "DIR");
    let script = info_script(dir_record, vec![Status(SUCCESS)]);
    let mut root = File {
        handle: 1,
        info_events: Vec::new(),
        set_info_results: Vec::new(),
        read_responses: Vec::new(),
        write_responses: Vec::new(),
        set_position_results: Vec::new(),
        flush_results: Vec::new(),
        open_responses: vec![OpenResponse { status: Status(SUCCESS), script }],
    };
    let mut bs = fresh_bs(4096);
    let path = EfiString::from_str("\\d").unwrap().as_str();
    let r = root.create(&mut bs, &path, FileAttributes::empty());
    assert_eq!(
        r.unwrap_err(),
        FileCreateError::TruncateFailed(FileSetLenError::FileIsDirectory),
    );
    // The opened handle was closed again, not leaked.
    assert!(bs.open_handles.is_empty());
    assert_eq!(bs.closed_handles.len(), 1);
}

#[test]
fn set_len_reports_each_failing_step() {
    let mut bs = fresh_bs(8192);

    // The metadata query itself fails.
    let mut file = File::from_script(1, FileScript {
        info_events: vec![QueryEvent::Failed { status: Status(ABORTED) }],
        set_info_results: vec![Status(SUCCESS)],
        read_responses: Vec::new(),
        write_responses: Vec::new(),
        set_position_results: Vec::new(),
        flush_results: Vec::new(),
        open_responses: Vec::new(),
    });
    assert_eq!(
        file.set_len(&mut bs, 0).unwrap_err(),
        FileSetLenError::GetInfoFailed(Status(ABORTED)),
    );

    // The host refuses the updated record.
    let record = info_record(9, 9, 0x20, "F");
    let mut file = File::from_script(2, info_script(record, vec![Status(ABORTED)]));
    assert_eq!(
        file.set_len(&mut bs, 0).unwrap_err(),
        FileSetLenError::SetInfoFailed(Status(ABORTED)),
    );

    // And a run that goes through.
    let record = info_record(9, 9, 0x20, "F");
    let mut file = File::from_script(3, info_script(record, vec![Status(SUCCESS)]));
    assert_eq!(file.set_len(&mut bs, 0), Ok(()));
}

#[test]
fn scripted_file_calls_consume_in_order() {
    let mut bs = fresh_bs(0);
    let mut fs = SimpleFileSystem {
        open_responses: vec![OpenResponse {
            status: Status(SUCCESS),
            script: FileScript {
                info_events: Vec::new(),
                set_info_results: Vec::new(),
                read_responses: vec![ReadResponse {
                    status: Status(SUCCESS),
                    data: vec![1, 2, 3],
                }],
                write_responses: vec![WriteResponse { status: Status(ABORTED), written: 0 }],
                set_position_results: vec![Status(SUCCESS), Status(ABORTED)],
                flush_results: vec![Status(SUCCESS)],
                open_responses: Vec::new(),
            },
        }],
    };
    let mut root = fs.open(&mut bs).unwrap();
    let mut buf = vec![0u8; 2];
    // The host wrote more than the buffer holds; only the prefix lands.
    assert_eq!(root.value.read(&mut buf).unwrap(), 2);
    assert_eq!(buf, vec![1, 2]);
    assert_eq!(root.value.write(&vec![9u8; 4]).unwrap_err(), Status(ABORTED));
    assert_eq!(root.value.set_position(10), Ok(()));
    assert_eq!(root.value.set_position(20).unwrap_err(), Status(ABORTED));
    assert_eq!(root.value.flush(), Ok(()));
    root.release(&mut bs);
    assert_eq!(bs.closed_handles.len(), 1);
}

#[test]
fn file_modes_combine() {
    let m = FileModes::read().union(FileModes::write()).union(FileModes::create());
    assert_eq!(m.0, 0x8000000000000003);
    let a = FileAttributes::read_only().union(FileAttributes::hidden());
    assert!(a.contains(FileAttributes::read_only()));
    assert!(!a.contains(FileAttributes::directory()));
    assert_eq!(FileAttributes::empty().0, 0);
    assert_eq!(FileAttributes::system().0 | FileAttributes::archive().0, 0x24);
}
