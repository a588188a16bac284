use zfi::boot::BootServices;
use zfi::debug::{DebugFile, DebugFileError};
use zfi::device::Device;
use zfi::filesystem::{FileCreateError, FileScript, OpenResponse, SimpleFileSystem};
use zfi::header::{TableHeader, TableRevision};
use zfi::image::{Image, LoadedImage};
use zfi::path::PathBuf;
use zfi::query::QueryEvent;
use zfi::status::{Status, ABORTED, SUCCESS};
use zfi::string::EfiString;

fn fresh_bs(pool: usize) -> BootServices {
    let hdr = TableHeader {
        signature: 0,
        revision: TableRevision::new(2, 70),
        header_size: 24,
        crc32: 0,
        reserved: 0,
    };
    BootServices::new(hdr, pool, Vec::new())
}

fn image_path() -> PathBuf {
    let name = EfiString::from_str("\\EFI\\BOOT\\BOOTX64.EFI").unwrap().as_str();
    let mut buf = PathBuf::new();
    buf.push_media_file_path(&name);
    buf
}

fn le(v: u64, n: usize) -> Vec<u8> {
    let mut out = Vec::new();
    let mut x = v;
    for _ in 0..n {
        out.push((x % 0x100) as u8);
        x /= 0x100;
    }
    out
}

fn info_record(name: &str) -> Vec<u8> {
    let mut units: Vec<u16> = name.chars().map(|c| c as u16).collect();
    units.push(0);
    let total = 0x50 + 2 * units.len() as u64;
    let mut b = Vec::new();
    b.extend(le(total, 8));
    b.extend(le(0, 8));
    b.extend(le(4096, 8));
    b.extend(vec![0u8; 48]);
    b.extend(le(0x20, 8));
    for u in &units {
        b.extend(le(*u as u64, 2));
    }
    b
}

fn loaded_image(fs: Option<SimpleFileSystem>) -> LoadedImage {
    LoadedImage {
        device: Device { path: None, file_system: fs },
        file_path: image_path().as_path(),
        image_base: 0x40_0000,
    }
}

#[test]
fn proto() {
    let im = loaded_image(Some(SimpleFileSystem { open_responses: Vec::new() }));
    let path = image_path();
    assert_eq!(im.device().has_file_system(), true);
    assert_eq!(im.file_path().as_bytes(), path.as_bytes());
    assert_eq!(im.image_base(), 0x40_0000);
    let handle = Image { handle: 7 };
    assert_eq!(handle.handle, 7);
}

#[test]
fn debug_file_lands_next_to_image() {
    // The volume's root opens, and the log file creates after one probe.
    let record = info_record("BOOTX64.EFI.log");
    let child = FileScript {
        info_events: vec![
            QueryEvent::BufferTooSmall { new_len: record.len() },
            QueryEvent::Success { data: record, key: 0 },
        ],
        set_info_results: vec![Status(SUCCESS)],
        read_responses: Vec::new(),
        write_responses: Vec::new(),
        set_position_results: Vec::new(),
        flush_results: Vec::new(),
        open_responses: Vec::new(),
    };
    let mut root = FileScript::empty();
    root.open_responses = vec![OpenResponse { status: Status(SUCCESS), script: child }];
    let fs = SimpleFileSystem {
        open_responses: vec![OpenResponse { status: Status(SUCCESS), script: root }],
    };
    let mut im = loaded_image(Some(fs));
    let mut bs = fresh_bs(8192);
    let d = DebugFile::next_to_image(&mut bs, &mut im, "log").unwrap();
    // The log file's handle is open; the root's was closed again.
    assert!(bs.open_handles.contains(&d.file.value.handle));
    assert_eq!(bs.closed_handles.len(), 1);
}

#[test]
fn debug_file_requires_a_file_system() {
    let mut im = loaded_image(None);
    let mut bs = fresh_bs(0);
    match DebugFile::next_to_image(&mut bs, &mut im, "log") {
        Err(DebugFileError::UnsupportedImageLocation) => {}
        other => panic!("unexpected outcome: {:?}", other),
    }
}

#[test]
fn debug_file_reports_a_root_that_will_not_open() {
    let fs = SimpleFileSystem {
        open_responses: vec![OpenResponse {
            status: Status(ABORTED),
            script: FileScript::empty(),
        }],
    };
    let mut im = loaded_image(Some(fs));
    let mut bs = fresh_bs(0);
    match DebugFile::next_to_image(&mut bs, &mut im, "log") {
        Err(DebugFileError::OpenRootFailed(p, st)) => {
            assert_eq!(p.as_bytes(), image_path().as_bytes());
            assert_eq!(st, Status(ABORTED));
        }
        other => panic!("unexpected outcome: {:?}", other),
    }
}

#[test]
fn debug_file_reports_a_failed_creation() {
    // The root opens, but creating the log file is refused.
    let mut root = FileScript::empty();
    root.open_responses = vec![OpenResponse {
        status: Status(ABORTED),
        script: FileScript::empty(),
    }];
    let fs = SimpleFileSystem {
        open_responses: vec![OpenResponse { status: Status(SUCCESS), script: root }],
    };
    let mut im = loaded_image(Some(fs));
    let mut bs = fresh_bs(0);
    match DebugFile::next_to_image(&mut bs, &mut im, "log") {
        Err(DebugFileError::CreateFileFailed(name, why)) => {
            let expected = EfiString::from_str("\\EFI\\BOOT\\BOOTX64.EFI.log").unwrap();
            assert_eq!(name.as_str().as_units(), expected.as_str().as_units());
            assert_eq!(why, FileCreateError::CreateFailed(Status(ABORTED)));
        }
        other => panic!("unexpected outcome: {:?}", other),
    }
    // The root was closed again.
    assert!(bs.open_handles.is_empty());
    assert_eq!(bs.closed_handles.len(), 1);
}

#[test]
fn debug_file_refuses_a_bad_extension() {
    let mut root = FileScript::empty();
    root.open_responses = vec![OpenResponse {
        status: Status(SUCCESS),
        script: FileScript::empty(),
    }];
    let fs = SimpleFileSystem {
        open_responses: vec![OpenResponse { status: Status(SUCCESS), script: root }],
    };
    let mut im = loaded_image(Some(fs));
    let mut bs = fresh_bs(0);
    match DebugFile::next_to_image(&mut bs, &mut im, "l\0g") {
        Err(DebugFileError::UnsupportedExtension) => {}
        other => panic!("unexpected outcome: {:?}", other),
    }
    // The root handle opened along the way was closed again.
    assert!(bs.open_handles.is_empty());
    assert_eq!(bs.closed_handles.len(), 1);
}
