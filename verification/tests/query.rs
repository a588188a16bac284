use zfi::boot::{BootServices, DESCRIPTOR_SIZE};
use zfi::header::{TableHeader, TableRevision};
use zfi::memory::get_memory_map;
use zfi::query::{GrowableQuery, QueryEvent, QueryStep};
use zfi::status::{Status, ABORTED};

fn hdr() -> TableHeader {
    TableHeader {
        signature: 0,
        revision: TableRevision::new(2, 70),
        header_size: 24,
        crc32: 0,
        reserved: 0,
    }
}

fn le(v: u64, n: usize) -> Vec<u8> {
    let mut out = Vec::new();
    let mut x = v;
    for _ in 0..n {
        out.push((x % 0x100) as u8);
        x /= 0x100;
    }
    out
}

fn descriptor(ty: u32, phys: u64, virt: u64, pages: u64, attr: u64) -> Vec<u8> {
    let mut b = Vec::new();
    b.extend(le(ty as u64, 4));
    b.extend(le(0, 4));
    b.extend(le(phys, 8));
    b.extend(le(virt, 8));
    b.extend(le(pages, 8));
    b.extend(le(attr, 8));
    b.extend(le(0, 8));
    assert_eq!(b.len(), DESCRIPTOR_SIZE);
    b
}

#[test]
fn growable_query_steps() {
    let mut q = GrowableQuery::new(160);
    assert_eq!(q.capacity, 160);
    match q.absorb(QueryEvent::BufferTooSmall { new_len: 320 }) {
        QueryStep::Retry => {}
        _ => panic!("a too-small answer asks for a retry"),
    }
    assert_eq!(q.capacity, 320);
    match q.absorb(QueryEvent::Success { data: vec![0; 288], key: 9 }) {
        QueryStep::Done { data, key } => {
            assert_eq!(data.len(), 288);
            assert_eq!(key, 9);
        }
        _ => panic!("a success answer finishes the query"),
    }
    match q.absorb(QueryEvent::Failed { status: Status(ABORTED) }) {
        QueryStep::Fail { status } => assert_eq!(status, Status(ABORTED)),
        _ => panic!("any other failure is surfaced"),
    }
}

#[test]
fn two_retries_make_three_allocations_and_two_frees() {
    let mut data = Vec::new();
    for _ in 0..4 {
        data.extend(descriptor(7, 0x1000, 0, 16, 0xf));
    }
    let events = vec![
        QueryEvent::BufferTooSmall { new_len: 96 },
        QueryEvent::BufferTooSmall { new_len: 240 },
        QueryEvent::Success { data, key: 5 },
    ];
    let mut bs = BootServices::new(hdr(), 4096, events);
    let (buf, key) = bs.get_memory_map().unwrap();
    assert_eq!(key, 5);
    assert_eq!(buf.len, 4 * DESCRIPTOR_SIZE);
    // Exactly three allocations and two frees: the final buffer is
    // returned live, not freed.
    assert_eq!(bs.pool_allocated.len(), 3);
    assert_eq!(bs.pool_freed.len(), 2);
    assert_eq!(bs.pool_live.len(), 1);
    assert_eq!(bs.pool_allocated[0].1, DESCRIPTOR_SIZE);
    assert_eq!(bs.pool_allocated[1].1, 96);
    assert_eq!(bs.pool_allocated[2].1, 240);
    assert_eq!(bs.pool_freed[0], bs.pool_allocated[0]);
    assert_eq!(bs.pool_freed[1], bs.pool_allocated[1]);
}

#[test]
fn memory_map_probe_scenario() {
    // The host wants 320 bytes, then reports 288 bytes of records.
    let mut data = Vec::new();
    for i in 0..6u64 {
        data.extend(descriptor(i as u32, i * 0x1000, 0, 1, 0));
    }
    assert_eq!(data.len(), 288);
    let events = vec![
        QueryEvent::BufferTooSmall { new_len: 320 },
        QueryEvent::Success { data, key: 1 },
    ];
    let mut bs = BootServices::new(hdr(), 4096, events);
    let (buf, _key) = bs.get_memory_map().unwrap();
    assert_eq!(buf.len, 288);
    assert_eq!(buf.len % DESCRIPTOR_SIZE, 0);
    // Exactly one intermediate buffer was freed.
    assert_eq!(bs.pool_freed.len(), 1);
    let descs = bs.memory_descriptors(&buf);
    assert_eq!(descs.len(), 6);
    assert_eq!(descs[3].ty, 3);
    assert_eq!(descs[3].physical_start, 3 * 0x1000);
    assert_eq!(descs[3].number_of_pages, 1);
}

#[test]
fn memory_map_failure_frees_every_buffer() {
    let events = vec![
        QueryEvent::BufferTooSmall { new_len: 96 },
        QueryEvent::Failed { status: Status(ABORTED) },
    ];
    let mut bs = BootServices::new(hdr(), 4096, events);
    let r = bs.get_memory_map();
    assert_eq!(r.unwrap_err(), Status(ABORTED));
    assert_eq!(bs.pool_allocated.len(), 2);
    assert_eq!(bs.pool_freed.len(), 2);
    assert!(bs.pool_live.is_empty());
}

#[test]
fn memory_map_decodes_records() {
    let mut data = Vec::new();
    data.extend(descriptor(2, 0xdead0000, 0xbeef0000, 42, 0x8000000000000001));
    let events = vec![QueryEvent::Success { data, key: 3 }];
    let mut bs = BootServices::new(hdr(), 4096, events);
    let (descs, key) = get_memory_map(&mut bs).unwrap();
    assert_eq!(key, 3);
    assert_eq!(descs.len(), 1);
    assert_eq!(descs[0].ty, 2);
    assert_eq!(descs[0].physical_start, 0xdead0000);
    assert_eq!(descs[0].virtual_start, 0xbeef0000);
    assert_eq!(descs[0].number_of_pages, 42);
    assert_eq!(descs[0].attribute, 0x8000000000000001);
    // The wrapper freed the buffer after decoding: nothing leaks.
    assert!(bs.pool_live.is_empty());
}
