use zfi::allocator::PoolAllocator;
use zfi::boot::BootServices;
use zfi::header::{TableHeader, TableRevision};
use zfi::status::{Status, OUT_OF_RESOURCES};

fn hdr() -> TableHeader {
    TableHeader {
        signature: 0x5453595320494249,
        revision: TableRevision::new(2, 70),
        header_size: 24,
        crc32: 0,
        reserved: 0,
    }
}

fn fresh_bs(pool: usize) -> BootServices {
    BootServices::new(hdr(), pool, Vec::new())
}

#[test]
fn aligned_allocation_is_aligned() {
    let mut bs = fresh_bs(65536);
    let pa = PoolAllocator;
    for &align in &[1usize, 2, 4, 8, 16, 32, 64, 256, 1024] {
        let ptr = pa.allocate(&mut bs, 20, align).unwrap();
        assert_eq!(ptr % align, 0, "align {}", align);
    }
}

#[test]
fn deallocate_recovers_exact_host_allocation() {
    let mut bs = fresh_bs(65536);
    let pa = PoolAllocator;
    let ptr = pa.allocate(&mut bs, 40, 256).unwrap();
    // Instrument the host allocator: the raw base it handed out.
    let (base, size) = *bs.pool_allocated.last().unwrap();
    assert!(base <= ptr && ptr < base + size);
    pa.deallocate(&mut bs, ptr, 40);
    // The free landed on exactly that allocation.
    assert_eq!(*bs.pool_freed.last().unwrap(), (base, size));
    assert!(bs.pool_live.is_empty());
}

#[test]
fn zero_size_allocation_reserves_adjustment_slot() {
    let mut bs = fresh_bs(4096);
    let pa = PoolAllocator;
    let ptr = pa.allocate(&mut bs, 0, 8).unwrap();
    let (_, size) = *bs.pool_allocated.last().unwrap();
    assert_eq!(size, 8, "the trailing slot is still reserved");
    pa.deallocate(&mut bs, ptr, 0);
    assert!(bs.pool_live.is_empty());
}

#[test]
fn interleaved_frees_only_hit_host_allocations() {
    let mut bs = fresh_bs(65536);
    let pa = PoolAllocator;
    let a = pa.allocate(&mut bs, 10, 1).unwrap();
    let b = pa.allocate(&mut bs, 100, 64).unwrap();
    pa.deallocate(&mut bs, a, 10);
    let c = pa.allocate(&mut bs, 3, 16).unwrap();
    pa.deallocate(&mut bs, c, 3);
    pa.deallocate(&mut bs, b, 100);
    // No call to the host's free ever names an address the host did not
    // hand out.
    assert_eq!(bs.pool_freed.len(), 3);
    for freed in &bs.pool_freed {
        assert!(bs.pool_allocated.contains(freed), "foreign free {:?}", freed);
    }
    assert!(bs.pool_live.is_empty());
}

#[test]
fn exhausted_pool_reports_failure() {
    let mut bs = fresh_bs(16);
    let pa = PoolAllocator;
    let r = pa.allocate(&mut bs, 64, 8);
    assert_eq!(r, Err(Status(OUT_OF_RESOURCES)));
    assert!(bs.pool_allocated.is_empty());
}

#[test]
fn host_pool_refuses_unknown_free() {
    let mut bs = fresh_bs(4096);
    let ptr = bs.allocate_pool(32).unwrap();
    assert_eq!(ptr % 8, 0);
    assert!(bs.free_pool(ptr + 1).is_err());
    assert!(bs.free_pool(ptr).is_ok());
    assert!(bs.free_pool(ptr).is_err(), "double free refused");
}
