use zfi::boot::BootServices;
use zfi::header::{TableHeader, TableRevision};
use zfi::pointer::{Dtor, Owned, ReleaseFn};
use zfi::status::INVALID_PARAMETER;

fn fresh_bs(pool: usize) -> BootServices {
    let hdr = TableHeader {
        signature: 0,
        revision: TableRevision::new(2, 70),
        header_size: 24,
        crc32: 0,
        reserved: 0,
    };
    BootServices::new(hdr, pool, Vec::new())
}

#[test]
fn release_runs_exactly_once() {
    let mut bs = fresh_bs(0);
    let h = bs.open_handle();
    // Construct, never touch, release: the close log gains exactly one
    // entry for the handle.
    let owned = Owned::new((), h, Dtor::Function(ReleaseFn::CloseHandle));
    owned.release(&mut bs);
    assert_eq!(bs.closed_handles, vec![h]);
    assert!(bs.open_handles.is_empty());
    // The host refuses to close the handle a second time.
    assert_eq!(bs.close_handle(h).0, INVALID_PARAMETER);
    assert_eq!(bs.closed_handles, vec![h]);
}

#[test]
fn moving_never_doubles_the_release() {
    let mut bs = fresh_bs(0);
    let h = bs.open_handle();
    let owned = Owned::new(7u32, h, Dtor::Function(ReleaseFn::CloseHandle));
    // Move the value through two more owners before releasing.
    let moved = owned;
    let moved_again = moved;
    assert_eq!(moved_again.value, 7);
    moved_again.release(&mut bs);
    assert_eq!(
        bs.closed_handles.iter().filter(|&&x| x == h).count(),
        1,
        "the release ran exactly once",
    );
}

#[test]
fn closure_flavor_releases_through_captured_argument() {
    let mut bs = fresh_bs(4096);
    let base = bs.allocate_pool(32).unwrap();
    // The wrapped value is not the thing to free; the captured address is.
    let owned = Owned::new("buffer", 0, Dtor::Closure(ReleaseFn::FreePool, base as u64));
    owned.release(&mut bs);
    assert_eq!(bs.pool_freed.len(), 1);
    assert_eq!(bs.pool_freed[0].0, base);
    assert!(bs.pool_live.is_empty());
}

#[test]
fn nested_owners_release_independently() {
    let mut bs = fresh_bs(0);
    let outer_h = bs.open_handle();
    let inner_h = bs.open_handle();
    let outer = Owned::new((), outer_h, Dtor::Function(ReleaseFn::CloseHandle));
    let inner = Owned::new((), inner_h, Dtor::Function(ReleaseFn::CloseHandle));
    // Releasing the outer owner does not release the inner one.
    outer.release(&mut bs);
    assert_eq!(bs.closed_handles, vec![outer_h]);
    assert!(bs.open_handles.contains(&inner_h));
    inner.release(&mut bs);
    assert_eq!(bs.closed_handles, vec![outer_h, inner_h]);
}
