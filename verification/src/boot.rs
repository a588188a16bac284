//! The host's boot-time service table, modeled as explicit state.
//!
//! The real host hands out pool memory at a fixed 8-byte alignment,
//! identifies resources by opaque handles, and answers sized queries such
//! as the memory map.  Here that host is a value: a flat pool with a bump
//! pointer and full allocate/free logs, a handle table with a close log,
//! and a script of query answers.  Everything built on top of it is
//! verified against this state; tests instrument it by reading the logs.

use vstd::arithmetic::div_mod::lemma_add_mod_noop;
use vstd::prelude::*;

use crate::codec::{le_at, le_read, lemma_le_at_bound, lemma_pow256_bound};
use crate::header::TableHeader;
use crate::query::{
    cap_at, has_terminal, lemma_term_idx, term_idx, GrowableQuery, QueryEvent, QueryStep,
};
use crate::status::{Status, INVALID_PARAMETER, OUT_OF_RESOURCES, SUCCESS};

verus! {

/// Size in bytes of one memory-map record.
pub const DESCRIPTOR_SIZE: usize = 48;

/// `x` rounded up to the next multiple of 8.
pub open spec fn round8(x: int) -> int {
    x + ((8 - (x % 8)) % 8)
}

/// `round8` lands on a multiple of 8 within the next 7 bytes.
pub proof fn lemma_round8(x: int)
    requires
        x >= 0,
    ensures
        x <= round8(x) < x + 8,
        round8(x) % 8 == 0,
        x % 8 == 0 ==> round8(x) == x,
{
    lemma_add_mod_noop(x, (8 - (x % 8)) % 8, 8);
}

/// How the host may pick the address of a page allocation.
#[derive(Clone, Copy, PartialEq, Eq, Structural, Debug)]
pub enum AllocateType {
    AnyPages,
    MaxAddress,
    Address,
}

/// The host's classification of a memory region.
#[derive(Clone, Copy, PartialEq, Eq, Structural, Debug)]
pub enum MemoryType {
    Reserved,
    LoaderCode,
    LoaderData,
    BootServicesCode,
    BootServicesData,
    RuntimeServicesCode,
    RuntimeServicesData,
    ConventionalMemory,
    UnusableMemory,
    AcpiReclaimMemory,
    AcpiMemoryNvs,
    MemoryMappedIo,
    MemoryMappedIoPortSpace,
    PalCode,
    PersistentMemory,
    Unaccepted,
}

/// One record of the memory map.
#[derive(Clone, Copy, PartialEq, Eq, Structural, Debug)]
pub struct MemoryDescriptor {
    pub ty: u32,
    pub physical_start: u64,
    pub virtual_start: u64,
    pub number_of_pages: u64,
    pub attribute: u64,
}

/// The memory-map record encoded at `off` in `b`: a 32-bit type, then,
/// 8-aligned within the record, four 64-bit fields.
pub open spec fn descriptor_at(b: Seq<u8>, off: int) -> MemoryDescriptor {
    MemoryDescriptor {
        ty: le_at(b, off, 4) as u32,
        physical_start: le_at(b, off + 8, 8) as u64,
        virtual_start: le_at(b, off + 16, 8) as u64,
        number_of_pages: le_at(b, off + 24, 8) as u64,
        attribute: le_at(b, off + 32, 8) as u64,
    }
}

/// A buffer obtained from the pool: its address and the number of bytes the
/// host wrote into it.
#[derive(Clone, Copy, PartialEq, Eq, Structural, Debug)]
pub struct PoolBuffer {
    pub addr: usize,
    pub len: usize,
}

/// The pool room that running a query script takes: every attempt's buffer,
/// through the first answer that ends the loop.
pub open spec fn query_demand(s: Seq<QueryEvent>, cap: int) -> int
    decreases s.len(),
{
    if s.len() == 0 {
        0
    } else if s[0].is_retry() {
        round8(cap) + query_demand(s.drop_first(), s[0].retry_len())
    } else {
        round8(cap)
    }
}

/// The room a query script demands is never negative.
pub proof fn lemma_demand_nonneg(s: Seq<QueryEvent>, cap: int)
    requires
        cap >= 0,
    ensures
        query_demand(s, cap) >= 0,
    decreases s.len(),
{
    lemma_round8(cap);
    if s.len() > 0 && s[0].is_retry() {
        lemma_demand_nonneg(s.drop_first(), s[0].retry_len());
    }
}

/// In a well-formed pool, no free was ever made at an allocation the pool
/// did not hand out: every entry of the free log, and every live
/// allocation, appears in the allocation log.  Every pool operation
/// preserves well-formedness, so this holds after any interleaving of
/// allocations and frees.
pub proof fn lemma_frees_come_from_allocations(bs: BootServices)
    requires
        bs.wf(),
    ensures
        forall|i: int|
            0 <= i < bs.pool_freed@.len() ==> bs.pool_allocated@.contains(
                #[trigger] bs.pool_freed@[i],
            ),
        forall|i: int|
            0 <= i < bs.pool_live@.len() ==> bs.pool_allocated@.contains(
                #[trigger] bs.pool_live@[i],
            ),
{
}

/// The host's boot services, as a value.
#[derive(Debug)]
pub struct BootServices {
    /// The table header.
    pub hdr: TableHeader,
    /// The pool's backing bytes; addresses are indices into it.
    pub pool_mem: Vec<u8>,
    /// The bump pointer: everything below it has been handed out at some
    /// point.  Always 8-aligned.
    pub pool_next: usize,
    /// The allocations currently live, as (base, size), in allocation
    /// order.
    pub pool_live: Vec<(usize, usize)>,
    /// Every allocation ever made, as (base, size), in order.
    pub pool_allocated: Vec<(usize, usize)>,
    /// Every free ever made, as (base, size), in order.
    pub pool_freed: Vec<(usize, usize)>,
    /// The next handle value to hand out.
    pub next_handle: u64,
    /// The handles currently open.
    pub open_handles: Vec<u64>,
    /// Every handle close, in order.
    pub closed_handles: Vec<u64>,
    /// The host's scripted answers to memory-map queries, consumed front to
    /// back.
    pub memory_map_events: Vec<QueryEvent>,
}

impl BootServices {
    /// Well-formedness of the pool: the bump pointer is aligned and inside
    /// the memory, live allocations sit below it with distinct bases, and
    /// both the live set and the free log only ever name allocations that
    /// were handed out.
    pub open spec fn pool_wf(&self) -> bool {
        &&& self.pool_next <= self.pool_mem@.len()
        &&& self.pool_next as int % 8 == 0
        &&& forall|i: int|
            0 <= i < self.pool_live@.len() ==> (#[trigger] self.pool_live@[i]).1 >= 1 && (
            self.pool_live@[i].0 as int) % 8 == 0 && self.pool_live@[i].0 + self.pool_live@[i].1
                <= self.pool_next
        &&& forall|i: int, j: int|
            0 <= i < j < self.pool_live@.len() ==> (#[trigger] self.pool_live@[i]).0 != (
            #[trigger] self.pool_live@[j]).0
        &&& forall|i: int|
            0 <= i < self.pool_live@.len() ==> self.pool_allocated@.contains(
                #[trigger] self.pool_live@[i],
            )
        &&& forall|i: int|
            0 <= i < self.pool_freed@.len() ==> self.pool_allocated@.contains(
                #[trigger] self.pool_freed@[i],
            )
    }

    /// Well-formedness of the handle table: open handles are distinct and
    /// below the next fresh value.
    pub open spec fn handles_wf(&self) -> bool {
        &&& forall|i: int|
            0 <= i < self.open_handles@.len() ==> (#[trigger] self.open_handles@[i])
                < self.next_handle
        &&& forall|i: int, j: int|
            0 <= i < j < self.open_handles@.len() ==> (#[trigger] self.open_handles@[i]) != (
            #[trigger] self.open_handles@[j])
    }

    /// Well-formedness of the whole table.
    pub open spec fn wf(&self) -> bool {
        self.pool_wf() && self.handles_wf()
    }

    /// The pool fields of `a` and `b` agree.
    pub open spec fn pool_eq(a: Self, b: Self) -> bool {
        &&& a.pool_mem@ == b.pool_mem@
        &&& a.pool_next == b.pool_next
        &&& a.pool_live@ == b.pool_live@
        &&& a.pool_allocated@ == b.pool_allocated@
        &&& a.pool_freed@ == b.pool_freed@
    }

    /// The handle fields of `a` and `b` agree.
    pub open spec fn handles_eq(a: Self, b: Self) -> bool {
        &&& a.next_handle == b.next_handle
        &&& a.open_handles@ == b.open_handles@
        &&& a.closed_handles@ == b.closed_handles@
    }

    /// A fresh table: a zeroed pool of `pool_size` bytes, no handles, and
    /// the given memory-map answers.
    pub fn new(hdr: TableHeader, pool_size: usize, memory_map_events: Vec<QueryEvent>) -> (bs:
        BootServices)
        ensures
            bs.wf(),
            bs.hdr == hdr,
            bs.pool_mem@.len() == pool_size,
            bs.pool_next == 0,
            bs.pool_live@.len() == 0,
            bs.pool_allocated@.len() == 0,
            bs.pool_freed@.len() == 0,
            bs.next_handle == 1,
            bs.open_handles@.len() == 0,
            bs.closed_handles@.len() == 0,
            bs.memory_map_events == memory_map_events,
    {
        let mut pool_mem: Vec<u8> = Vec::new();
        let mut i: usize = 0;
        while i < pool_size
            invariant
                i <= pool_size,
                pool_mem@.len() == i,
            decreases pool_size - i,
        {
            pool_mem.push(0);
            i += 1;
        }
        BootServices {
            hdr,
            pool_mem,
            pool_next: 0,
            pool_live: Vec::new(),
            pool_allocated: Vec::new(),
            pool_freed: Vec::new(),
            next_handle: 1,
            open_handles: Vec::new(),
            closed_handles: Vec::new(),
            memory_map_events,
        }
    }

    /// Allocates `size` bytes from the pool.  The returned base is 8-byte
    /// aligned — the host guarantees no more — and the bump pointer
    /// advances; the allocation is recorded in the live set and the log.
    /// Fails with `OUT_OF_RESOURCES`, leaving everything unchanged, exactly
    /// when the pool has too little room left.
    pub fn allocate_pool(&mut self, size: usize) -> (r: Result<usize, Status>)
        requires
            old(self).wf(),
            size >= 1,
        ensures
            final(self).wf(),
            final(self).hdr == old(self).hdr,
            Self::handles_eq(*final(self), *old(self)),
            final(self).memory_map_events@ == old(self).memory_map_events@,
            final(self).pool_mem@ == old(self).pool_mem@,
            final(self).pool_freed@ == old(self).pool_freed@,
            r is Ok <==> old(self).pool_next + round8(size as int) <= old(
                self,
            ).pool_mem@.len(),
            r is Err ==> r == Err::<usize, Status>(Status(OUT_OF_RESOURCES)) && Self::pool_eq(
                *final(self),
                *old(self),
            ),
            r matches Ok(base) ==> ({
                &&& base == old(self).pool_next
                &&& (base as int) % 8 == 0
                &&& base + size <= old(self).pool_mem@.len()
                &&& final(self).pool_next == round8(old(self).pool_next + size)
                &&& final(self).pool_next == old(self).pool_next + round8(size as int)
                &&& final(self).pool_live@ == old(self).pool_live@.push((base, size))
                &&& final(self).pool_allocated@ == old(self).pool_allocated@.push((base, size))
            }),
    {
        let len = self.pool_mem.len();
        let next = self.pool_next;
        proof {
            lemma_round8(size as int);
            lemma_round8(next + size);
            lemma_add_mod_noop(next as int, size as int, 8);
        }
        if size > len - next {
            return Err(Status(OUT_OF_RESOURCES));
        }
        let sum = next + size;
        let rem = sum % 8;
        let pad: usize = if rem == 0 {
            0
        } else {
            8 - rem
        };
        proof {
            assert(sum + pad == round8(next + size));
            assert(round8(next + size) == next + round8(size as int)) by {
                assert((sum as int) % 8 == (size as int) % 8);
            }
        }
        if pad > len - sum {
            return Err(Status(OUT_OF_RESOURCES));
        }
        let base = next;
        self.pool_next = sum + pad;
        self.pool_live.push((base, size));
        self.pool_allocated.push((base, size));
        proof {
            assert forall|i: int|
                0 <= i < self.pool_live@.len() implies self.pool_allocated@.contains(
                #[trigger] self.pool_live@[i],
            ) by {
                if i < old(self).pool_live@.len() {
                    assert(old(self).pool_allocated@.contains(old(self).pool_live@[i]));
                    let k = choose|k: int|
                        0 <= k < old(self).pool_allocated@.len() && old(self).pool_allocated@[k]
                            == old(self).pool_live@[i];
                    assert(self.pool_allocated@[k] == self.pool_live@[i]);
                } else {
                    assert(self.pool_allocated@[self.pool_allocated@.len() - 1]
                        == self.pool_live@[i]);
                }
            }
            assert forall|i: int|
                0 <= i < self.pool_freed@.len() implies self.pool_allocated@.contains(
                #[trigger] self.pool_freed@[i],
            ) by {
                assert(old(self).pool_allocated@.contains(old(self).pool_freed@[i]));
                let k = choose|k: int|
                    0 <= k < old(self).pool_allocated@.len() && old(self).pool_allocated@[k]
                        == old(self).pool_freed@[i];
                assert(self.pool_allocated@[k] == self.pool_freed@[i]);
            }
        }
        Ok(base)
    }

    /// Releases the live allocation whose base is `base` and records the
    /// free in the log.  Succeeds exactly when such an allocation is live;
    /// any other address is refused, untouched — the pool is never freed at
    /// an address it did not hand out.
    #[verifier::loop_isolation(false)]
    pub fn free_pool(&mut self, base: usize) -> (r: Result<(), Status>)
        requires
            old(self).wf(),
        ensures
            final(self).wf(),
            final(self).hdr == old(self).hdr,
            Self::handles_eq(*final(self), *old(self)),
            final(self).memory_map_events@ == old(self).memory_map_events@,
            final(self).pool_mem@ == old(self).pool_mem@,
            final(self).pool_next == old(self).pool_next,
            final(self).pool_allocated@ == old(self).pool_allocated@,
            r is Ok <==> exists|i: int|
                0 <= i < old(self).pool_live@.len() && (#[trigger] old(self).pool_live@[i]).0
                    == base,
            r is Err ==> r == Err::<(), Status>(Status(INVALID_PARAMETER)) && Self::pool_eq(
                *final(self),
                *old(self),
            ),
            r is Ok ==> exists|i: int|
                {
                    &&& 0 <= i < old(self).pool_live@.len()
                    &&& (#[trigger] old(self).pool_live@[i]).0 == base
                    &&& final(self).pool_live@ == old(self).pool_live@.remove(i)
                    &&& final(self).pool_freed@ == old(self).pool_freed@.push(
                        old(self).pool_live@[i],
                    )
                },
            (old(self).pool_live@.len() > 0 && old(self).pool_live@.last().0 == base) ==> (r
                is Ok && final(self).pool_live@ == old(self).pool_live@.drop_last()
                && final(self).pool_freed@ == old(self).pool_freed@.push(
                old(self).pool_live@.last(),
            )),
    {
        let n = self.pool_live.len();
        let mut i: usize = 0;
        while i < n
            invariant
                *self == *old(self),
                i <= n,
                n == self.pool_live@.len(),
                forall|j: int| 0 <= j < i ==> (#[trigger] self.pool_live@[j]).0 != base,
            decreases n - i,
        {
            if self.pool_live[i].0 == base {
                let entry = self.pool_live.remove(i);
                self.pool_freed.push(entry);
                proof {
                    let ghost oi = i as int;
                    assert(old(self).pool_live@[oi].0 == base);
                    assert(self.pool_live@ == old(self).pool_live@.remove(oi));
                    if old(self).pool_live@.last().0 == base {
                        assert(oi == old(self).pool_live@.len() - 1) by {
                            if oi < old(self).pool_live@.len() - 1 {
                                assert(old(self).pool_live@[oi].0 != old(
                                    self,
                                ).pool_live@[old(self).pool_live@.len() - 1].0);
                            }
                        }
                        assert(self.pool_live@ =~= old(self).pool_live@.drop_last());
                    }
                    assert forall|k: int|
                        0 <= k < self.pool_live@.len() implies self.pool_allocated@.contains(
                        #[trigger] self.pool_live@[k],
                    ) by {
                        if k < oi {
                            assert(self.pool_live@[k] == old(self).pool_live@[k]);
                        } else {
                            assert(self.pool_live@[k] == old(self).pool_live@[k + 1]);
                        }
                    }
                    assert forall|k: int|
                        0 <= k < self.pool_freed@.len() implies self.pool_allocated@.contains(
                        #[trigger] self.pool_freed@[k],
                    ) by {
                        if k < old(self).pool_freed@.len() {
                        } else {
                            assert(self.pool_freed@[k] == old(self).pool_live@[oi]);
                            assert(old(self).pool_allocated@.contains(old(self).pool_live@[oi]));
                        }
                    }
                }
                return Ok(());
            }
            i += 1;
        }
        Err(Status(INVALID_PARAMETER))
    }

    /// Writes `data` into pool memory at `addr`, byte for byte, leaving
    /// every other byte and all bookkeeping unchanged.
    #[verifier::loop_isolation(false)]
    pub fn pool_write(&mut self, addr: usize, data: &[u8])
        requires
            old(self).wf(),
            addr + data@.len() <= old(self).pool_mem@.len(),
        ensures
            final(self).wf(),
            final(self).hdr == old(self).hdr,
            Self::handles_eq(*final(self), *old(self)),
            final(self).memory_map_events@ == old(self).memory_map_events@,
            final(self).pool_next == old(self).pool_next,
            final(self).pool_live@ == old(self).pool_live@,
            final(self).pool_allocated@ == old(self).pool_allocated@,
            final(self).pool_freed@ == old(self).pool_freed@,
            final(self).pool_mem@ =~= old(self).pool_mem@.take(addr as int) + data@ + old(
                self,
            ).pool_mem@.skip(addr + data@.len()),
    {
        let n = data.len();
        let m = self.pool_mem.len();
        let mut j: usize = 0;
        while j < n
            invariant
                j <= n,
                m == self.pool_mem@.len(),
                self.hdr == old(self).hdr,
                Self::handles_eq(*self, *old(self)),
                self.memory_map_events@ == old(self).memory_map_events@,
                self.pool_next == old(self).pool_next,
                self.pool_live@ == old(self).pool_live@,
                self.pool_allocated@ == old(self).pool_allocated@,
                self.pool_freed@ == old(self).pool_freed@,
                self.pool_mem@.len() == old(self).pool_mem@.len(),
                forall|k: int|
                    0 <= k < self.pool_mem@.len() && !(addr <= k < addr + j) ==> self.pool_mem@[k]
                        == old(self).pool_mem@[k],
                forall|k: int| addr <= k < addr + j ==> self.pool_mem@[k] == data@[k - addr],
            decreases n - j,
        {
            self.pool_mem.set(addr + j, data[j]);
            j += 1;
        }
    }

    /// Reads `len` bytes of pool memory at `addr`.
    #[verifier::loop_isolation(false)]
    pub fn pool_read(&self, addr: usize, len: usize) -> (v: Vec<u8>)
        requires
            addr + len <= self.pool_mem@.len(),
        ensures
            v@ =~= self.pool_mem@.subrange(addr as int, addr + len),
    {
        let m = self.pool_mem.len();
        let mut v: Vec<u8> = Vec::new();
        let mut j: usize = 0;
        while j < len
            invariant
                j <= len,
                m == self.pool_mem@.len(),
                v@ =~= self.pool_mem@.subrange(addr as int, addr + j),
            decreases len - j,
        {
            v.push(self.pool_mem[addr + j]);
            j += 1;
        }
        v
    }

    /// Hands out a fresh handle and marks it open.
    pub fn open_handle(&mut self) -> (h: u64)
        requires
            old(self).wf(),
            old(self).next_handle < u64::MAX,
        ensures
            final(self).wf(),
            final(self).hdr == old(self).hdr,
            Self::pool_eq(*final(self), *old(self)),
            final(self).memory_map_events@ == old(self).memory_map_events@,
            h == old(self).next_handle,
            !old(self).open_handles@.contains(h),
            final(self).next_handle == old(self).next_handle + 1,
            final(self).open_handles@ == old(self).open_handles@.push(h),
            final(self).closed_handles@ == old(self).closed_handles@,
    {
        let h = self.next_handle;
        self.next_handle = h + 1;
        self.open_handles.push(h);
        h
    }

    /// Closes an open handle and records the close.  Succeeds exactly when
    /// the handle is open; a handle that is not open is refused and nothing
    /// changes, so no handle is ever closed twice.
    #[verifier::loop_isolation(false)]
    pub fn close_handle(&mut self, h: u64) -> (st: Status)
        requires
            old(self).wf(),
        ensures
            final(self).wf(),
            final(self).hdr == old(self).hdr,
            Self::pool_eq(*final(self), *old(self)),
            final(self).memory_map_events@ == old(self).memory_map_events@,
            final(self).next_handle == old(self).next_handle,
            st.0 == SUCCESS <==> old(self).open_handles@.contains(h),
            st.0 == SUCCESS ==> final(self).open_handles@ == old(self).open_handles@.remove(
                old(self).open_handles@.index_of(h),
            ) && final(self).closed_handles@ == old(self).closed_handles@.push(h),
            st.0 != SUCCESS ==> st.0 == INVALID_PARAMETER && Self::handles_eq(
                *final(self),
                *old(self),
            ),
    {
        let n = self.open_handles.len();
        let mut i: usize = 0;
        while i < n
            invariant
                *self == *old(self),
                i <= n,
                n == self.open_handles@.len(),
                forall|j: int| 0 <= j < i ==> (#[trigger] self.open_handles@[j]) != h,
            decreases n - i,
        {
            if self.open_handles[i] == h {
                self.open_handles.remove(i);
                self.closed_handles.push(h);
                proof {
                    let ghost oi = i as int;
                    assert(old(self).open_handles@[oi] == h);
                    assert(old(self).open_handles@.index_of(h) == oi) by {
                        assert forall|j: int|
                            0 <= j < old(self).open_handles@.len() && old(self).open_handles@[j]
                                == h implies j == oi by {
                            if j < oi {
                            } else if j > oi {
                                assert(old(self).open_handles@[oi] != old(self).open_handles@[j]);
                            }
                        }
                        assert(old(self).open_handles@.contains(h));
                    }
                    assert forall|k: int, l: int|
                        0 <= k < l < self.open_handles@.len() implies (
                    #[trigger] self.open_handles@[k]) != (#[trigger] self.open_handles@[l]) by {
                        let k0 = if k < oi {
                            k
                        } else {
                            k + 1
                        };
                        let l0 = if l < oi {
                            l
                        } else {
                            l + 1
                        };
                        assert(self.open_handles@[k] == old(self).open_handles@[k0]);
                        assert(self.open_handles@[l] == old(self).open_handles@[l0]);
                    }
                }
                return Status(SUCCESS);
            }
            i += 1;
        }
        Status(INVALID_PARAMETER)
    }

    /// Whether a memory-map answer script is one a sane host could give:
    /// every retry asks for at least one byte, and a success writes no more
    /// than the buffer holds, in whole records.
    pub open spec fn mm_script_ok(s: Seq<QueryEvent>) -> bool {
        let t = term_idx(s);
        &&& forall|j: int| 0 <= j < t ==> (#[trigger] s[j]).retry_len() >= 1
        &&& ((t < s.len() && s[t] matches QueryEvent::Success { .. }) ==> (
        s[t].success_data().len() <= cap_at(s, DESCRIPTOR_SIZE as int, t)
            && (s[t].success_data().len() as int) % (DESCRIPTOR_SIZE as int) == 0))
    }

    /// Returns the current memory map by probe, allocate and retry: a pool
    /// buffer is allocated at the guessed capacity, the host consumes the
    /// next scripted answer, and on "buffer too small" the buffer is freed
    /// and the reported size tried instead.  Every intermediate buffer is
    /// freed before the next attempt; on success the final buffer stays
    /// live and is returned, holding the host's bytes, with the host's map
    /// key.  A terminal failure frees the last buffer too and is surfaced
    /// unchanged, so no attempt leaks.
    #[verifier::loop_isolation(false)]
    pub fn get_memory_map(&mut self) -> (r: Result<(PoolBuffer, usize), Status>)
        requires
            old(self).wf(),
            has_terminal(old(self).memory_map_events@),
            Self::mm_script_ok(old(self).memory_map_events@),
            old(self).pool_next + query_demand(
                old(self).memory_map_events@,
                DESCRIPTOR_SIZE as int,
            ) <= old(self).pool_mem@.len(),
        ensures
            final(self).wf(),
            final(self).hdr == old(self).hdr,
            Self::handles_eq(*final(self), *old(self)),
            final(self).pool_mem@.len() == old(self).pool_mem@.len(),
            ({
                let s = old(self).memory_map_events@;
                let t = term_idx(s);
                let abase = old(self).pool_allocated@.len() as int;
                &&& final(self).memory_map_events@ == s.skip(t + 1)
                &&& final(self).pool_allocated@.len() == abase + t + 1
                &&& final(self).pool_allocated@.subrange(0, abase) == old(self).pool_allocated@
                &&& forall|i: int|
                    0 <= i <= t ==> (#[trigger] final(self).pool_allocated@[abase + i]).1
                        == cap_at(s, DESCRIPTOR_SIZE as int, i)
                &&& (s[t] matches QueryEvent::Success { data, key } ==> ({
                    let fin = final(self).pool_allocated@.last();
                    &&& r == Ok::<(PoolBuffer, usize), Status>(
                        (PoolBuffer { addr: fin.0, len: data@.len() as usize }, key),
                    )
                    &&& data@.len() <= fin.1
                    &&& fin.0 + fin.1 <= final(self).pool_mem@.len()
                    &&& final(self).pool_live@ == old(self).pool_live@.push(fin)
                    &&& final(self).pool_freed@ == old(self).pool_freed@
                        + final(self).pool_allocated@.subrange(abase, abase + t)
                    &&& final(self).pool_mem@ =~= old(self).pool_mem@.take(fin.0 as int) + data@
                        + old(self).pool_mem@.skip(fin.0 + data@.len())
                }))
                &&& (s[t] matches QueryEvent::Failed { status } ==> ({
                    &&& r == Err::<(PoolBuffer, usize), Status>(status)
                    &&& final(self).pool_live@ == old(self).pool_live@
                    &&& final(self).pool_mem@ == old(self).pool_mem@
                    &&& final(self).pool_freed@ == old(self).pool_freed@
                        + final(self).pool_allocated@.subrange(abase, abase + t + 1)
                }))
            }),
    {
        let ghost s = old(self).memory_map_events@;
        let ghost t = term_idx(s);
        let ghost abase = old(self).pool_allocated@.len() as int;
        proof {
            lemma_term_idx(s);
        }
        proof {
            assert(s.skip(0) =~= s);
        }
        let mut q = GrowableQuery::new(DESCRIPTOR_SIZE);
        let ghost mut k: int = 0;
        loop
            invariant
                self.wf(),
                0 <= k <= t,
                self.memory_map_events@ == s.skip(k),
                q.capacity == cap_at(s, DESCRIPTOR_SIZE as int, k),
                q.capacity >= 1,
                self.hdr == old(self).hdr,
                Self::handles_eq(*self, *old(self)),
                self.pool_mem@ == old(self).pool_mem@,
                self.pool_live@ == old(self).pool_live@,
                self.pool_next + query_demand(s.skip(k), cap_at(s, DESCRIPTOR_SIZE as int, k))
                    <= self.pool_mem@.len(),
                self.pool_allocated@.len() == abase + k,
                self.pool_allocated@.subrange(0, abase) == old(self).pool_allocated@,
                forall|i: int|
                    0 <= i < k ==> (#[trigger] self.pool_allocated@[abase + i]).1 == cap_at(
                        s,
                        DESCRIPTOR_SIZE as int,
                        i,
                    ),
                self.pool_freed@ == old(self).pool_freed@ + self.pool_allocated@.subrange(
                    abase,
                    abase + k,
                ),
            decreases t - k,
        {
            let cap = q.capacity;
            proof {
                assert(s.skip(k).len() > 0);
                if s.skip(k)[0].is_retry() {
                    lemma_round8(s.skip(k)[0].retry_len());
                    lemma_demand_nonneg(s.skip(k).drop_first(), s.skip(k)[0].retry_len());
                }
                lemma_round8(cap as int);
            }
            let base = match self.allocate_pool(cap) {
                Ok(b) => b,
                Err(_) => {
                    return Err(Status(OUT_OF_RESOURCES));
                },
            };
            let ev = self.memory_map_events.remove(0);
            proof {
                assert(ev == s.skip(k)[0]);
                assert(ev == s[k]);
                assert(self.memory_map_events@ =~= s.skip(k + 1));
            }
            let step = q.absorb(ev);
            match step {
                QueryStep::Retry => {
                    proof {
                        if k == t {
                            assert(!s[t].is_retry());
                        }
                        assert(self.pool_live@.last().0 == base);
                    }
                    let freed = self.free_pool(base);
                    proof {
                        assert(freed is Ok);
                        assert(self.pool_live@ =~= old(self).pool_live@);
                        assert(self.pool_freed@ =~= old(self).pool_freed@
                            + self.pool_allocated@.subrange(abase, abase + k + 1));
                        assert(s.skip(k).drop_first() =~= s.skip(k + 1));
                        k = k + 1;
                        assert(self.pool_allocated@.subrange(0, abase) =~= old(
                            self,
                        ).pool_allocated@);
                    }
                },
                QueryStep::Done { data, key } => {
                    proof {
                        if k < t {
                            assert(s[k].is_retry());
                        }
                        assert(k == t);
                        assert(data@.len() <= cap);
                    }
                    self.pool_write(base, data.as_slice());
                    proof {
                        assert(self.pool_allocated@.subrange(0, abase) =~= old(
                            self,
                        ).pool_allocated@);
                        assert(self.pool_freed@ =~= old(self).pool_freed@
                            + self.pool_allocated@.subrange(abase, abase + t));
                        assert(self.pool_allocated@.last() == (base, cap));
                    }
                    return Ok((PoolBuffer { addr: base, len: data.len() }, key));
                },
                QueryStep::Fail { status } => {
                    proof {
                        if k < t {
                            assert(s[k].is_retry());
                        }
                        assert(k == t);
                        assert(self.pool_live@.last().0 == base);
                    }
                    let _ = self.free_pool(base);
                    proof {
                        assert(self.pool_live@ =~= old(self).pool_live@);
                        assert(self.pool_allocated@.subrange(0, abase) =~= old(
                            self,
                        ).pool_allocated@);
                        assert(self.pool_freed@ =~= old(self).pool_freed@
                            + self.pool_allocated@.subrange(abase, abase + t + 1));
                    }
                    return Err(status);
                },
            }
        }
    }

    /// Decodes the records of a returned memory-map buffer, field by field,
    /// with unaligned little-endian reads.
    #[verifier::loop_isolation(false)]
    pub fn memory_descriptors(&self, buf: &PoolBuffer) -> (v: Vec<MemoryDescriptor>)
        requires
            buf.addr + buf.len <= self.pool_mem@.len(),
            (buf.len as int) % (DESCRIPTOR_SIZE as int) == 0,
        ensures
            v@.len() == (buf.len as int) / (DESCRIPTOR_SIZE as int),
            forall|i: int|
                0 <= i < v@.len() ==> v@[i] == descriptor_at(
                    self.pool_mem@,
                    buf.addr + (DESCRIPTOR_SIZE as int) * i,
                ),
    {
        let count = buf.len / DESCRIPTOR_SIZE;
        let m = self.pool_mem.len();
        proof {
            assert((DESCRIPTOR_SIZE as int) * (count as int) == buf.len as int) by {
                vstd::arithmetic::div_mod::lemma_fundamental_div_mod(
                    buf.len as int,
                    DESCRIPTOR_SIZE as int,
                );
            }
        }
        let mut v: Vec<MemoryDescriptor> = Vec::new();
        let mut i: usize = 0;
        while i < count
            invariant
                i <= count,
                (DESCRIPTOR_SIZE as int) * (count as int) == buf.len as int,
                v@.len() == i,
                forall|j: int|
                    0 <= j < i ==> v@[j] == descriptor_at(
                        self.pool_mem@,
                        buf.addr + (DESCRIPTOR_SIZE as int) * j,
                    ),
            decreases count - i,
        {
            proof {
                assert((DESCRIPTOR_SIZE as int) * (i as int) + (DESCRIPTOR_SIZE as int) <= (
                DESCRIPTOR_SIZE as int) * (count as int)) by {
                    assert((DESCRIPTOR_SIZE as int) * (i as int + 1) <= (DESCRIPTOR_SIZE as int)
                        * (count as int)) by (nonlinear_arith)
                        requires
                            i as int + 1 <= count as int,
                    ;
                    assert((DESCRIPTOR_SIZE as int) * (i as int + 1) == (DESCRIPTOR_SIZE as int)
                        * (i as int) + (DESCRIPTOR_SIZE as int)) by (nonlinear_arith);
                }
                lemma_pow256_bound();
                lemma_le_at_bound(self.pool_mem@, buf.addr + DESCRIPTOR_SIZE * i, 4);
                lemma_le_at_bound(self.pool_mem@, buf.addr + DESCRIPTOR_SIZE * i + 8, 8);
                lemma_le_at_bound(self.pool_mem@, buf.addr + DESCRIPTOR_SIZE * i + 16, 8);
                lemma_le_at_bound(self.pool_mem@, buf.addr + DESCRIPTOR_SIZE * i + 24, 8);
                lemma_le_at_bound(self.pool_mem@, buf.addr + DESCRIPTOR_SIZE * i + 32, 8);
            }
            let off = buf.addr + DESCRIPTOR_SIZE * i;
            let d = MemoryDescriptor {
                ty: le_read(&self.pool_mem, off, 4) as u32,
                physical_start: le_read(&self.pool_mem, off + 8, 8),
                virtual_start: le_read(&self.pool_mem, off + 16, 8),
                number_of_pages: le_read(&self.pool_mem, off + 24, 8),
                attribute: le_read(&self.pool_mem, off + 32, 8),
            };
            v.push(d);
            i += 1;
        }
        v
    }
}

} // verus!
