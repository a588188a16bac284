//! The alignment-adapting pool allocator.
//!
//! The host's pool guarantees 8-byte alignment and nothing more.  To serve
//! a stricter alignment, the allocator pads the request with enough spare
//! room to shift the returned pointer forward to the requested boundary,
//! plus a trailing 8-byte slot.  The number of bytes shifted is written,
//! unaligned, into that slot right after the caller's bytes, so that
//! deallocation can read it back and recover the exact pool base to free.

use vstd::arithmetic::div_mod::{
    lemma_fundamental_div_mod, lemma_mod_add_multiples_vanish, lemma_mod_mod,
    lemma_mod_multiples_basic,
};
use vstd::prelude::*;

use crate::boot::{round8, BootServices};
use crate::codec::{le_at, le_read, le_write, lemma_le_roundtrip, lemma_pow256_bound};
use crate::status::Status;

verus! {

/// Whether `a` is a power of two.
pub open spec fn is_power_of_two(a: int) -> bool
    decreases a,
{
    if a <= 0 {
        false
    } else if a == 1 {
        true
    } else {
        a % 2 == 0 && is_power_of_two(a / 2)
    }
}

/// The bytes requested from the pool for an allocation of `size` bytes at
/// alignment `align`: room to shift when the alignment is stricter than the
/// pool's own, plus the trailing 8-byte adjustment slot.  A zero-size
/// request still reserves the slot.
pub open spec fn padded_size(size: int, align: int) -> int {
    size + (if align > 8 {
        align - 8
    } else {
        0
    }) + 8
}

/// A power of two no greater than 8 divides 8-aligned addresses.
proof fn lemma_pow2_small(a: int)
    requires
        is_power_of_two(a),
        a <= 8,
    ensures
        a == 1 || a == 2 || a == 4 || a == 8,
    decreases a,
{
    if a > 1 {
        lemma_pow2_small(a / 2);
    }
}

/// A power of two above 8 is a multiple of 8 (and at least 16).
proof fn lemma_pow2_large(a: int)
    requires
        is_power_of_two(a),
        a > 8,
    ensures
        a >= 16,
        a % 8 == 0,
    decreases a,
{
    if a / 2 > 8 {
        lemma_pow2_large(a / 2);
        assert(a == 2 * (a / 2));
        let m = (a / 2) / 8;
        assert(a / 2 == 8 * m) by {
            lemma_fundamental_div_mod(a / 2, 8);
        }
        assert(a == 8 * (2 * m));
        lemma_mod_multiples_basic(2 * m, 8);
    } else {
        lemma_pow2_small(a / 2);
        assert(a / 2 == 8);
        assert(a == 16) by {
            lemma_fundamental_div_mod(a, 2);
        }
    }
}

/// An 8-aligned address is aligned to every power of two up to 8.
proof fn lemma_mod8_divides(b: int, a: int)
    requires
        b >= 0,
        b % 8 == 0,
        a == 1 || a == 2 || a == 4 || a == 8,
    ensures
        b % a == 0,
{
    let q = b / 8;
    assert(b == 8 * q) by {
        lemma_fundamental_div_mod(b, 8);
    }
    if a == 1 {
        lemma_mod_multiples_basic(8 * q, 1);
    } else if a == 2 {
        assert(b == 2 * (4 * q));
        lemma_mod_multiples_basic(4 * q, 2);
    } else if a == 4 {
        assert(b == 4 * (2 * q));
        lemma_mod_multiples_basic(2 * q, 4);
    } else {
        lemma_mod_multiples_basic(q, 8);
    }
}

/// The adjustment stored right after the `size` caller bytes at `ptr`.
pub open spec fn stored_adjust(bs: BootServices, ptr: int, size: int) -> int {
    le_at(bs.pool_mem@, ptr + size, 8)
}

/// Whether `(ptr, size)` can be handed back to `deallocate`: the adjustment
/// slot is inside pool memory, the recovered base address is sound, and
/// that base is a live pool allocation.  `allocate` establishes this, and
/// every pool operation but a write over the slot preserves it.
pub open spec fn deallocate_ok(bs: BootServices, ptr: int, size: int) -> bool {
    &&& ptr + size + 8 <= bs.pool_mem@.len()
    &&& 0 <= stored_adjust(bs, ptr, size) <= ptr
    &&& exists|i: int|
        0 <= i < bs.pool_live@.len() && (#[trigger] bs.pool_live@[i]).0 == ptr - stored_adjust(
            bs,
            ptr,
            size,
        )
}

/// An allocator serving arbitrary power-of-two alignments on top of the
/// pool's fixed 8-byte alignment.
pub struct PoolAllocator;

impl PoolAllocator {
    /// Allocates `size` bytes aligned to `align`.
    ///
    /// On success the returned address is aligned to `align`, lies in a
    /// fresh pool allocation of `padded_size(size, align)` bytes, and the
    /// shift from the pool base is recorded in the trailing slot, ready for
    /// `deallocate`.  Pool memory below the old bump pointer is untouched.  A
    /// full pool reports the failure and changes nothing; the allocator
    /// never retries.
    pub fn allocate(&self, bs: &mut BootServices, size: usize, align: usize) -> (r: Result<
        usize,
        Status,
    >)
        requires
            old(bs).wf(),
            is_power_of_two(align as int),
            size + align + 8 <= usize::MAX,
        ensures
            final(bs).wf(),
            final(bs).hdr == old(bs).hdr,
            BootServices::handles_eq(*final(bs), *old(bs)),
            final(bs).memory_map_events@ == old(bs).memory_map_events@,
            final(bs).pool_freed@ == old(bs).pool_freed@,
            final(bs).pool_mem@.len() == old(bs).pool_mem@.len(),
            r is Ok <==> old(bs).pool_next + round8(padded_size(size as int, align as int))
                <= old(bs).pool_mem@.len(),
            r is Err ==> BootServices::pool_eq(*final(bs), *old(bs)) && r == Err::<usize, Status>(
                Status(crate::status::OUT_OF_RESOURCES),
            ),
            r matches Ok(ptr) ==> ({
                let base = old(bs).pool_next as int;
                let psize = padded_size(size as int, align as int);
                let adjust = ptr - base;
                &&& (ptr as int) % (align as int) == 0
                &&& 0 <= adjust < align
                &&& (align <= 8 ==> adjust == 0)
                &&& ptr + size + 8 <= base + psize
                &&& base + psize <= final(bs).pool_mem@.len()
                &&& final(bs).pool_live@ == old(bs).pool_live@.push((base as usize, psize as usize))
                &&& final(bs).pool_allocated@ == old(bs).pool_allocated@.push(
                    (base as usize, psize as usize),
                )
                &&& final(bs).pool_next == old(bs).pool_next + round8(psize)
                &&& stored_adjust(*final(bs), ptr as int, size as int) == adjust
                &&& forall|k: int|
                    0 <= k < final(bs).pool_mem@.len() && !(ptr + size <= k < ptr + size + 8)
                        ==> final(bs).pool_mem@[k] == old(bs).pool_mem@[k]
                &&& deallocate_ok(*final(bs), ptr as int, size as int)
            }),
    {
        proof {
            if align as int <= 8 {
                lemma_pow2_small(align as int);
            } else {
                lemma_pow2_large(align as int);
            }
        }
        // Pad the request: spare room to shift when the alignment is
        // stricter than the pool's, plus the trailing adjustment slot.
        let room: usize = if align > 8 {
            align - 8
        } else {
            0
        };
        let psize = size + room + 8;
        let base = match bs.allocate_pool(psize) {
            Ok(b) => b,
            Err(e) => {
                return Err(e);
            },
        };
        // Shift forward to the requested boundary.
        let mis = base % align;
        let adjust: usize = if mis == 0 {
            0
        } else {
            align - mis
        };
        proof {
            if align <= 8 {
                lemma_mod8_divides(base as int, align as int);
                assert(adjust == 0);
            } else {
                let m = (align as int) / 8;
                assert(align as int == 8 * m) by {
                    lemma_fundamental_div_mod(align as int, 8);
                }
                assert((base as int % (8 * m)) % 8 == (base as int) % 8) by {
                    lemma_mod_mod(base as int, 8, m);
                }
                assert((mis as int) % 8 == 0);
                if mis != 0 {
                    assert(mis >= 8);
                }
                assert(adjust + 8 <= align);
            }
            if mis != 0 {
                // base - mis is a multiple of the alignment, and adding one
                // whole alignment keeps it one.
                lemma_fundamental_div_mod(base as int, align as int);
                lemma_mod_multiples_basic((base as int) / (align as int), align as int);
                lemma_mod_add_multiples_vanish((base as int) - mis, align as int);
            }
        }
        let ptr = base + adjust;
        // Record the shift in the slot right after the caller's bytes.
        proof {
            lemma_pow256_bound();
        }
        le_write(&mut bs.pool_mem, ptr + size, 8, adjust as u64);
        proof {
            assert(bs.pool_mem@.len() == old(bs).pool_mem@.len());
            assert(stored_adjust(*bs, ptr as int, size as int) == adjust as int) by {
                let lb = crate::codec::le_bytes(adjust as int, 8);
                assert(bs.pool_mem@.subrange(ptr + size, ptr + size + 8) =~= lb);
                assert(lb.subrange(0, 8) =~= lb);
                crate::codec::lemma_le_at_shift(
                    crate::codec::le_bytes(adjust as int, 8),
                    bs.pool_mem@,
                    0,
                    8,
                    ptr + size,
                );
                lemma_le_roundtrip(adjust as int, 8);
            }
            assert(deallocate_ok(*bs, ptr as int, size as int)) by {
                let n = bs.pool_live@.len() - 1;
                assert(bs.pool_live@[n].0 == ptr - stored_adjust(*bs, ptr as int, size as int));
            }
        }
        Ok(ptr)
    }

    /// Releases an allocation made by `allocate` with the same size.
    ///
    /// The stored adjustment is read back, unaligned, from right after the
    /// caller's bytes; the exact pool base handed out by the host is
    /// recovered from it and freed.  Pool memory itself is untouched, and
    /// the free always lands on a live allocation — never on an address the
    /// pool did not hand out.
    pub fn deallocate(&self, bs: &mut BootServices, ptr: usize, size: usize)
        requires
            old(bs).wf(),
            deallocate_ok(*old(bs), ptr as int, size as int),
        ensures
            final(bs).wf(),
            final(bs).hdr == old(bs).hdr,
            BootServices::handles_eq(*final(bs), *old(bs)),
            final(bs).memory_map_events@ == old(bs).memory_map_events@,
            final(bs).pool_mem@ == old(bs).pool_mem@,
            final(bs).pool_next == old(bs).pool_next,
            final(bs).pool_allocated@ == old(bs).pool_allocated@,
            exists|i: int|
                {
                    &&& 0 <= i < old(bs).pool_live@.len()
                    &&& (#[trigger] old(bs).pool_live@[i]).0 == ptr - stored_adjust(
                        *old(bs),
                        ptr as int,
                        size as int,
                    )
                    &&& final(bs).pool_live@ == old(bs).pool_live@.remove(i)
                    &&& final(bs).pool_freed@ == old(bs).pool_freed@.push(old(bs).pool_live@[i])
                },
    {
        let m = bs.pool_mem.len();
        let adjust = le_read(&bs.pool_mem, ptr + size, 8);
        proof {
            lemma_pow256_bound();
            crate::codec::lemma_le_at_bound(bs.pool_mem@, ptr + size, 8);
            assert(adjust as int == stored_adjust(*old(bs), ptr as int, size as int));
            assert(adjust <= ptr as u64);
        }
        let adj: usize = adjust as usize;
        proof {
            assert(adj as int == adjust as int);
            assert(adj <= ptr);
        }
        let base = ptr - adj;
        let freed = bs.free_pool(base);
        proof {
            assert(freed is Ok);
        }
    }
}

} // verus!
