//! Page arithmetic and the memory-map convenience entry point.

use vstd::prelude::*;

use crate::boot::{descriptor_at, BootServices, MemoryDescriptor, DESCRIPTOR_SIZE};
use crate::codec::lemma_le_at_shift;
use crate::query::{has_terminal, lemma_term_idx, term_idx, QueryEvent};
use crate::status::Status;

verus! {

/// Page size of the host, in bytes.
pub const PAGE_SIZE: usize = 4096;

/// How many whole pages hold `bytes` bytes.
pub fn page_count(bytes: usize) -> (r: usize)
    ensures
        bytes as int % (PAGE_SIZE as int) == 0 ==> r == bytes as int / (PAGE_SIZE as int),
        bytes as int % (PAGE_SIZE as int) != 0 ==> r == bytes as int / (PAGE_SIZE as int) + 1,
    {
    (bytes / PAGE_SIZE) + if bytes % PAGE_SIZE == 0 {
        0
    } else {
        1
    }
}

/// Fetches the memory map and decodes it: runs the probe/allocate/retry
/// query, parses each record out of the returned buffer, then frees the
/// buffer, so the pool's live set ends exactly where it began.  Returns the
/// decoded records and the host's map key.
pub fn get_memory_map(bs: &mut BootServices) -> (r: Result<
    (Vec<MemoryDescriptor>, usize),
    Status,
>)
    requires
        old(bs).wf(),
        has_terminal(old(bs).memory_map_events@),
        BootServices::mm_script_ok(old(bs).memory_map_events@),
        old(bs).pool_next + crate::boot::query_demand(
            old(bs).memory_map_events@,
            DESCRIPTOR_SIZE as int,
        ) <= old(bs).pool_mem@.len(),
    ensures
        final(bs).wf(),
        final(bs).hdr == old(bs).hdr,
        BootServices::handles_eq(*final(bs), *old(bs)),
        ({
            let s = old(bs).memory_map_events@;
            let t = term_idx(s);
            &&& final(bs).memory_map_events@ == s.skip(t + 1)
            &&& (s[t] matches QueryEvent::Success { data, key } ==> ({
                &&& final(bs).pool_live@ == old(bs).pool_live@
                &&& r matches Ok(p) && p.1 == key && p.0@.len() == data@.len() as int / (
                DESCRIPTOR_SIZE as int) && (forall|i: int|
                    0 <= i < p.0@.len() ==> p.0@[i] == descriptor_at(
                        data@,
                        (DESCRIPTOR_SIZE as int) * i,
                    ))
            }))
            &&& (s[t] matches QueryEvent::Failed { status } ==> ({
                &&& r == Err::<(Vec<MemoryDescriptor>, usize), Status>(status)
                &&& final(bs).pool_live@ == old(bs).pool_live@
                &&& final(bs).pool_mem@ == old(bs).pool_mem@
            }))
        }),
{
    let ghost s = old(bs).memory_map_events@;
    let ghost t = term_idx(s);
    proof {
        lemma_term_idx(s);
    }
    match bs.get_memory_map() {
        Ok((buf, key)) => {
            let ghost data = s[t].success_data();
            let ghost fin = bs.pool_allocated@.last();
            proof {
                assert(t < s.len() && !s[t].is_retry());
                if s[t] is Failed {
                    assert(false);
                }
                assert(s[t] is Success);
                assert(buf.addr == fin.0 && buf.len == data.len());
                assert(fin.0 + data.len() <= bs.pool_mem@.len());
                assert(bs.pool_mem@ =~= old(bs).pool_mem@.take(fin.0 as int) + data + old(
                    bs,
                ).pool_mem@.skip(fin.0 + data.len()));
                assert forall|j: int| 0 <= j < data.len() implies bs.pool_mem@[fin.0 + j]
                    == data[j] by {
                    assert(bs.pool_mem@[fin.0 + j] == (old(bs).pool_mem@.take(fin.0 as int) + data
                        + old(bs).pool_mem@.skip(fin.0 + data.len()))[fin.0 + j]);
                }
                assert(bs.pool_mem@.subrange(fin.0 as int, fin.0 + data.len()) =~= data);
            }
            let v = bs.memory_descriptors(&buf);
            proof {
                assert((data.len() as int) % (DESCRIPTOR_SIZE as int) == 0);
                assert(data.len() as int == (DESCRIPTOR_SIZE as int) * (data.len() as int / (
                DESCRIPTOR_SIZE as int))) by {
                    vstd::arithmetic::div_mod::lemma_fundamental_div_mod(
                        data.len() as int,
                        DESCRIPTOR_SIZE as int,
                    );
                }
                assert forall|i: int| 0 <= i < v@.len() implies v@[i] == descriptor_at(
                    data,
                    (DESCRIPTOR_SIZE as int) * i,
                ) by {
                    let off = (DESCRIPTOR_SIZE as int) * i;
                    assert(0 <= off && off + DESCRIPTOR_SIZE <= data.len()) by (nonlinear_arith)
                        requires
                            0 <= i < v@.len(),
                            off == (DESCRIPTOR_SIZE as int) * i,
                            data.len() as int == (DESCRIPTOR_SIZE as int) * (v@.len() as int),
                            DESCRIPTOR_SIZE == 48,
                    ;
                    let m = bs.pool_mem@;
                    let b = fin.0 as int;
                    assert(data.subrange(off, off + 4) =~= m.subrange(b + off, b + off + 4));
                    lemma_le_at_shift(data, m, off, 4, b);
                    assert(data.subrange(off + 8, off + 16) =~= m.subrange(
                        b + off + 8,
                        b + off + 16,
                    ));
                    lemma_le_at_shift(data, m, off + 8, 8, b);
                    assert(data.subrange(off + 16, off + 24) =~= m.subrange(
                        b + off + 16,
                        b + off + 24,
                    ));
                    lemma_le_at_shift(data, m, off + 16, 8, b);
                    assert(data.subrange(off + 24, off + 32) =~= m.subrange(
                        b + off + 24,
                        b + off + 32,
                    ));
                    lemma_le_at_shift(data, m, off + 24, 8, b);
                    assert(data.subrange(off + 32, off + 40) =~= m.subrange(
                        b + off + 32,
                        b + off + 40,
                    ));
                    lemma_le_at_shift(data, m, off + 32, 8, b);
                }
            }
            let freed = bs.free_pool(buf.addr);
            proof {
                assert(freed is Ok);
                assert(bs.pool_live@ =~= old(bs).pool_live@);
            }
            Ok((v, key))
        },
        Err(e) => Err(e),
    }
}

} // verus!
