//! Unaligned little-endian integer fields.
//!
//! The host's binary records place multi-byte integers at arbitrary byte
//! offsets, so every such field is decoded and encoded byte by byte, never
//! through an aligned load.

use vstd::arithmetic::div_mod::{
    lemma_div_denominator, lemma_div_pos_is_pos, lemma_fundamental_div_mod,
};
use vstd::prelude::*;

verus! {

/// 256 to the power `n`.
pub open spec fn pow256(n: nat) -> int
    decreases n,
{
    if n == 0 {
        1
    } else {
        0x100 * pow256((n - 1) as nat)
    }
}

/// The value of the `n` bytes at `off` in `b`, read little endian.
pub open spec fn le_at(b: Seq<u8>, off: int, n: nat) -> int
    decreases n,
{
    if n == 0 {
        0
    } else {
        b[off] + 0x100 * le_at(b, off + 1, (n - 1) as nat)
    }
}

/// The `n`-byte little-endian encoding of `x`.
pub open spec fn le_bytes(x: int, n: nat) -> Seq<u8> {
    Seq::new(n, |i: int| ((x / pow256(i as nat)) % 0x100) as u8)
}

/// `pow256` is positive.
pub proof fn lemma_pow256_pos(n: nat)
    ensures
        pow256(n) >= 1,
    decreases n,
{
    if n > 0 {
        lemma_pow256_pos((n - 1) as nat);
    }
}

/// A little-endian field of `n` bytes holds a value below `pow256(n)`.
pub proof fn lemma_le_at_bound(b: Seq<u8>, off: int, n: nat)
    requires
        0 <= off,
        off + n <= b.len(),
    ensures
        0 <= le_at(b, off, n) < pow256(n),
    decreases n,
{
    if n == 0 {
    } else {
        lemma_le_at_bound(b, off + 1, (n - 1) as nat);
    }
}

/// Encoding a value and reading the encoding gives the value back.
pub proof fn lemma_le_roundtrip(x: int, n: nat)
    requires
        0 <= x < pow256(n),
    ensures
        le_at(le_bytes(x, n), 0, n) == x,
    decreases n,
{
    if n == 0 {
    } else {
        let b = le_bytes(x, n);
        let rest = le_bytes(x / 0x100, (n - 1) as nat);
        assert forall|i: int| 0 <= i < n - 1 implies rest[i] == b[i + 1] by {
            lemma_pow256_pos(i as nat);
            lemma_div_denominator(x, 0x100, pow256(i as nat));
        }
        assert(x / 0x100 < pow256((n - 1) as nat)) by {
            lemma_pow256_pos((n - 1) as nat);
            lemma_fundamental_div_mod(x, 0x100);
        }
        assert(x / 0x100 >= 0) by {
            lemma_div_pos_is_pos(x, 0x100);
        }
        lemma_le_roundtrip(x / 0x100, (n - 1) as nat);
        assert(rest.subrange(0, n - 1) =~= b.subrange(1, n as int));
        lemma_le_at_shift(rest, b, 0, (n - 1) as nat, 1);
        lemma_fundamental_div_mod(x, 0x100);
    }
}

/// Reading the same bytes at shifted positions gives the same value.
pub proof fn lemma_le_at_shift(a: Seq<u8>, b: Seq<u8>, off: int, n: nat, d: int)
    requires
        0 <= off,
        off + n <= a.len(),
        0 <= off + d,
        off + d + n <= b.len(),
        a.subrange(off, off + n) == b.subrange(off + d, off + d + n),
    ensures
        le_at(a, off, n) == le_at(b, off + d, n),
    decreases n,
{
    if n > 0 {
        assert(a[off] == a.subrange(off, off + n)[0]);
        assert(b[off + d] == b.subrange(off + d, off + d + n)[0]);
        assert(a.subrange(off + 1, off + n) =~= a.subrange(off, off + n).subrange(1, n as int));
        assert(b.subrange(off + d + 1, off + d + n) =~= b.subrange(off + d, off + d + n).subrange(
            1,
            n as int,
        ));
        lemma_le_at_shift(a, b, off + 1, (n - 1) as nat, d);
    }
}

/// Two byte sequences that agree on a range encode the same field there.
pub proof fn lemma_le_at_agree(a: Seq<u8>, b: Seq<u8>, off: int, n: nat)
    requires
        0 <= off,
        off + n <= a.len(),
        off + n <= b.len(),
        a.subrange(off, off + n) == b.subrange(off, off + n),
    ensures
        le_at(a, off, n) == le_at(b, off, n),
{
    lemma_le_at_shift(a, b, off, n, 0);
}

/// Reads the `n`-byte little-endian field at `off` in `v`.
#[verifier::loop_isolation(false)]
pub fn le_read(v: &Vec<u8>, off: usize, n: usize) -> (r: u64)
    requires
        n <= 8,
        off + n <= v@.len(),
    ensures
        r == le_at(v@, off as int, n as nat),
{
    proof {
        lemma_le_at_bound(v@, off as int, n as nat);
        lemma_pow256_bound();
    }
    let len = v.len();
    let mut acc: u64 = 0;
    let mut j: usize = n;
    while j > 0
        invariant
            j <= n,
            acc == le_at(v@, off + j, (n - j) as nat),
        decreases j,
    {
        j -= 1;
        proof {
            lemma_le_at_bound(v@, off + j, (n - j) as nat);
            lemma_pow256_mono((n - j) as nat, 8);
            lemma_pow256_bound();
        }
        acc = (v[off + j] as u64) + 0x100 * acc;
    }
    acc
}

/// Writes `x` as an `n`-byte little-endian field at `off` in `v`, leaving
/// every other byte unchanged.
#[verifier::loop_isolation(false)]
pub fn le_write(v: &mut Vec<u8>, off: usize, n: usize, x: u64)
    requires
        n <= 8,
        off + n <= old(v)@.len(),
        x < pow256(n as nat),
    ensures
        final(v)@ =~= old(v)@.take(off as int) + le_bytes(x as int, n as nat) + old(v)@.skip(
            off + n,
        ),
{
    let len = v.len();
    let mut cur: u64 = x;
    let mut j: usize = 0;
    while j < n
        invariant
            j <= n,
            v@.len() == old(v)@.len(),
            cur == (x as int) / pow256(j as nat),
            forall|k: int| 0 <= k < v@.len() && !(off <= k < off + j) ==> v@[k] == old(v)@[k],
            forall|k: int| off <= k < off + j ==> v@[k] == le_bytes(x as int, n as nat)[k - off],
        decreases n - j,
    {
        proof {
            lemma_pow256_pos(j as nat);
        }
        v.set(off + j, (cur % 0x100) as u8);
        proof {
            lemma_div_denominator(x as int, pow256(j as nat), 0x100);
            assert(pow256(j as nat) * 0x100 == pow256((j + 1) as nat)) by {
                assert(pow256((j + 1) as nat) == 0x100 * pow256(j as nat));
            }
            lemma_div_pos_is_pos(x as int, pow256(j as nat));
            lemma_fundamental_div_mod(cur as int, 0x100);
        }
        cur = cur / 0x100;
        j += 1;
    }
}

/// Concrete sizes of the powers used for 64-bit fields.
pub proof fn lemma_pow256_bound()
    ensures
        pow256(8) == 0x10000000000000000,
        pow256(4) == 0x100000000,
        pow256(2) == 0x10000,
        pow256(1) == 0x100,
        pow256(0) == 1,
{
    reveal_with_fuel(pow256, 9);
}

/// `pow256` grows with its exponent.
pub proof fn lemma_pow256_mono(a: nat, b: nat)
    requires
        a <= b,
    ensures
        pow256(a) <= pow256(b),
    decreases b,
{
    if a < b {
        lemma_pow256_pos((b - 1) as nat);
        lemma_pow256_mono(a, (b - 1) as nat);
    }
}

} // verus!
