//! Chunk plans shared by every pipeline stage.
//!
//! A stage copies a known total of bytes in fixed-size chunks, reporting the
//! cumulative count after each chunk. [`points_from`] is the sequence of
//! cumulative counts a stage reports; [`spec_padded_len`] is the length a
//! final partial chunk is zero-padded to, so that direct I/O sees only
//! block-aligned write lengths.

use vstd::prelude::*;

verus! {

/// Device block size in bytes: direct I/O needs buffer addresses and write
/// lengths aligned to it.
pub const BLOCK_SIZE: usize = 512;

/// Chunk size of the device read, device write and verification loops.
pub const BUFFER_SIZE: usize = 1024 * 1024;

/// Chunk size of the decompression loop.
pub const DECOMPRESS_BUFFER_SIZE: usize = 8192;

/// Cumulative byte count after one more chunk: `done + chunk`, clamped to
/// `total`.
pub open spec fn next_progress(done: u64, total: u64, chunk: u64) -> u64 {
    if done + chunk <= total {
        (done + chunk) as u64
    } else {
        total
    }
}

/// The cumulative byte counts a stage reports after each chunk, starting
/// from `done` already-transferred bytes.
pub open spec fn points_from(done: u64, total: u64, chunk: u64) -> Seq<u64>
    decreases total - done,
{
    if chunk == 0 || done >= total {
        Seq::empty()
    } else {
        let next = next_progress(done, total, chunk);
        seq![next] + points_from(next, total, chunk)
    }
}

/// `len` rounded up to the next multiple of `block`.
pub open spec fn spec_padded_len(len: int, block: int) -> int {
    if len % block == 0 {
        len
    } else {
        len + (block - len % block)
    }
}

/// Length of the next chunk a stage transfers: the fixed chunk size, or what
/// remains of the total if that is smaller.
pub fn next_chunk_len(total: u64, done: u64, chunk: usize) -> (n: usize)
    requires
        done < total,
        chunk >= 1,
    ensures
        1 <= n <= chunk,
        done + n <= total,
        done + n == next_progress(done, total, chunk as u64),
{
    if total - done < chunk as u64 {
        (total - done) as usize
    } else {
        chunk
    }
}

/// `len` rounded up to the next multiple of `block`, as written to a device
/// by a stage whose final chunk is zero-padded.
pub fn padded_chunk_len(len: usize, block: usize) -> (n: usize)
    requires
        block >= 1,
        len + block <= usize::MAX,
    ensures
        n == spec_padded_len(len as int, block as int),
        len <= n < len + block,
        n % block == 0,
{
    let rem = len % block;
    proof {
        lemma_padded_len_bounds(len as int, block as int);
    }
    if rem == 0 {
        len
    } else {
        len + (block - rem)
    }
}

/// Rounding a length up to a block multiple adds fewer than `block` bytes
/// and yields a block multiple; a length already aligned is unchanged.
pub proof fn lemma_padded_len_bounds(len: int, block: int)
    requires
        len >= 0,
        block >= 1,
    ensures
        len <= spec_padded_len(len, block) < len + block,
        spec_padded_len(len, block) % block == 0,
        len % block == 0 ==> spec_padded_len(len, block) == len,
{
    let r = len % block;
    vstd::arithmetic::div_mod::lemma_mod_bound(len, block);
    if r != 0 {
        let q = len / block;
        vstd::arithmetic::div_mod::lemma_fundamental_div_mod(len, block);
        assert(len + (block - r) == block * (q + 1)) by (nonlinear_arith)
            requires
                len == block * q + r,
        ;
        vstd::arithmetic::div_mod::lemma_mod_multiples_basic(q + 1, block);
    }
}

/// Padding past a block-aligned offset pads only what follows it.
pub proof fn lemma_padded_len_add(a: int, r: int, block: int)
    requires
        a >= 0,
        r >= 0,
        block >= 1,
        a % block == 0,
    ensures
        spec_padded_len(a + r, block) == a + spec_padded_len(r, block),
{
    vstd::arithmetic::div_mod::lemma_fundamental_div_mod(a, block);
    let q = a / block;
    assert((a + r) % block == r % block) by {
        vstd::arithmetic::div_mod::lemma_mod_multiples_vanish(q, r, block);
        assert(block * q + r == a + r);
    }
}

/// A multiple of a multiple of `c` is itself a multiple of `c`.
pub proof fn lemma_mod_zero_transitive(a: int, b: int, c: int)
    requires
        a >= 0,
        b >= 1,
        c >= 1,
        a % b == 0,
        b % c == 0,
    ensures
        a % c == 0,
{
    vstd::arithmetic::div_mod::lemma_fundamental_div_mod(a, b);
    vstd::arithmetic::div_mod::lemma_fundamental_div_mod(b, c);
    let qa = a / b;
    let qb = b / c;
    assert(a == (qb * qa) * c) by (nonlinear_arith)
        requires
            a == b * qa,
            b == c * qb,
    ;
    vstd::arithmetic::div_mod::lemma_mod_multiples_basic(qb * qa, c);
}

/// Every cumulative count a stage reports stays within the true total, the
/// counts strictly increase, and the final one equals the total exactly:
/// an observer never sees a padded length.
pub proof fn lemma_points_within_total(done: u64, total: u64, chunk: u64)
    requires
        chunk >= 1,
    ensures
        forall|i: int|
            0 <= i < points_from(done, total, chunk).len() ==> done
                < #[trigger] points_from(done, total, chunk)[i] <= total,
        forall|i: int, j: int|
            0 <= i < j < points_from(done, total, chunk).len()
                ==> points_from(done, total, chunk)[i] < points_from(done, total, chunk)[j],
        done < total ==> points_from(done, total, chunk).len() > 0,
        done < total ==> points_from(done, total, chunk).last() == total,
    decreases total - done,
{
    if done < total {
        let next = next_progress(done, total, chunk);
        lemma_points_within_total(next, total, chunk);
        let pts = points_from(done, total, chunk);
        let rest = points_from(next, total, chunk);
        assert(pts == seq![next] + rest);
        if next < total {
            assert(pts.last() == rest.last());
        }
    }
}

} // verus!
