//! MurmurHash3, the 128-bit variant for 64-bit platforms.

use vstd::prelude::*;
use vstd::wrapping::u64_specs::{wrapping_add, wrapping_mul};

verus! {

/// First block multiplier.
pub const C1: u64 = 0x87c3_7b91_1142_53d5;

/// Second block multiplier.
pub const C2: u64 = 0x4cf5_ad43_2745_937f;

/// `x` rotated left by `r` bits, `0 < r < 64`.
pub open spec fn rotl(x: u64, r: u64) -> u64 {
    (x << r) | (x >> ((64 - r) as u64))
}

/// The little-endian word of the `n` bytes of `s` from `lo`.
pub open spec fn le_word(s: Seq<u8>, lo: int, n: int) -> u64
    decreases n,
{
    if n <= 0 {
        0
    } else {
        le_word(s, lo, n - 1) | ((s[lo + n - 1] as u64) << ((8 * (n - 1)) as u64))
    }
}

/// The scrambled first word of a block.
pub open spec fn mix_k1(k: u64) -> u64 {
    wrapping_mul(rotl(wrapping_mul(k, C1), 31), C2)
}

/// The scrambled second word of a block.
pub open spec fn mix_k2(k: u64) -> u64 {
    wrapping_mul(rotl(wrapping_mul(k, C2), 33), C1)
}

/// The state after one 16-byte block with words `k1` and `k2`.
pub open spec fn block(h: (u64, u64), k1: u64, k2: u64) -> (u64, u64) {
    let a = wrapping_add(rotl(h.0 ^ mix_k1(k1), 27), h.1);
    let h1 = wrapping_add(wrapping_mul(a, 5), 0x52dc_e729);
    let b = wrapping_add(rotl(h.1 ^ mix_k2(k2), 31), h1);
    let h2 = wrapping_add(wrapping_mul(b, 5), 0x3849_5ab5);
    (h1, h2)
}

/// The state after the first `n` blocks of `s`.
pub open spec fn blocks(s: Seq<u8>, seed: u32, n: int) -> (u64, u64)
    decreases n,
{
    if n <= 0 {
        (seed as u64, seed as u64)
    } else {
        block(blocks(s, seed, n - 1), le_word(s, 16 * (n - 1), 8), le_word(s, 16 * (n - 1) + 8, 8))
    }
}

/// The state after the bytes that do not fill a block.
pub open spec fn tail(s: Seq<u8>, h: (u64, u64)) -> (u64, u64) {
    let t: int = 16 * (s.len() / 16) as int;
    let rem: int = s.len() - t;
    let h2 = if rem > 8 {
        h.1 ^ mix_k2(le_word(s, t + 8, rem - 8))
    } else {
        h.1
    };
    let h1 = if rem > 0 {
        h.0 ^ mix_k1(le_word(s, t, if rem > 8 { 8 } else { rem }))
    } else {
        h.0
    };
    (h1, h2)
}

/// The final avalanche of one word.
pub open spec fn fmix(k: u64) -> u64 {
    let a = wrapping_mul(k ^ (k >> 33), 0xff51_afd7_ed55_8ccd);
    let b = wrapping_mul(a ^ (a >> 33), 0xc4ce_b9fe_1a85_ec53);
    b ^ (b >> 33)
}

/// The finishing steps, mixing in the length `len`.
pub open spec fn finish(h: (u64, u64), len: u64) -> (u64, u64) {
    let h1 = h.0 ^ len;
    let h2 = h.1 ^ len;
    let h1 = wrapping_add(h1, h2);
    let h2 = wrapping_add(h2, h1);
    let h1 = fmix(h1);
    let h2 = fmix(h2);
    let h1 = wrapping_add(h1, h2);
    let h2 = wrapping_add(h2, h1);
    (h1, h2)
}

/// MurmurHash3 x64 128 of `s` with `seed`, as its two 64-bit halves.
pub open spec fn murmur3_spec(s: Seq<u8>, seed: u32) -> (u64, u64) {
    finish(tail(s, blocks(s, seed, (s.len() / 16) as int)), s.len() as u64)
}

fn rotate(x: u64, r: u64) -> (y: u64)
    requires
        0 < r < 64,
    ensures
        y == rotl(x, r),
{
    (x << r) | (x >> (64 - r))
}

/// The little-endian word of the `n` bytes of `s` from `lo`.
fn read_word(s: &[u8], lo: usize, n: usize) -> (w: u64)
    requires
        n <= 8,
        lo + n <= s@.len(),
    ensures
        w == le_word(s@, lo as int, n as int),
{
    let len = s.len();
    let mut w: u64 = 0;
    let mut k: usize = 0;
    while k < n
        invariant
            len == s@.len(),
            k <= n <= 8,
            lo + n <= s@.len(),
            w == le_word(s@, lo as int, k as int),
        decreases n - k,
    {
        w = w | ((s[lo + k] as u64) << (8 * k as u64));
        k = k + 1;
    }
    w
}

fn avalanche(k: u64) -> (r: u64)
    ensures
        r == fmix(k),
{
    let a = (k ^ (k >> 33)).wrapping_mul(0xff51_afd7_ed55_8ccd);
    let b = (a ^ (a >> 33)).wrapping_mul(0xc4ce_b9fe_1a85_ec53);
    b ^ (b >> 33)
}

/// MurmurHash3 x64 128 of `data` with `seed`.
pub fn murmurhash3_x64_128(data: &[u8], seed: u32) -> (r: (u64, u64))
    ensures
        r == murmur3_spec(data@, seed),
{
    let len = data.len();
    let nblocks = len / 16;
    let mut h1: u64 = seed as u64;
    let mut h2: u64 = seed as u64;
    let mut i: usize = 0;
    while i < nblocks
        invariant
            len == data@.len(),
            nblocks == len / 16,
            i <= nblocks,
            (h1, h2) == blocks(data@, seed, i as int),
        decreases nblocks - i,
    {
        assert(16 * i + 16 <= len) by (nonlinear_arith)
            requires
                i < nblocks,
                nblocks == len / 16,
        ;
        let k1 = read_word(data, 16 * i, 8);
        let k2 = read_word(data, 16 * i + 8, 8);
        let a = rotate(h1 ^ rotate(k1.wrapping_mul(C1), 31).wrapping_mul(C2), 27).wrapping_add(h2);
        h1 = a.wrapping_mul(5).wrapping_add(0x52dc_e729);
        let b = rotate(h2 ^ rotate(k2.wrapping_mul(C2), 33).wrapping_mul(C1), 31).wrapping_add(h1);
        h2 = b.wrapping_mul(5).wrapping_add(0x3849_5ab5);
        i = i + 1;
    }
    let t = 16 * nblocks;
    assert(t <= len && len - t < 16) by (nonlinear_arith)
        requires
            nblocks == len / 16,
            t == 16 * nblocks,
    ;
    let rem = len - t;
    if rem > 8 {
        h2 = h2 ^ rotate(read_word(data, t + 8, rem - 8).wrapping_mul(C2), 33).wrapping_mul(C1);
    }
    if rem > 0 {
        let n = if rem > 8 {
            8
        } else {
            rem
        };
        h1 = h1 ^ rotate(read_word(data, t, n).wrapping_mul(C1), 31).wrapping_mul(C2);
    }
    h1 = h1 ^ len as u64;
    h2 = h2 ^ len as u64;
    h1 = h1.wrapping_add(h2);
    h2 = h2.wrapping_add(h1);
    h1 = avalanche(h1);
    h2 = avalanche(h2);
    h1 = h1.wrapping_add(h2);
    h2 = h2.wrapping_add(h1);
    (h1, h2)
}

} // verus!
