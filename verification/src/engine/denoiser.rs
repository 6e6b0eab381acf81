//! Denoiser configuration and the sizing of the edge-avoiding wavelet
//! filter chain.
//!
//! The wavelet denoiser runs one pass per power-of-two filter radius not
//! exceeding the configured largest filter, each pass writing one scratch
//! texture; the chain therefore holds `floor(log2(filter_size)) + 1`
//! textures, one per pass.

use vstd::prelude::*;

verus! {

/// Label of the denoiser pass in the render graph.
#[derive(Clone, PartialEq, Eq, Structural, Debug, Hash)]
pub struct DenoiserLabel;

/// Which denoiser the rendering pipeline applies to the ray-traced image.
/// Exactly one precompiled pipeline corresponds to each variant; the choice
/// is data, not dispatch.
#[derive(Clone, Copy, PartialEq, Eq, Structural, Debug)]
pub enum VoxelDenoiser {
    /// No denoiser pass at all; the ray-traced image is shown as it is.
    Off,
    /// The simplest and fastest denoiser, with the lowest quality.
    Simple,
    /// The edge-avoiding wavelet denoiser. The payload is the largest
    /// filter radius and must be at least 1.
    ATrous(u32),
}

impl Default for VoxelDenoiser {
    /// No denoiser is applied unless one is chosen.
    fn default() -> (r: Self)
        ensures
            r == VoxelDenoiser::Off,
    {
        VoxelDenoiser::Off
    }
}

/// The largest `e` with `2^e <= n`, for `n >= 1`.
pub open spec fn floor_log2(n: nat) -> nat
    decreases n,
{
    if n <= 1 {
        0
    } else {
        floor_log2(n / 2) + 1
    }
}

/// `2^e`.
pub open spec fn pow2(e: nat) -> nat
    decreases e,
{
    if e == 0 {
        1nat
    } else {
        2 * pow2((e - 1) as nat)
    }
}

proof fn lemma_pow2_floor_log2(n: nat)
    requires
        n >= 1,
    ensures
        pow2(floor_log2(n)) <= n,
        n < pow2(floor_log2(n) + 1),
    decreases n,
{
    if n > 1 {
        lemma_pow2_floor_log2(n / 2);
    }
}

proof fn lemma_floor_log2_lt(n: nat, k: nat)
    requires
        1 <= n,
        n < pow2(k),
    ensures
        floor_log2(n) < k,
    decreases k,
{
    if n > 1 {
        lemma_floor_log2_lt(n / 2, (k - 1) as nat);
    }
}

proof fn lemma_floor_log2_u32(n: nat)
    requires
        1 <= n <= u32::MAX,
    ensures
        floor_log2(n) <= 31,
{
    reveal_with_fuel(pow2, 33);
    lemma_floor_log2_lt(n, 32);
}

/// How many scratch textures the wavelet filter chain needs for the given
/// largest filter radius: one per power of two not exceeding it.
pub fn scratch_texture_count(filter_size: u32) -> (count: usize)
    requires
        filter_size >= 1,
    ensures
        count == floor_log2(filter_size as nat) + 1,
        count <= 32,
{
    let mut n: u32 = filter_size;
    let mut count: usize = 1;
    proof {
        lemma_floor_log2_u32(filter_size as nat);
    }
    while n > 1
        invariant
            n >= 1,
            count >= 1,
            count - 1 + floor_log2(n as nat) == floor_log2(filter_size as nat),
            floor_log2(filter_size as nat) <= 31,
        decreases n,
    {
        n = n / 2;
        count += 1;
    }
    count
}

/// The filter radii the wavelet passes use, in order: `1, 2, 4, ...` up to
/// the largest power of two not exceeding `filter_size`. Its length equals
/// [`scratch_texture_count`] of the same size, so pass `i` of the chain may
/// index scratch texture `i` of a chain sized that way.
pub fn a_trous_filter_radii(filter_size: u32) -> (radii: Vec<u32>)
    requires
        filter_size >= 1,
    ensures
        radii@.len() == floor_log2(filter_size as nat) + 1,
        forall|i: int| 0 <= i < radii@.len() ==> radii@[i] == pow2(i as nat),
        forall|i: int| 0 <= i < radii@.len() ==> radii@[i] <= filter_size,
{
    let mut radii: Vec<u32> = Vec::new();
    let mut i: u64 = 1;
    proof {
        lemma_pow2_floor_log2(filter_size as nat);
        lemma_floor_log2_u32(filter_size as nat);
    }
    while i <= filter_size as u64
        invariant
            filter_size >= 1,
            pow2(floor_log2(filter_size as nat)) <= filter_size,
            filter_size < pow2(floor_log2(filter_size as nat) + 1),
            floor_log2(filter_size as nat) <= 31,
            i >= 1,
            i == pow2(radii@.len() as nat),
            radii@.len() <= floor_log2(filter_size as nat) + 1,
            forall|j: int| 0 <= j < radii@.len() ==> radii@[j] == pow2(j as nat),
            forall|j: int| 0 <= j < radii@.len() ==> radii@[j] <= filter_size,
        decreases 2 * filter_size as int - i,
    {
        proof {
            if radii@.len() > floor_log2(filter_size as nat) {
                lemma_pow2_monotone(
                    floor_log2(filter_size as nat) + 1,
                    radii@.len() as nat,
                );
                assert(false);
            }
        }
        radii.push(i as u32);
        i = i * 2;
    }
    proof {
        if radii@.len() < floor_log2(filter_size as nat) + 1 {
            lemma_pow2_monotone(radii@.len() as nat, floor_log2(filter_size as nat));
        }
    }
    radii
}

proof fn lemma_pow2_monotone(a: nat, b: nat)
    requires
        a <= b,
    ensures
        pow2(a) <= pow2(b),
    decreases b,
{
    if a < b && b > 0 {
        lemma_pow2_monotone(a, (b - 1) as nat);
    }
}

} // verus!
