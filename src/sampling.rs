use vstd::prelude::*;

verus! {

/// The smallest `s` with `s * s >= n`.
pub open spec fn is_ceil_sqrt(n: int, s: int) -> bool {
    &&& s >= 0
    &&& s * s >= n
    &&& (s == 0 || (s - 1) * (s - 1) < n)
}

/// Side of the stratified sub-pixel grid for `spp` samples per pixel:
/// the ceiling of the square root of `spp`.
pub fn sub_pixel_count(spp: u32) -> (s: u32)
    ensures
        is_ceil_sqrt(spp as int, s as int),
{
    let mut s: u64 = 0;
    while s * s < spp as u64
        invariant
            s <= 65536,
            s * s <= 0x1_0000_0000,
            s == 0 || (s - 1) * (s - 1) < spp,
        decreases 65536 - s,
    {
        proof {
            assert(s * s < 0x1_0000_0000) by (nonlinear_arith)
                requires s * s < spp, spp <= u32::MAX;
            assert(s < 65536) by (nonlinear_arith)
                requires s * s < 0x1_0000_0000, s <= 65536;
        }
        s = s + 1;
        assert(s * s <= 0x1_0000_0000) by (nonlinear_arith)
            requires s <= 65536;
    }
    s as u32
}

/// Offset from the pixel centre of the centre of stratum `k` in a grid of
/// side `s`, as the fraction `num / den`: `(2k + 1) / (2s) - 1/2`.
pub fn stratum_offset(k: u32, s: u32) -> (r: (i64, i64))
    requires
        k < s,
    ensures
        r.0 == 2 * k + 1 - s,
        r.1 == 2 * s,
        -r.1 < 2 * r.0 < r.1,
{
    (2 * (k as i64) + 1 - (s as i64), 2 * (s as i64))
}

} // verus!
