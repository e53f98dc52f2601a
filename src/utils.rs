use vstd::prelude::*;
use vstd::wrapping::u64_specs;

use crate::coords::WorldCoords;

verus! {

/// Rounds the quotient `numer / denom` up to the next integer.
pub fn ceil_div(numer: usize, denom: usize) -> (r: usize)
    requires
        denom > 0,
        numer + denom - 1 <= usize::MAX,
    ensures
        r == (numer + denom - 1) / (denom as int),
        r * denom >= numer,
        (r - 1) * denom < numer,
{
    let r = (numer + (denom - 1)) / denom;
    proof {
        let n = numer as int;
        let d = denom as int;
        assert((n + d - 1) / d * d >= n) by (nonlinear_arith) requires d > 0, n >= 0 {
            assert((n + d - 1) == d * ((n + d - 1) / d) + (n + d - 1) % d);
        }
        assert(((n + d - 1) / d - 1) * d < n) by (nonlinear_arith) requires d > 0, n >= 0 {
            assert((n + d - 1) == d * ((n + d - 1) / d) + (n + d - 1) % d);
        }
    }
    r
}

/// The finalizer of the splitmix64 generator.
pub open spec fn mix64(x: u64) -> u64 {
    let a = x ^ (x >> 30u64);
    let b = u64_specs::wrapping_mul(a, 0xBF58_476D_1CE4_E5B9u64);
    let c = b ^ (b >> 27u64);
    let d = u64_specs::wrapping_mul(c, 0x94D0_49BB_1331_11EBu64);
    d ^ (d >> 31u64)
}

/// `v` rotated left by 21 bits.
pub open spec fn rotl21(v: u64) -> u64 {
    (v << 21u64) | (v >> 43u64)
}

/// The generator state a world position starts from.
pub open spec fn prf_seed(w: WorldCoords) -> u64 {
    u64_specs::wrapping_mul(w.0 as u32 as u64, 0x9E37_79B1_85EB_CA87u64) ^ rotl21(w.1 as u32 as u64)
        ^ u64_specs::wrapping_mul(w.2 as u32 as u64, 0xC2B2_AE3D_27D4_EB4Fu64) ^ 0x9E37_79B9_7F4A_7C15u64
}

pub open spec fn two_pow_64() -> nat {
    0x1_0000_0000_0000_0000
}

/// Rejection sampling of a value below `m`: a draw `r` maps to the high word of
/// `r * m`, and is taken when the low word is at least `threshold`; otherwise the
/// state advances by a fixed odd step. After `tries` rejections the last draw is
/// taken as it is.
pub open spec fn prf_draw(state: u64, m: u64, threshold: u64, tries: nat) -> u64
    decreases tries,
{
    let prod = mix64(state) as nat * m as nat;
    if prod % two_pow_64() >= threshold || tries == 0 {
        (prod / two_pow_64()) as u64
    } else {
        prf_draw(u64_specs::wrapping_add(state, 0x9E37_79B9_7F4A_7C15u64), m, threshold, (tries - 1) as nat)
    }
}

/// A pseudo-random value in `0..m` that depends only on the world position `w`
/// and `m`, unbiased by rejection sampling.
pub fn prf_i32x3_mod(w: WorldCoords, m: u64) -> (r: u64)
    requires
        m > 0,
    ensures
        r < m,
        r == prf_draw(prf_seed(w), m, ((two_pow_64() - m) % (m as int)) as u64, u64::MAX as nat),
{
    let (x, y, z) = w;
    let yy = y as u32 as u64;
    let mut seed = (x as u32 as u64).wrapping_mul(0x9E37_79B1_85EB_CA87) ^ ((yy << 21) | (yy >> 43))
        ^ (z as u32 as u64).wrapping_mul(0xC2B2_AE3D_27D4_EB4F) ^ 0x9E37_79B9_7F4A_7C15;
    let threshold: u64 = (u64::MAX - m + 1) % m;
    let mut tries: u64 = u64::MAX;
    loop
        invariant
            m > 0,
            threshold as int == (two_pow_64() - m) % (m as int),
            prf_draw(seed, m, threshold, tries as nat) == prf_draw(
                prf_seed(w),
                m,
                threshold,
                u64::MAX as nat,
            ),
        decreases tries,
    {
        let mut r = seed;
        r ^= r >> 30;
        r = r.wrapping_mul(0xBF58_476D_1CE4_E5B9);
        r ^= r >> 27;
        r = r.wrapping_mul(0x94D0_49BB_1331_11EB);
        r ^= r >> 31;
        assert(r == mix64(seed));
        proof {
            let (a, b) = (r as int, m as int);
            assert(0 <= a * b < 0x1_0000_0000_0000_0000_0000_0000_0000_0000) by (nonlinear_arith)
                requires
                    0 <= a < 0x1_0000_0000_0000_0000,
                    0 < b < 0x1_0000_0000_0000_0000,
            ;
            assert(a * b / 0x1_0000_0000_0000_0000 < b) by (nonlinear_arith)
                requires
                    0 <= a < 0x1_0000_0000_0000_0000,
                    0 < b,
            ;
        }
        let prod = (r as u128) * (m as u128);
        let lo = (prod % 0x1_0000_0000_0000_0000u128) as u64;
        let hi = (prod / 0x1_0000_0000_0000_0000u128) as u64;
        if lo >= threshold || tries == 0 {
            return hi;
        }
        seed = seed.wrapping_add(0x9E37_79B9_7F4A_7C15);
        tries -= 1;
    }
}

} // verus!
