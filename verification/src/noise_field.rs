//! Deterministic height-field sampler over continuous world coordinates.
//!
//! The field is integer value noise: a seeded hash gives every lattice corner
//! a pseudo-random level, and samples between corners are blended bilinearly,
//! then quantized to whole voxel layers. Everything is a pure function of the
//! seed and the world coordinates — no mutable state, no floating point — so
//! the same input always yields the same output, across chunks and across
//! runs. That purity is what guarantees seam consistency between chunks that
//! are generated independently.

use vstd::prelude::*;
use crate::coords::floor_div;

verus! {

/// World units per noise lattice cell: the feature size of the field.
pub const NOISE_CELL: i64 = 0x10000;

/// Heights are quantized to layers in `[0, HEIGHT_AMPLITUDE]`.
pub const HEIGHT_AMPLITUDE: i64 = 20;

/// Largest world-coordinate magnitude the sampler accepts; keeps every
/// intermediate of the hash inside `i64`.
pub const MAX_SAMPLE_COORD: i64 = 0x1000_0000_0000_0000;

/// Euclidean remainder for a positive divisor: always in `[0, b)`,
/// matching `%` of the specification language.
pub fn floor_mod(a: i64, b: i64) -> (r: i64)
    requires
        b > 0,
        a > i64::MIN,
    ensures
        r == (a as int) % (b as int),
        0 <= r < b,
{
    let t = a % b;
    proof {
        if a < 0 {
            let m = -(a as int);
            vstd::arithmetic::div_mod::lemma_fundamental_div_mod(m, b as int);
            if m % (b as int) == 0 {
                let q = -(m / (b as int));
                assert(a as int == q * (b as int) + 0) by (nonlinear_arith)
                    requires
                        m == (b as int) * (m / (b as int)) + m % (b as int),
                        m % (b as int) == 0,
                        a as int == -m,
                        q == -(m / (b as int)),
                ;
                vstd::arithmetic::div_mod::lemma_fundamental_div_mod_converse(
                    a as int,
                    b as int,
                    q,
                    0,
                );
            } else {
                let q = -(m / (b as int)) - 1;
                let rr = (b as int) - m % (b as int);
                assert(a as int == q * (b as int) + rr) by (nonlinear_arith)
                    requires
                        m == (b as int) * (m / (b as int)) + m % (b as int),
                        a as int == -m,
                        q == -(m / (b as int)) - 1,
                        rr == (b as int) - m % (b as int),
                ;
                vstd::arithmetic::div_mod::lemma_fundamental_div_mod_converse(
                    a as int,
                    b as int,
                    q,
                    rr,
                );
            }
        }
    }
    if t < 0 {
        t + b
    } else {
        t
    }
}

/// The seeded pseudo-random level of one noise lattice corner, in
/// `[0, 0x10000)`.
pub open spec fn spec_corner(seed: int, ix: int, iz: int) -> int {
    let a = (seed + ix * 0x9E37 + iz * 0x85EB) % 0x4000_0000;
    let b = (a * 0x2545_F491 + 0x1B87_3593) % 0x4000_0000;
    let c = (b / 0x8000 + b * 0x85EB) % 0x4000_0000;
    c % 0x10000
}

/// The quantized field value at a world coordinate: the bilinear blend of
/// the four surrounding lattice corners, scaled to `[0, HEIGHT_AMPLITUDE]`.
/// Opaque: callers depend only on it being a fixed function of its
/// arguments; the sampler's own contract carries the range.
#[verifier::opaque]
pub open spec fn spec_sample(seed: int, wx: int, wz: int) -> int {
    let cx = wx / 0x10000;
    let fx = wx % 0x10000;
    let cz = wz / 0x10000;
    let fz = wz % 0x10000;
    let v00 = spec_corner(seed, cx, cz);
    let v10 = spec_corner(seed, cx + 1, cz);
    let v01 = spec_corner(seed, cx, cz + 1);
    let v11 = spec_corner(seed, cx + 1, cz + 1);
    let num = v00 * ((0x10000 - fx) * (0x10000 - fz)) + v10 * (fx * (0x10000 - fz)) + v01 * ((
    0x10000 - fx) * fz) + v11 * (fx * fz);
    let value = num / 0x1_0000_0000;
    (value * (HEIGHT_AMPLITUDE + 1)) / 0x10000
}

/// Deterministic scalar height-field sampler: a fixed seed table and nothing
/// else, so it is safe to consult from anywhere at any time.
#[derive(Clone, Copy, Debug, PartialEq, Eq, Structural)]
pub struct NoiseField {
    pub seed: u32,
}

impl NoiseField {
    /// A field with the given seed.
    pub fn new(seed: u32) -> (f: NoiseField)
        ensures
            f.seed == seed,
    {
        NoiseField { seed }
    }

    /// The seeded level of one lattice corner, as executable code.
    fn corner(&self, ix: i64, iz: i64) -> (v: i64)
        requires
            -0x2000_0000_0000 <= ix <= 0x2000_0000_0000,
            -0x2000_0000_0000 <= iz <= 0x2000_0000_0000,
        ensures
            v == spec_corner(self.seed as int, ix as int, iz as int),
            0 <= v <= 0xFFFF,
    {
        let a = floor_mod((self.seed as i64) + ix * 0x9E37 + iz * 0x85EB, 0x4000_0000);
        let b = floor_mod(a * 0x2545_F491 + 0x1B87_3593, 0x4000_0000);
        let c = floor_mod(b / 0x8000 + b * 0x85EB, 0x4000_0000);
        c % 0x10000
    }

    /// Samples the field at a world coordinate. Pure and deterministic for a
    /// fixed seed; never fails.
    pub fn sample(&self, wx: i64, wz: i64) -> (h: i32)
        requires
            -MAX_SAMPLE_COORD <= wx <= MAX_SAMPLE_COORD,
            -MAX_SAMPLE_COORD <= wz <= MAX_SAMPLE_COORD,
        ensures
            h == spec_sample(self.seed as int, wx as int, wz as int),
            0 <= h <= HEIGHT_AMPLITUDE,
    {
        proof {
            reveal(spec_sample);
        }
        let cx = floor_div(wx, NOISE_CELL);
        let fx = floor_mod(wx, NOISE_CELL);
        let cz = floor_div(wz, NOISE_CELL);
        let fz = floor_mod(wz, NOISE_CELL);
        proof {
            lemma_div_magnitude_bound_cell(wx as int);
            lemma_div_magnitude_bound_cell(wz as int);
        }
        let v00 = self.corner(cx, cz);
        let v10 = self.corner(cx + 1, cz);
        let v01 = self.corner(cx, cz + 1);
        let v11 = self.corner(cx + 1, cz + 1);
        let gx = NOISE_CELL - fx;
        let gz = NOISE_CELL - fz;
        proof {
            lemma_blend_term_bound(v00 as int, gx as int, gz as int);
            lemma_blend_term_bound(v10 as int, fx as int, gz as int);
            lemma_blend_term_bound(v01 as int, gx as int, fz as int);
            lemma_blend_term_bound(v11 as int, fx as int, fz as int);
        }
        let num = v00 * (gx * gz) + v10 * (fx * gz) + v01 * (gx * fz) + v11 * (fx * fz);
        let value = num / 0x1_0000_0000;
        proof {
            lemma_blend_bound(v00 as int, v10 as int, v01 as int, v11 as int, fx as int, fz as int);
            vstd::arithmetic::div_mod::lemma_fundamental_div_mod(num as int, 0x1_0000_0000);
            assert(0 <= value < 0x10000) by (nonlinear_arith)
                requires
                    num == 0x1_0000_0000 * (num as int / 0x1_0000_0000) + num as int
                        % 0x1_0000_0000,
                    value == num as int / 0x1_0000_0000,
                    0 <= num as int % 0x1_0000_0000 < 0x1_0000_0000,
                    0 <= num < 0x10000 * 0x1_0000_0000,
            ;
            vstd::arithmetic::div_mod::lemma_fundamental_div_mod(
                value as int * (HEIGHT_AMPLITUDE + 1),
                0x10000,
            );
            assert(0 <= (value as int * (HEIGHT_AMPLITUDE + 1)) / 0x10000 <= HEIGHT_AMPLITUDE)
                by (nonlinear_arith)
                requires
                    value as int * (HEIGHT_AMPLITUDE + 1) == 0x10000 * ((value as int
                        * (HEIGHT_AMPLITUDE + 1)) / 0x10000) + (value as int * (HEIGHT_AMPLITUDE
                        + 1)) % 0x10000,
                    0 <= (value as int * (HEIGHT_AMPLITUDE + 1)) % 0x10000 < 0x10000,
                    0 <= value < 0x10000,
                    HEIGHT_AMPLITUDE == 20,
            ;
        }
        ((value * (HEIGHT_AMPLITUDE + 1)) / 0x10000) as i32
    }
}

/// Cell indices of bounded world coordinates are bounded.
proof fn lemma_div_magnitude_bound_cell(w: int)
    requires
        -MAX_SAMPLE_COORD <= w <= MAX_SAMPLE_COORD,
    ensures
        -0x1000_0000_0000 - 1 <= w / 0x10000 <= 0x1000_0000_0000,
{
    vstd::arithmetic::div_mod::lemma_fundamental_div_mod(w, 0x10000);
    let q = w / 0x10000;
    let r = w % 0x10000;
    assert(-0x1000_0000_0000 - 1 <= q <= 0x1000_0000_0000) by (nonlinear_arith)
        requires
            w == 0x10000 * q + r,
            0 <= r < 0x10000,
            -0x1000_0000_0000_0000 <= w <= 0x1000_0000_0000_0000,
    ;
}

/// One bilinear blend term stays below `2^48`, and the whole blend below
/// `2^16 * 2^32`.
proof fn lemma_blend_term_bound(v: int, a: int, b: int)
    requires
        0 <= v <= 0xFFFF,
        0 <= a <= 0x10000,
        0 <= b <= 0x10000,
    ensures
        0 <= a * b <= 0x1_0000_0000,
        0 <= v * (a * b) <= 0xFFFF * 0x1_0000_0000,
{
    assert(0 <= a * b <= 0x1_0000_0000 && 0 <= v * (a * b) <= 0xFFFF * 0x1_0000_0000)
        by (nonlinear_arith)
        requires
            0 <= v <= 0xFFFF,
            0 <= a <= 0x10000,
            0 <= b <= 0x10000,
    ;
}

/// The four blend weights sum to exactly one cell area, so the whole blend
/// is bounded by the largest corner level times the cell area.
proof fn lemma_blend_bound(v00: int, v10: int, v01: int, v11: int, fx: int, fz: int)
    requires
        0 <= v00 <= 0xFFFF,
        0 <= v10 <= 0xFFFF,
        0 <= v01 <= 0xFFFF,
        0 <= v11 <= 0xFFFF,
        0 <= fx < 0x10000,
        0 <= fz < 0x10000,
    ensures
        0 <= v00 * ((0x10000 - fx) * (0x10000 - fz)) + v10 * (fx * (0x10000 - fz)) + v01 * ((
        0x10000 - fx) * fz) + v11 * (fx * fz) < 0x10000 * 0x1_0000_0000,
{
    let gx = 0x10000 - fx;
    let gz = 0x10000 - fz;
    assert(gx * gz + fx * gz + gx * fz + fx * fz == 0x1_0000_0000) by (nonlinear_arith)
        requires
            gx == 0x10000 - fx,
            gz == 0x10000 - fz,
    ;
    assert(v00 * (gx * gz) + v10 * (fx * gz) + v01 * (gx * fz) + v11 * (fx * fz) <= 0xFFFF * (gx
        * gz) + 0xFFFF * (fx * gz) + 0xFFFF * (gx * fz) + 0xFFFF * (fx * fz)) by (nonlinear_arith)
        requires
            0 <= v00 <= 0xFFFF,
            0 <= v10 <= 0xFFFF,
            0 <= v01 <= 0xFFFF,
            0 <= v11 <= 0xFFFF,
            0 <= fx,
            0 <= fz,
            0 <= gx,
            0 <= gz,
    ;
    assert(0xFFFF * (gx * gz) + 0xFFFF * (fx * gz) + 0xFFFF * (gx * fz) + 0xFFFF * (fx * fz)
        == 0xFFFF * 0x1_0000_0000) by (nonlinear_arith)
        requires
            gx * gz + fx * gz + gx * fz + fx * fz == 0x1_0000_0000,
    ;
    assert(0 <= v00 * (gx * gz) + v10 * (fx * gz) + v01 * (gx * fz) + v11 * (fx * fz))
        by (nonlinear_arith)
        requires
            0 <= v00,
            0 <= v10,
            0 <= v01,
            0 <= v11,
            0 <= fx,
            0 <= fz,
            0 <= gx,
            0 <= gz,
    ;
}

} // verus!
