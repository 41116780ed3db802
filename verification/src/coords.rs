//! Chunk coordinates and the mapping from observer world position to home
//! chunk.
//!
//! World positions are integer fixed-point values. The home chunk of a
//! position is the chunk whose centre lies under it: along each axis it is
//! `floor((p + chunk_world / 2) / chunk_world)`, where `chunk_world` is the
//! world-space side length of one chunk.

use vstd::prelude::*;

verus! {

/// Largest observer coordinate magnitude the grid accepts; keeps every
/// derived chunk coordinate and chunk origin well inside `i64`.
pub const MAX_WORLD_POS: i64 = 0x4000_0000;

/// Largest world-space chunk side length the grid accepts.
pub const MAX_CHUNK_WORLD: i64 = 0x1000_0000;

/// Identifies a chunk's position on the infinite horizontal grid.
/// Immutable once a chunk exists.
#[derive(Clone, Copy, Debug, PartialEq, Eq, Structural)]
pub struct ChunkCoord {
    pub x: i64,
    pub z: i64,
}

/// Floor division for a positive divisor: rounds toward negative infinity,
/// matching the mathematical quotient used throughout the chunk grid.
pub fn floor_div(a: i64, b: i64) -> (q: i64)
    requires
        b > 0,
        a > i64::MIN,
    ensures
        q == (a as int) / (b as int),
{
    let t = a / b;
    let r = a % b;
    proof {
        if a < 0 {
            let m = -(a as int);
            vstd::arithmetic::div_mod::lemma_fundamental_div_mod(m, b as int);
            if m % (b as int) == 0 {
                let q = -(m / (b as int));
                assert(a as int == q * (b as int) + 0) by (nonlinear_arith)
                    requires
                        m == (b as int) * (m / (b as int)) + m % (b as int),
                        m % (b as int) == 0,
                        a as int == -m,
                        q == -(m / (b as int)),
                ;
                vstd::arithmetic::div_mod::lemma_fundamental_div_mod_converse(
                    a as int,
                    b as int,
                    q,
                    0,
                );
            } else {
                let q = -(m / (b as int)) - 1;
                let rr = (b as int) - m % (b as int);
                assert(a as int == q * (b as int) + rr) by (nonlinear_arith)
                    requires
                        m == (b as int) * (m / (b as int)) + m % (b as int),
                        a as int == -m,
                        q == -(m / (b as int)) - 1,
                        rr == (b as int) - m % (b as int),
                ;
                vstd::arithmetic::div_mod::lemma_fundamental_div_mod_converse(
                    a as int,
                    b as int,
                    q,
                    rr,
                );
            }
        }
    }
    if r < 0 {
        t - 1
    } else {
        t
    }
}

/// The home chunk index along one axis: the chunk of side `world` whose
/// centre `c * world` is nearest below-or-at the position's half-open window.
pub open spec fn spec_home_axis(p: int, world: int) -> int
    recommends
        world >= 1,
{
    (p + world / 2) / world
}

/// A quotient's magnitude never exceeds the dividend's for a divisor >= 1.
pub proof fn lemma_div_magnitude_bound(x: int, w: int, bound: int)
    requires
        w >= 1,
        bound >= 0,
        -bound <= x <= bound,
    ensures
        -bound <= x / w <= bound,
{
    vstd::arithmetic::div_mod::lemma_fundamental_div_mod(x, w);
    let q = x / w;
    let r = x % w;
    assert(-bound <= q <= bound) by (nonlinear_arith)
        requires
            x == w * q + r,
            0 <= r < w,
            w >= 1,
            bound >= 0,
            -bound <= x <= bound,
    ;
}

/// The home index is `c` exactly when the shifted position lies in chunk
/// `c`'s half-open world-space window.
pub proof fn lemma_home_axis_window(p: int, world: int, c: int)
    requires
        world >= 1,
    ensures
        spec_home_axis(p, world) == c <==> c * world <= p + world / 2 < (c + 1) * world,
{
    let x = p + world / 2;
    let q = x / world;
    let r = x % world;
    vstd::arithmetic::div_mod::lemma_fundamental_div_mod(x, world);
    assert(q * world <= x < (q + 1) * world) by (nonlinear_arith)
        requires
            x == world * q + r,
            0 <= r < world,
    ;
    if c * world <= x < (c + 1) * world {
        let rr = x - c * world;
        assert(0 <= rr < world) by (nonlinear_arith)
            requires
                rr == x - c * world,
                c * world <= x < (c + 1) * world,
        ;
        vstd::arithmetic::div_mod::lemma_fundamental_div_mod_converse(x, world, c, rr);
    } else {
        if q == c {
            assert(false);
        }
    }
}

/// Moving the observer along an axis never moves the home index backwards:
/// the home index is a monotonic step function of position.
pub proof fn lemma_home_axis_monotonic(p: int, q: int, world: int)
    requires
        world >= 1,
        p <= q,
    ensures
        spec_home_axis(p, world) <= spec_home_axis(q, world),
{
    vstd::arithmetic::div_mod::lemma_div_is_ordered(p + world / 2, q + world / 2, world);
}

/// A move of at most one chunk width along an axis changes the home index by
/// zero or one: crossing a boundary steps exactly one axis index by one.
pub proof fn lemma_home_axis_step(p: int, q: int, world: int)
    requires
        world >= 1,
        p <= q,
        q - p <= world,
    ensures
        spec_home_axis(p, world) <= spec_home_axis(q, world) <= spec_home_axis(p, world) + 1,
{
    let c = spec_home_axis(p, world);
    lemma_home_axis_monotonic(p, q, world);
    lemma_home_axis_window(p, world, c);
    let cq = spec_home_axis(q, world);
    lemma_home_axis_window(q, world, cq);
    assert(cq <= c + 1) by (nonlinear_arith)
        requires
            cq * world <= q + world / 2 < (cq + 1) * world,
            c * world <= p + world / 2 < (c + 1) * world,
            q - p <= world,
            world >= 1,
    ;
}

/// A position within half a chunk width of chunk `c`'s centre has home `c`:
/// small moves around the centre never change the home coordinate.
pub proof fn lemma_home_axis_stable(q: int, world: int, c: int)
    requires
        world >= 1,
        -(world / 2) <= q - c * world,
        q - c * world < world - world / 2,
    ensures
        spec_home_axis(q, world) == c,
{
    lemma_home_axis_window(q, world, c);
    assert(c * world <= q + world / 2 < (c + 1) * world) by (nonlinear_arith)
        requires
            -(world / 2) <= q - c * world < world - world / 2,
            world >= 1,
    ;
}

/// The home chunk index along one axis, as executable code.
pub fn home_chunk_axis(p: i64, world: i64) -> (c: i64)
    requires
        1 <= world <= MAX_CHUNK_WORLD,
        -MAX_WORLD_POS <= p <= MAX_WORLD_POS,
    ensures
        c == spec_home_axis(p as int, world as int),
        -0x8000_0000 <= c <= 0x8000_0000,
    {
    let shifted = p + world / 2;
    proof {
        lemma_div_magnitude_bound(shifted as int, world as int, 0x8000_0000);
    }
    floor_div(shifted, world)
}

/// The home chunk of an observer position.
pub fn home_chunk(px: i64, pz: i64, world: i64) -> (c: ChunkCoord)
    requires
        1 <= world <= MAX_CHUNK_WORLD,
        -MAX_WORLD_POS <= px <= MAX_WORLD_POS,
        -MAX_WORLD_POS <= pz <= MAX_WORLD_POS,
    ensures
        c.x == spec_home_axis(px as int, world as int),
        c.z == spec_home_axis(pz as int, world as int),
        -0x8000_0000 <= c.x <= 0x8000_0000,
        -0x8000_0000 <= c.z <= 0x8000_0000,
{
    ChunkCoord { x: home_chunk_axis(px, world), z: home_chunk_axis(pz, world) }
}

/// The fixed 3x3 neighbourhood of a home chunk, in spawn order.
pub open spec fn spec_neighborhood(c: ChunkCoord) -> Seq<ChunkCoord> {
    seq![
        ChunkCoord { x: c.x, z: c.z },
        ChunkCoord { x: (c.x + 1) as i64, z: c.z },
        ChunkCoord { x: (c.x - 1) as i64, z: c.z },
        ChunkCoord { x: c.x, z: (c.z + 1) as i64 },
        ChunkCoord { x: c.x, z: (c.z - 1) as i64 },
        ChunkCoord { x: (c.x + 1) as i64, z: (c.z + 1) as i64 },
        ChunkCoord { x: (c.x - 1) as i64, z: (c.z - 1) as i64 },
        ChunkCoord { x: (c.x + 1) as i64, z: (c.z - 1) as i64 },
        ChunkCoord { x: (c.x - 1) as i64, z: (c.z + 1) as i64 },
    ]
}

/// The 3x3 neighbourhood holds exactly the coordinates within one step of
/// the home chunk on both axes.
pub proof fn lemma_neighborhood_members(c: ChunkCoord, d: ChunkCoord)
    requires
        -0x8000_0000 <= c.x <= 0x8000_0000,
        -0x8000_0000 <= c.z <= 0x8000_0000,
    ensures
        spec_neighborhood(c).contains(d) <==> (-1 <= d.x - c.x <= 1 && -1 <= d.z - c.z <= 1),
{
    let s = spec_neighborhood(c);
    if -1 <= d.x - c.x <= 1 && -1 <= d.z - c.z <= 1 {
        if d.x == c.x && d.z == c.z {
            assert(s[0] == d);
        } else if d.x == c.x + 1 && d.z == c.z {
            assert(s[1] == d);
        } else if d.x == c.x - 1 && d.z == c.z {
            assert(s[2] == d);
        } else if d.x == c.x && d.z == c.z + 1 {
            assert(s[3] == d);
        } else if d.x == c.x && d.z == c.z - 1 {
            assert(s[4] == d);
        } else if d.x == c.x + 1 && d.z == c.z + 1 {
            assert(s[5] == d);
        } else if d.x == c.x - 1 && d.z == c.z - 1 {
            assert(s[6] == d);
        } else if d.x == c.x + 1 && d.z == c.z - 1 {
            assert(s[7] == d);
        } else {
            assert(s[8] == d);
        }
    }
}

/// The coordinates of the fixed 3x3 neighbourhood around a home chunk, in
/// the order they are spawned.
pub fn neighborhood(c: ChunkCoord) -> (v: Vec<ChunkCoord>)
    requires
        -0x8000_0000 <= c.x <= 0x8000_0000,
        -0x8000_0000 <= c.z <= 0x8000_0000,
    ensures
        v@ == spec_neighborhood(c),
{
    let mut v: Vec<ChunkCoord> = Vec::new();
    v.push(ChunkCoord { x: c.x, z: c.z });
    v.push(ChunkCoord { x: c.x + 1, z: c.z });
    v.push(ChunkCoord { x: c.x - 1, z: c.z });
    v.push(ChunkCoord { x: c.x, z: c.z + 1 });
    v.push(ChunkCoord { x: c.x, z: c.z - 1 });
    v.push(ChunkCoord { x: c.x + 1, z: c.z + 1 });
    v.push(ChunkCoord { x: c.x - 1, z: c.z - 1 });
    v.push(ChunkCoord { x: c.x + 1, z: c.z - 1 });
    v.push(ChunkCoord { x: c.x - 1, z: c.z + 1 });
    proof {
        assert(v@ =~= spec_neighborhood(c));
    }
    v
}

} // verus!
