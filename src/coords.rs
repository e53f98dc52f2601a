use vstd::prelude::*;

use crate::chunk::{ChunkCoords, CHUNK_HEIGHT, CHUNK_WIDTH};

verus! {

/// A block position in the world.
pub type WorldCoords = (i32, i32, i32);

/// A cell position inside a chunk.
pub type BlockCoords = (usize, usize, usize);

/// The chunk holding world position `w` and the cell inside it: floor division and
/// Euclidean remainder by the chunk width on x and y, and `None` when `z` lies
/// outside the world's height.
pub open spec fn split_spec(w: WorldCoords) -> Option<(ChunkCoords, BlockCoords)> {
    if 0 <= w.2 < 256 {
        Some(
            (
                ((w.0 as int / 16) as i32, (w.1 as int / 16) as i32),
                ((w.0 as int % 16) as usize, (w.1 as int % 16) as usize, w.2 as usize),
            ),
        )
    } else {
        None
    }
}

/// The world position of cell `b` of chunk `c`.
pub open spec fn join_coords(c: ChunkCoords, b: BlockCoords) -> (int, int, int) {
    (c.0 * 16 + b.0, c.1 * 16 + b.1, b.2 as int)
}

pub fn split_coords(world: WorldCoords) -> (r: Option<(ChunkCoords, BlockCoords)>)
    ensures
        r == split_spec(world),
{
    let (x, y, z) = world;
    if z < 0 || z >= CHUNK_HEIGHT as i32 {
        return None;
    }
    let chunk_x = x.checked_div_euclid(CHUNK_WIDTH as i32).unwrap();
    let block_x = x.checked_rem_euclid(CHUNK_WIDTH as i32).unwrap() as usize;
    let chunk_y = y.checked_div_euclid(CHUNK_WIDTH as i32).unwrap();
    let block_y = y.checked_rem_euclid(CHUNK_WIDTH as i32).unwrap() as usize;
    Some(((chunk_x, chunk_y), (block_x, block_y, z as usize)))
}

/// Splitting a world position and joining the parts gives the position back, and
/// the cell lies inside its chunk; positions outside the world's height split to
/// nothing.
pub proof fn lemma_split_coords_round_trip(w: WorldCoords)
    ensures
        0 <= w.2 < 256 ==> {
            let (c, b) = split_spec(w)->Some_0;
            &&& split_spec(w) is Some
            &&& join_coords(c, b) == (w.0 as int, w.1 as int, w.2 as int)
            &&& b.0 < 16 && b.1 < 16 && b.2 < 256
        },
        !(0 <= w.2 < 256) ==> split_spec(w) is None,
{
}

/// Squared distance between two chunk positions, in chunks.
pub open spec fn distance_squared(a: ChunkCoords, b: ChunkCoords) -> int {
    (a.0 - b.0) * (a.0 - b.0) + (a.1 - b.1) * (a.1 - b.1)
}

pub fn chunk_distance_squared(a: ChunkCoords, b: ChunkCoords) -> (r: i32)
    requires
        distance_squared(a, b) <= i32::MAX,
    ensures
        r == distance_squared(a, b),
{
    let dx = a.0 as i64 - b.0 as i64;
    let dy = a.1 as i64 - b.1 as i64;
    proof {
        let x = dx as int;
        let y = dy as int;
        assert(x * x >= 0 && y * y >= 0) by (nonlinear_arith);
        assert(dx * dx == x * x && dy * dy == y * y);
    }
    (dx * dx + dy * dy) as i32
}

/// A whole number whose square is below `r * r` lies strictly between `-r` and `r`.
pub proof fn lemma_square_below(d: int, r: int, limit: int)
    requires
        r >= 0,
        d * d <= limit,
        limit < r * r,
    ensures
        -r < d < r,
{
    assert(-r < d < r) by (nonlinear_arith)
        requires
            r >= 0,
            d * d < r * r,
    ;
}

/// The chunk positions within squared distance `limit` of `center`, each once:
/// the chunks to keep loaded around a viewer.
pub fn chunks_in_range(center: ChunkCoords, limit: i32) -> (r: Vec<ChunkCoords>)
    ensures
        forall|c: ChunkCoords| r@.contains(c) <==> distance_squared(c, center) <= limit,
        r@.no_duplicates(),
{
    let mut out: Vec<ChunkCoords> = Vec::new();
    if limit < 0 {
        proof {
            assert forall|c: ChunkCoords| !(distance_squared(c, center) <= limit) by {
                let (dx, dy) = (c.0 - center.0, c.1 - center.1);
                assert(dx * dx + dy * dy >= 0) by (nonlinear_arith);
            }
        }
        return out;
    }
    let mut radius: i64 = 0;
    while radius * radius <= limit as i64
        invariant
            0 <= radius <= 46341,
            radius * radius <= 46342 * 46342,
            limit >= 0,
            forall|d: int| 0 <= d < radius ==> #[trigger] (d * d) <= limit,
        decreases 46341 - radius,
    {
        proof {
            if radius == 46341 {
                assert(radius * radius > i32::MAX);
            }
            assert(radius * radius <= limit);
        }
        radius += 1;
        proof {
            assert(radius * radius <= 46342 * 46342) by (nonlinear_arith)
                requires
                    0 <= radius <= 46342,
            ;
        }
    }
    let mut dy: i64 = -radius;
    proof {
        assert forall|c: ChunkCoords| distance_squared(c, center) <= limit implies !(c.1 - center.1 < dy) by {
            let (ddx, ddy) = (c.0 - center.0, c.1 - center.1);
            assert(ddx * ddx >= 0 && ddy * ddy >= 0) by (nonlinear_arith);
            lemma_square_below(ddy, radius as int, limit as int);
        }
    }
    while dy <= radius
        invariant
            0 <= radius <= 46341,
            radius * radius > limit,
            -radius <= dy <= radius + 1,
            forall|c: ChunkCoords| out@.contains(c) ==> distance_squared(c, center) <= limit
                && c.1 - center.1 < dy,
            forall|c: ChunkCoords| distance_squared(c, center) <= limit && c.1 - center.1 < dy ==> out@.contains(c),
            out@.no_duplicates(),
        decreases radius + 1 - dy,
    {
        let mut dx: i64 = -radius;
        proof {
            assert forall|c: ChunkCoords| distance_squared(c, center) <= limit && c.1 - center.1 == dy
                implies !(c.0 - center.0 < dx) by {
                let (ddx, ddy) = (c.0 - center.0, c.1 - center.1);
                assert(ddx * ddx >= 0 && ddy * ddy >= 0) by (nonlinear_arith);
                lemma_square_below(ddx, radius as int, limit as int);
            }
        }
        while dx <= radius
            invariant
                0 <= radius <= 46341,
                radius * radius > limit,
                -radius <= dy <= radius,
                -radius <= dx <= radius + 1,
                forall|c: ChunkCoords| out@.contains(c) ==> distance_squared(c, center) <= limit
                    && (c.1 - center.1 < dy || (c.1 - center.1 == dy && c.0 - center.0 < dx)),
                forall|c: ChunkCoords| distance_squared(c, center) <= limit
                    && (c.1 - center.1 < dy || (c.1 - center.1 == dy && c.0 - center.0 < dx)) ==> out@.contains(c),
                out@.no_duplicates(),
            decreases radius + 1 - dx,
        {
            proof {
                assert(0 <= dx * dx <= 46341 * 46341 && 0 <= dy * dy <= 46341 * 46341) by (nonlinear_arith)
                    requires
                        -46341 <= dx <= 46341,
                        -46341 <= dy <= 46341,
                ;
            }
            let x = center.0 as i64 + dx;
            let y = center.1 as i64 + dy;
            let sq = dx * dx + dy * dy;
            let fits = i32::MIN as i64 <= x && x <= i32::MAX as i64 && i32::MIN as i64 <= y && y <= i32::MAX as i64;
            let ghost before = out@;
            if sq <= limit as i64 && fits {
                let c = (x as i32, y as i32);
                proof {
                    assert(c.0 == x && c.1 == y);
                    assert(!out@.contains(c));
                }
                out.push(c);
            }
            proof {
                assert forall|d: ChunkCoords| out@.contains(d) implies before.contains(d) || (d.0 == x && d.1 == y
                    && sq <= limit) by {
                    let k = choose|k: int| 0 <= k < out@.len() && out@[k] == d;
                    if k < before.len() {
                        assert(before[k] == d);
                    }
                }
                assert forall|d: ChunkCoords| out@.contains(d) implies distance_squared(d, center) <= limit
                    && (d.1 - center.1 < dy || (d.1 - center.1 == dy && d.0 - center.0 < dx + 1)) by {
                    if !before.contains(d) {
                        let (ex, ey) = (d.0 - center.0, d.1 - center.1);
                        assert(ex == dx && ey == dy);
                        assert(distance_squared(d, center) == ex * ex + ey * ey);
                    }
                }
                assert forall|d: ChunkCoords| distance_squared(d, center) <= limit
                    && (d.1 - center.1 < dy || (d.1 - center.1 == dy && d.0 - center.0 < dx + 1)) implies out@.contains(d) by {
                    if d.1 - center.1 == dy && d.0 - center.0 == dx {
                        assert(d.0 == x && d.1 == y);
                        assert(out@.last() == d);
                    } else {
                        assert(before.contains(d));
                        let k = choose|k: int| 0 <= k < before.len() && before[k] == d;
                        assert(out@[k] == d);
                    }
                }
            }
            dx += 1;
        }
        proof {
            assert forall|c: ChunkCoords| distance_squared(c, center) <= limit && c.1 - center.1 < dy + 1
                implies out@.contains(c) by {
                if c.1 - center.1 == dy {
                    let (ddx, ddy) = (c.0 - center.0, c.1 - center.1);
                    assert(ddx * ddx >= 0 && ddy * ddy >= 0) by (nonlinear_arith);
                    lemma_square_below(ddx, radius as int, limit as int);
                }
            }
        }
        dy += 1;
    }
    proof {
        assert forall|c: ChunkCoords| distance_squared(c, center) <= limit implies out@.contains(c) by {
            let ddy = c.1 - center.1;
            let ddx = c.0 - center.0;
            assert(ddx * ddx >= 0 && ddy * ddy >= 0) by (nonlinear_arith);
            lemma_square_below(ddy, radius as int, limit as int);
        }
    }
    out
}

} // verus!
