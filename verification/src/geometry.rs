//! Pure geometry used by the editor: points on an integer pixel grid, the
//! strict point-in-box hit test for vertices, the squared-distance
//! point-near-segment hit test for edges, and grid quantization.

use vstd::prelude::*;
use vstd::arithmetic::div_mod::lemma_div_multiples_vanish_fancy;
use vstd::arithmetic::div_mod::lemma_fundamental_div_mod;
use vstd::math::abs;

verus! {

/// Half-width of the square region of the plane in which every coordinate the
/// editor handles must lie.  Keeping coordinates in this range lets every
/// geometric computation below be carried out exactly in machine integers.
pub const POS_LIMIT: i64 = 1_000_000_000;

/// Side length of the snapping grid.
pub const GRID: i64 = 20;

/// Largest squared distance from a segment at which a click still counts as
/// hitting the segment (a 5-unit radius).
pub const EDGE_TOLERANCE_SQUARED: i64 = 25;

/// Largest magnitude accepted by `quantize`.  It leaves room for a cursor
/// position plus a captured drag offset.
pub const QUANT_LIMIT: i64 = 4_000_000_000;

/// Largest magnitude a captured drag offset can reach: the difference of two
/// in-range coordinates.
pub const OFFSET_LIMIT: i64 = 2_000_000_000;

/// A coordinate the editor may store or receive.
pub open spec fn coord_ok(x: int) -> bool {
    -POS_LIMIT <= x <= POS_LIMIT
}

/// A 2D position in world space.
#[derive(Clone, Copy, PartialEq, Eq, Structural, Debug)]
pub struct Point {
    pub x: i64,
    pub y: i64,
}

/// Both coordinates of `p` are in range.
pub open spec fn point_ok(p: Point) -> bool {
    coord_ok(p.x as int) && coord_ok(p.y as int)
}

/// Strict axis-aligned square containment: `p` lies inside the open square of
/// half-extent `h` centred at `c`.  A point exactly on the boundary is out.
pub open spec fn in_box(c: Point, h: int, p: Point) -> bool {
    abs(p.x - c.x) < h && abs(p.y - c.y) < h
}

/// Decide `in_box` on machine integers.
pub fn point_in_box(c: Point, h: i64, p: Point) -> (r: bool)
    requires
        point_ok(c),
        point_ok(p),
        0 <= h <= POS_LIMIT,
    ensures
        r == in_box(c, h as int, p),
{
    let dx: i64 = if p.x >= c.x {
        p.x - c.x
    } else {
        c.x - p.x
    };
    let dy: i64 = if p.y >= c.y {
        p.y - c.y
    } else {
        c.y - p.y
    };
    dx < h && dy < h
}

/// The square hit-box of a vertex, described by its half-extent.
#[derive(Clone, Copy, PartialEq, Eq, Structural, Debug)]
pub struct VertexArea {
    pub half_extend: i64,
}

impl VertexArea {
    /// Whether a point falls strictly inside this hit-box placed at `area_pos`.
    pub fn intersects(&self, area_pos: Point, other_pos: Point) -> (r: bool)
        requires
            point_ok(area_pos),
            point_ok(other_pos),
            0 <= self.half_extend <= POS_LIMIT,
        ensures
            r == in_box(area_pos, self.half_extend as int, other_pos),
    {
        point_in_box(area_pos, self.half_extend, other_pos)
    }
}

/// Point-near-segment test, entirely in squared lengths.  With `m = b - a` and
/// `p' = p - a`, the unnormalized projection of `p'` on `m` has squared length
/// `dot(m, p')^2 / |m|^2`; it must land inside the segment's span and the
/// squared perpendicular distance `|p'|^2 - dot^2/|m|^2` must stay within the
/// tolerance.  Multiplying both comparisons by `|m|^2 > 0` keeps everything in
/// integers.  A degenerate segment (`a == b`) never collides.
pub open spec fn near_segment(p: Point, a: Point, b: Point) -> bool {
    let mx = b.x - a.x;
    let my = b.y - a.y;
    if mx == 0 && my == 0 {
        false
    } else {
        let px = p.x - a.x;
        let py = p.y - a.y;
        let dot = mx * px + my * py;
        let mm = mx * mx + my * my;
        let pp = px * px + py * py;
        dot * dot <= mm * mm && pp * mm - dot * dot <= EDGE_TOLERANCE_SQUARED * mm
    }
}

/// Whether a click at `cursor_pos` hits the segment between `u_pos` and
/// `v_pos`.
pub fn edge_collide(cursor_pos: Point, u_pos: Point, v_pos: Point) -> (r: bool)
    requires
        point_ok(cursor_pos),
        point_ok(u_pos),
        point_ok(v_pos),
    ensures
        r == near_segment(cursor_pos, u_pos, v_pos),
{
    let mx: i128 = (v_pos.x as i128) - (u_pos.x as i128);
    let my: i128 = (v_pos.y as i128) - (u_pos.y as i128);
    if mx == 0 && my == 0 {
        return false;
    }
    let px: i128 = (cursor_pos.x as i128) - (u_pos.x as i128);
    let py: i128 = (cursor_pos.y as i128) - (u_pos.y as i128);
    proof {
        lemma_product_bound(mx as int, px as int, 2_000_000_000, 2_000_000_000);
        lemma_product_bound(my as int, py as int, 2_000_000_000, 2_000_000_000);
        lemma_product_bound(mx as int, mx as int, 2_000_000_000, 2_000_000_000);
        lemma_product_bound(my as int, my as int, 2_000_000_000, 2_000_000_000);
        lemma_product_bound(px as int, px as int, 2_000_000_000, 2_000_000_000);
        lemma_product_bound(py as int, py as int, 2_000_000_000, 2_000_000_000);
    }
    let dot: i128 = mx * px + my * py;
    let mm: i128 = mx * mx + my * my;
    let pp: i128 = px * px + py * py;
    proof {
        lemma_product_bound(dot as int, dot as int, 8_000_000_000_000_000_000, 8_000_000_000_000_000_000);
        lemma_product_bound(mm as int, mm as int, 8_000_000_000_000_000_000, 8_000_000_000_000_000_000);
        lemma_product_bound(pp as int, mm as int, 8_000_000_000_000_000_000, 8_000_000_000_000_000_000);
        lemma_product_bound(EDGE_TOLERANCE_SQUARED as int, mm as int, 25, 8_000_000_000_000_000_000);
    }
    let cursor_between_vertices: bool = dot * dot <= mm * mm;
    let distance_ok: bool = pp * mm - dot * dot <= (EDGE_TOLERANCE_SQUARED as i128) * mm;
    cursor_between_vertices && distance_ok
}

/// `|a * b| <= ka * kb` whenever `|a| <= ka` and `|b| <= kb`.
proof fn lemma_product_bound(a: int, b: int, ka: int, kb: int)
    requires
        -ka <= a <= ka,
        -kb <= b <= kb,
        0 <= ka,
        0 <= kb,
    ensures
        -(ka * kb) <= a * b <= ka * kb,
{
    assert(-(ka * kb) <= a * b <= ka * kb) by (nonlinear_arith)
        requires
            -ka <= a <= ka,
            -kb <= b <= kb,
            0 <= ka,
            0 <= kb,
    ;
}

/// Rounding to the nearest multiple of `GRID`, halves away from zero: the
/// mathematical value of `round(x / 20) * 20`.
pub open spec fn quantize_spec(x: int) -> int {
    if x >= 0 {
        GRID * ((x + GRID / 2) / (GRID as int))
    } else {
        -(GRID * ((-x + GRID / 2) / (GRID as int)))
    }
}

/// Snap a coordinate to the nearest multiple of `GRID`.
pub fn quantize(f: i64) -> (r: i64)
    requires
        -QUANT_LIMIT <= f <= QUANT_LIMIT,
    ensures
        r == quantize_spec(f as int),
        -QUANT_LIMIT - GRID / 2 <= r <= QUANT_LIMIT + GRID / 2,
{
    proof {
        lemma_quantize_close(f as int);
    }
    if f >= 0 {
        let q: u64 = ((f as u64) + 10) / 20;
        (q * 20) as i64
    } else {
        let q: u64 = (((-f) as u64) + 10) / 20;
        -((q * 20) as i64)
    }
}

/// The quantized value differs from its argument by at most half a grid cell.
pub proof fn lemma_quantize_close(x: int)
    ensures
        x - GRID / 2 <= quantize_spec(x) <= x + GRID / 2,
{
    if x >= 0 {
        lemma_fundamental_div_mod(x + 10, 20);
    } else {
        lemma_fundamental_div_mod(-x + 10, 20);
    }
}

/// Quantization is idempotent: snapping an already snapped value changes
/// nothing.
pub proof fn lemma_quantize_idempotent(x: int)
    ensures
        quantize_spec(quantize_spec(x)) == quantize_spec(x),
{
    if x >= 0 {
        let k = (x + 10) / 20;
        lemma_fundamental_div_mod(x + 10, 20);
        assert(k >= 0);
        lemma_div_multiples_vanish_fancy(k, 10, 20);
        assert((20 * k + 10) / 20 == k);
    } else {
        let k = (-x + 10) / 20;
        lemma_fundamental_div_mod(-x + 10, 20);
        assert(k >= 0);
        lemma_div_multiples_vanish_fancy(k, 10, 20);
        assert((20 * k + 10) / 20 == k);
        if k == 0 {
            assert(quantize_spec(x) == 0);
        } else {
            assert(quantize_spec(x) == -(20 * k));
            assert(-(20 * k) < 0);
            assert(quantize_spec(-(20 * k)) == -(20 * k));
        }
    }
}

/// The hit test is strict at the boundary: the centre itself is always inside
/// a box of positive half-extent, while any point at distance `h` or more
/// along either axis is outside.
pub proof fn lemma_in_box_boundary(c: Point, h: int, p: Point)
    ensures
        h > 0 ==> in_box(c, h, c),
        abs(p.x - c.x) >= h || abs(p.y - c.y) >= h ==> !in_box(c, h, p),
{
}

} // verus!
