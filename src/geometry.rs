//! Projection of game-world points onto a map's raster.
//!
//! The rotation is a whole number of quarter turns. All values are
//! fixed-point thousandths (see `FIXED_SCALE`), and the arithmetic is exact:
//! the only rounding is the final floor division into display units.
use vstd::prelude::*;
use crate::arith::{
    fits_i64, floor_div, lemma_mul_abs_bound, lemma_scaled_fraction_bounds,
    lemma_scaled_fraction_ends, offset_by_fraction,
};
use crate::model::{Bounds, GameMap, Point, Size2, Transform, FIXED_SCALE};

verus! {

/// Largest magnitude of the values that the transform-based projection
/// reads (point, display rectangle, transform, raster size): its products
/// must fit an `i128`. The bounds-based projection takes any `i64`.
pub const AFFINE_LIMIT: i64 = 2199023255552;

/// A quarter turn in thousandths of a degree.
pub const QUARTER_TURN: i64 = 90000;

/// The rotation (thousandths of a degree) for which an affine transform,
/// when present, replaces the bounds-based projection.
pub const AFFINE_ROTATION: i64 = 270000;

/// The on-screen rectangle that shows the whole raster.
#[derive(Clone, Copy, Debug, PartialEq, Eq, Structural)]
pub struct DisplayRect {
    pub min_x: i64,
    pub min_y: i64,
    pub max_x: i64,
    pub max_y: i64,
}

/// A position inside (or near) a `DisplayRect`.
#[derive(Clone, Copy, Debug, PartialEq, Eq, Structural)]
pub struct DisplayPoint {
    pub x: i64,
    pub y: i64,
}

pub open spec fn in_affine_range(v: int) -> bool {
    -AFFINE_LIMIT <= v <= AFFINE_LIMIT
}

/// Every number that the transform-based projection of `p` reads is within
/// `AFFINE_LIMIT`.
pub open spec fn affine_in_range(t: Transform, size: Size2, rect: DisplayRect, p: Point) -> bool {
    &&& in_affine_range(p.x as int) && in_affine_range(p.y as int)
    &&& in_affine_range(rect.min_x as int) && in_affine_range(rect.min_y as int)
    &&& in_affine_range(rect.max_x as int) && in_affine_range(rect.max_y as int)
    &&& in_affine_range(t.scale_x as int) && in_affine_range(t.margin_x as int)
    &&& in_affine_range(t.scale_y as int) && in_affine_range(t.margin_y as int)
    &&& in_affine_range(size.width as int) && in_affine_range(size.height as int)
}

/// The number of quarter turns (0 to 3) in `deg` thousandths of a degree,
/// or `None` when `deg` is not a multiple of a quarter turn.
pub open spec fn quarter_turns(deg: int) -> Option<int> {
    if deg % (QUARTER_TURN as int) == 0 {
        Some((deg / (QUARTER_TURN as int)) % 4)
    } else {
        None
    }
}

/// `(x, y)` rotated about the origin by `k` quarter turns counter-clockwise:
/// `x' = x cos - y sin`, `y' = x sin + y cos`.
pub open spec fn rotated(x: int, y: int, k: int) -> (int, int) {
    if k == 1 {
        (-y, x)
    } else if k == 2 {
        (-x, -y)
    } else if k == 3 {
        (y, -x)
    } else {
        (x, y)
    }
}

pub open spec fn min2(a: int, b: int) -> int {
    if a <= b {
        a
    } else {
        b
    }
}

pub open spec fn max2(a: int, b: int) -> int {
    if a >= b {
        a
    } else {
        b
    }
}

pub open spec fn min4(a: int, b: int, c: int, d: int) -> int {
    min2(min2(a, b), min2(c, d))
}

pub open spec fn max4(a: int, b: int, c: int, d: int) -> int {
    max2(max2(a, b), max2(c, d))
}

/// The four corners of `b`: `(maxX, minY)`, `(maxX, maxY)`, `(minX, minY)`, `(minX, maxY)`.
pub open spec fn corner(b: Bounds, i: int) -> (int, int) {
    if i == 0 {
        (b.corner0.x as int, b.corner0.y as int)
    } else if i == 1 {
        (b.corner0.x as int, b.corner1.y as int)
    } else if i == 2 {
        (b.corner1.x as int, b.corner0.y as int)
    } else {
        (b.corner1.x as int, b.corner1.y as int)
    }
}

pub open spec fn rotated_corner(b: Bounds, i: int, k: int) -> (int, int) {
    rotated(corner(b, i).0, corner(b, i).1, k)
}

/// Axis-aligned box `(min_x, max_x, min_y, max_y)` of the four rotated corners.
pub open spec fn rotated_extent(b: Bounds, k: int) -> (int, int, int, int) {
    (
        min4(
            rotated_corner(b, 0, k).0,
            rotated_corner(b, 1, k).0,
            rotated_corner(b, 2, k).0,
            rotated_corner(b, 3, k).0,
        ),
        max4(
            rotated_corner(b, 0, k).0,
            rotated_corner(b, 1, k).0,
            rotated_corner(b, 2, k).0,
            rotated_corner(b, 3, k).0,
        ),
        min4(
            rotated_corner(b, 0, k).1,
            rotated_corner(b, 1, k).1,
            rotated_corner(b, 2, k).1,
            rotated_corner(b, 3, k).1,
        ),
        max4(
            rotated_corner(b, 0, k).1,
            rotated_corner(b, 1, k).1,
            rotated_corner(b, 2, k).1,
            rotated_corner(b, 3, k).1,
        ),
    )
}

/// Bounds-based projection: the rotated point, normalised within the rotated
/// extent (Y inverted), scaled into `rect`. `None` for a degenerate extent or
/// a result that does not fit an `i64`.
pub open spec fn general_projection(b: Bounds, k: int, rect: DisplayRect, p: Point) -> Option<
    (int, int),
> {
    let r = rotated(p.x as int, p.y as int, k);
    let e = rotated_extent(b, k);
    let bw = e.1 - e.0;
    let bh = e.3 - e.2;
    if bw <= 0 || bh <= 0 {
        None
    } else {
        let dx = rect.min_x + (r.0 - e.0) * (rect.max_x - rect.min_x) / bw;
        let dy = rect.min_y + (e.3 - r.1) * (rect.max_y - rect.min_y) / bh;
        if fits_i64(dx) && fits_i64(dy) {
            Some((dx, dy))
        } else {
            None
        }
    }
}

/// Transform-based projection for the three-quarter-turn rotation:
/// `svg = (scaleX * x' + marginX, marginY - scaleY * y')`, normalised by the
/// raster size and scaled into `rect`. `None` for a non-positive raster size or
/// a result that does not fit an `i64`.
pub open spec fn affine_projection(t: Transform, size: Size2, rect: DisplayRect, p: Point) -> Option<
    (int, int),
> {
    let r = rotated(p.x as int, p.y as int, 3);
    if size.width <= 0 || size.height <= 0 {
        None
    } else {
        let dx = rect.min_x + (t.scale_x * r.0 + t.margin_x * FIXED_SCALE) * (rect.max_x
            - rect.min_x) / (FIXED_SCALE * size.width);
        let dy = rect.min_y + (t.margin_y * FIXED_SCALE - t.scale_y * r.1) * (rect.max_y
            - rect.min_y) / (FIXED_SCALE * size.height);
        if fits_i64(dx) && fits_i64(dy) {
            Some((dx, dy))
        } else {
            None
        }
    }
}

pub open spec fn rotation_of(m: GameMap) -> int {
    match m.coordinate_rotation {
        Some(r) => r as int,
        None => 0,
    }
}

/// Where `p` lands in `rect` on map `m`; `None` without bounds, for a rotation
/// that is no whole number of quarter turns, for a degenerate extent or a
/// non-positive raster size, for a result that does not fit an `i64`, and on
/// the transform-based path for values beyond `AFFINE_LIMIT`.
pub open spec fn projection(m: GameMap, rect: DisplayRect, p: Point) -> Option<(int, int)> {
    match m.bounds {
        None => None,
        Some(b) => match quarter_turns(rotation_of(m)) {
            None => None,
            Some(k) => match m.transform {
                Some(t) if rotation_of(m) == AFFINE_ROTATION => if affine_in_range(
                    t,
                    m.image_size,
                    rect,
                    p,
                ) {
                    affine_projection(t, m.image_size, rect, p)
                } else {
                    None
                },
                _ => general_projection(b, k, rect, p),
            },
        },
    }
}

pub open spec fn as_pair(d: DisplayPoint) -> (int, int) {
    (d.x as int, d.y as int)
}

pub open spec fn same_projection(r: Option<DisplayPoint>, s: Option<(int, int)>) -> bool {
    &&& r.is_some() == s.is_some()
    &&& r.is_some() ==> as_pair(r.unwrap()) == s.unwrap()
}

/// Number of quarter turns in `deg` (thousandths of a degree).
pub fn quarter_turns_of(deg: i64) -> (r: Option<u8>)
    ensures
        r.is_some() == quarter_turns(deg as int).is_some(),
        r.is_some() ==> r.unwrap() as int == quarter_turns(deg as int).unwrap(),
{
    let d: i128 = deg as i128;
    let m: i128 = if d < 0 {
        -d
    } else {
        d
    };
    if m % 90000 != 0 {
        return None;
    }
    let q: i128 = m / 90000;
    let k: i128 = if d >= 0 {
        q % 4
    } else {
        (4 - q % 4) % 4
    };
    Some(k as u8)
}

/// Rotates `(x, y)` about the origin by `angle` thousandths of a degree;
/// `None` when `angle` is not a whole number of quarter turns.
pub fn rotate_point(x: i64, y: i64, angle: i64) -> (r: Option<(i128, i128)>)
    ensures
        r.is_some() == quarter_turns(angle as int).is_some(),
        r.is_some() ==> (r.unwrap().0 as int, r.unwrap().1 as int) == rotated(
            x as int,
            y as int,
            quarter_turns(angle as int).unwrap(),
        ),
{
    match quarter_turns_of(angle) {
        None => None,
        Some(k) => Some(rotate_by(x, y, k)),
    }
}

/// Bound on a rotated `i64` coordinate.
pub open spec fn in_rotated_range(v: int) -> bool {
    -0x8000_0000_0000_0000 <= v <= 0x8000_0000_0000_0000
}

fn rotate_by(x: i64, y: i64, k: u8) -> (r: (i128, i128))
    requires
        k < 4,
    ensures
        (r.0 as int, r.1 as int) == rotated(x as int, y as int, k as int),
        in_rotated_range(r.0 as int),
        in_rotated_range(r.1 as int),
{
    let x = x as i128;
    let y = y as i128;
    if k == 1 {
        (-y, x)
    } else if k == 2 {
        (-x, -y)
    } else if k == 3 {
        (y, -x)
    } else {
        (x, y)
    }
}

fn min_of(a: i128, b: i128) -> (r: i128)
    ensures
        r as int == min2(a as int, b as int),
{
    if a <= b {
        a
    } else {
        b
    }
}

fn max_of(a: i128, b: i128) -> (r: i128)
    ensures
        r as int == max2(a as int, b as int),
{
    if a >= b {
        a
    } else {
        b
    }
}

fn rotated_extent_of(b: &Bounds, k: u8) -> (r: (i128, i128, i128, i128))
    requires
        k < 4,
    ensures
        (r.0 as int, r.1 as int, r.2 as int, r.3 as int) == rotated_extent(*b, k as int),
        in_rotated_range(r.0 as int),
        in_rotated_range(r.1 as int),
        in_rotated_range(r.2 as int),
        in_rotated_range(r.3 as int),
{
    let c0 = rotate_by(b.corner0.x, b.corner0.y, k);
    let c1 = rotate_by(b.corner0.x, b.corner1.y, k);
    let c2 = rotate_by(b.corner1.x, b.corner0.y, k);
    let c3 = rotate_by(b.corner1.x, b.corner1.y, k);
    let x0 = min_of(min_of(c0.0, c1.0), min_of(c2.0, c3.0));
    let x1 = max_of(max_of(c0.0, c1.0), max_of(c2.0, c3.0));
    let y0 = min_of(min_of(c0.1, c1.1), min_of(c2.1, c3.1));
    let y1 = max_of(max_of(c0.1, c1.1), max_of(c2.1, c3.1));
    (x0, x1, y0, y1)
}

fn projected_general(b: &Bounds, k: u8, rect: &DisplayRect, p: Point) -> (r: Option<DisplayPoint>)
    requires
        k < 4,
    ensures
        same_projection(r, general_projection(*b, k as int, *rect, p)),
{
    let (rx, ry) = rotate_by(p.x, p.y, k);
    let (x0, x1, y0, y1) = rotated_extent_of(b, k);
    let bw: i128 = x1 - x0;
    let bh: i128 = y1 - y0;
    if bw <= 0 || bh <= 0 {
        return None;
    }
    let w: i128 = rect.max_x as i128 - rect.min_x as i128;
    let h: i128 = rect.max_y as i128 - rect.min_y as i128;
    let dx = match offset_by_fraction(rect.min_x, rx - x0, w, bw) {
        Some(v) => v,
        None => return None,
    };
    let dy = match offset_by_fraction(rect.min_y, y1 - ry, h, bh) {
        Some(v) => v,
        None => return None,
    };
    Some(DisplayPoint { x: dx, y: dy })
}

fn projected_affine(t: &Transform, size: Size2, rect: &DisplayRect, p: Point) -> (r: Option<
    DisplayPoint,
>)
    requires
        affine_in_range(*t, size, *rect, p),
    ensures
        same_projection(r, affine_projection(*t, size, *rect, p)),
{
    let (rx, ry) = rotate_by(p.x, p.y, 3);
    if size.width <= 0 || size.height <= 0 {
        return None;
    }
    let w: i128 = rect.max_x as i128 - rect.min_x as i128;
    let h: i128 = rect.max_y as i128 - rect.min_y as i128;
    proof {
        lemma_mul_abs_bound(t.scale_x as int, rx as int, 0x200_0000_0000, 0x200_0000_0000);
        lemma_mul_abs_bound(t.scale_y as int, ry as int, 0x200_0000_0000, 0x200_0000_0000);
    }
    let sx: i128 = t.scale_x as i128 * rx + t.margin_x as i128 * 1000;
    let sy: i128 = t.margin_y as i128 * 1000 - t.scale_y as i128 * ry;
    proof {
        lemma_mul_abs_bound(sx as int, w as int, 0x8_0000_0000_0000_0000_0000, 0x400_0000_0000);
        lemma_mul_abs_bound(sy as int, h as int, 0x8_0000_0000_0000_0000_0000, 0x400_0000_0000);
    }
    let qx = floor_div(sx * w, 1000 * size.width as i128);
    let qy = floor_div(sy * h, 1000 * size.height as i128);
    let dx: i128 = rect.min_x as i128 + qx;
    let dy: i128 = rect.min_y as i128 + qy;
    if dx < i64::MIN as i128 || dx > i64::MAX as i128 || dy < i64::MIN as i128 || dy
        > i64::MAX as i128 {
        return None;
    }
    Some(DisplayPoint { x: dx as i64, y: dy as i64 })
}

fn within_affine_limit(v: i64) -> (r: bool)
    ensures
        r == in_affine_range(v as int),
{
    -AFFINE_LIMIT <= v && v <= AFFINE_LIMIT
}

fn affine_within_range(t: &Transform, size: Size2, rect: &DisplayRect, p: Point) -> (r: bool)
    ensures
        r == affine_in_range(*t, size, *rect, p),
{
    within_affine_limit(p.x) && within_affine_limit(p.y) && within_affine_limit(rect.min_x)
        && within_affine_limit(rect.min_y) && within_affine_limit(rect.max_x)
        && within_affine_limit(rect.max_y) && within_affine_limit(t.scale_x)
        && within_affine_limit(t.margin_x) && within_affine_limit(t.scale_y)
        && within_affine_limit(t.margin_y) && within_affine_limit(size.width)
        && within_affine_limit(size.height)
}

/// Converts a game position to a display position on `rect`, which shows the
/// map's whole raster.
pub fn game_to_display(map: &GameMap, rect: &DisplayRect, game_pos: Point) -> (r: Option<DisplayPoint>)
    ensures
        same_projection(r, projection(*map, *rect, game_pos)),
{
    let bounds = match &map.bounds {
        Some(b) => b,
        None => return None,
    };
    let rotation: i64 = match map.coordinate_rotation {
        Some(r) => r,
        None => 0,
    };
    let k = match quarter_turns_of(rotation) {
        Some(k) => k,
        None => return None,
    };
    if rotation == AFFINE_ROTATION {
        if let Some(t) = &map.transform {
            if !affine_within_range(t, map.image_size, rect, game_pos) {
                return None;
            }
            return projected_affine(t, map.image_size, rect, game_pos);
        }
    }
    projected_general(bounds, k, rect, game_pos)
}

} // verus!

verus! {

/// The corners differ on both axes.
pub open spec fn bounds_wf(b: Bounds) -> bool {
    b.corner0.x != b.corner1.x && b.corner0.y != b.corner1.y
}

pub open spec fn between(v: int, a: int, b: int) -> bool {
    min2(a, b) <= v <= max2(a, b)
}

pub open spec fn inside_bounds(p: Point, b: Bounds) -> bool {
    between(p.x as int, b.corner0.x as int, b.corner1.x as int) && between(
        p.y as int,
        b.corner0.y as int,
        b.corner1.y as int,
    )
}

pub open spec fn inside_rect(d: (int, int), r: DisplayRect) -> bool {
    r.min_x <= d.0 <= r.max_x && r.min_y <= d.1 <= r.max_y
}

/// One of the four rotations that the map data uses, or none.
pub open spec fn standard_rotation(m: GameMap) -> bool {
    let r = rotation_of(m);
    r == 0 || r == QUARTER_TURN || r == 2 * QUARTER_TURN || r == 3 * QUARTER_TURN
}

/// The bounds-based path is taken: no transform replaces it.
pub open spec fn uses_bounds(m: GameMap) -> bool {
    rotation_of(m) == AFFINE_ROTATION ==> m.transform is None
}

/// A projection that exists and is one of `r`'s corners.
pub open spec fn lands_on_corner(o: Option<(int, int)>, r: DisplayRect) -> bool {
    o matches Some(d) && (d.0 == r.min_x || d.0 == r.max_x) && (d.1 == r.min_y || d.1 == r.max_y)
}

pub open spec fn corner_point(b: Bounds, i: int) -> Point {
    Point { x: corner(b, i).0 as i64, y: corner(b, i).1 as i64 }
}

/// Without bounds there is no projection, whatever the other fields hold.
pub proof fn lemma_no_bounds_no_projection(m: GameMap, rect: DisplayRect, p: Point)
    requires
        m.bounds is None,
    ensures
        projection(m, rect, p) is None,
{
}

proof fn lemma_standard_turns(m: GameMap) -> (k: int)
    requires
        standard_rotation(m),
    ensures
        quarter_turns(rotation_of(m)) == Some(k),
        0 <= k < 4,
        rotation_of(m) == AFFINE_ROTATION <==> k == 3,
{
    let r = rotation_of(m);
    if r == 0 {
        0
    } else if r == QUARTER_TURN {
        1
    } else if r == 2 * QUARTER_TURN {
        2
    } else {
        3
    }
}

/// A point inside well-formed bounds lands inside the display rectangle, for
/// each of the four standard rotations, on the bounds-based path.
pub proof fn lemma_inside_projects_inside(m: GameMap, rect: DisplayRect, p: Point)
    requires
        m.bounds matches Some(b) && bounds_wf(b) && inside_bounds(p, b),
        standard_rotation(m),
        uses_bounds(m),
        rect.min_x <= rect.max_x,
        rect.min_y <= rect.max_y,
    ensures
        projection(m, rect, p) matches Some(d) && inside_rect(d, rect),
{
    let b = m.bounds.unwrap();
    let k = lemma_standard_turns(m);
    let r = rotated(p.x as int, p.y as int, k);
    let e = rotated_extent(b, k);
    assert(e.0 <= r.0 <= e.1 && e.2 <= r.1 <= e.3 && e.0 < e.1 && e.2 < e.3);
    lemma_scaled_fraction_bounds(r.0 - e.0, rect.max_x - rect.min_x, e.1 - e.0);
    lemma_scaled_fraction_bounds(e.3 - r.1, rect.max_y - rect.min_y, e.3 - e.2);
}

/// Each rotated corner sits on the rotated extent's edges, and so projects to
/// a corner of `rect`: `min` where it is on the low edge, `max` otherwise
/// (the Y axis inverted).
proof fn lemma_corner_projection(b: Bounds, k: int, rect: DisplayRect, i: int)
    requires
        bounds_wf(b),
        0 <= k < 4,
        0 <= i < 4,
    ensures
        ({
            let c = rotated_corner(b, i, k);
            let e = rotated_extent(b, k);
            &&& c.0 == e.0 || c.0 == e.1
            &&& c.1 == e.2 || c.1 == e.3
            &&& e.0 < e.1 && e.2 < e.3
            &&& general_projection(b, k, rect, corner_point(b, i)) == Some(
                (
                    if c.0 == e.0 {
                        rect.min_x as int
                    } else {
                        rect.max_x as int
                    },
                    if c.1 == e.3 {
                        rect.min_y as int
                    } else {
                        rect.max_y as int
                    },
                ),
            )
        }),
{
    let c = rotated_corner(b, i, k);
    let e = rotated_extent(b, k);
    assert(corner_point(b, i).x as int == corner(b, i).0);
    assert(corner_point(b, i).y as int == corner(b, i).1);
    assert(c.0 == e.0 || c.0 == e.1);
    assert(c.1 == e.2 || c.1 == e.3);
    lemma_scaled_fraction_ends(rect.max_x - rect.min_x, e.1 - e.0);
    lemma_scaled_fraction_ends(rect.max_y - rect.min_y, e.3 - e.2);
}

/// The four corners of well-formed bounds project onto the four corners of
/// the display rectangle, one each, on the bounds-based path.
pub proof fn lemma_corners_project_to_corners(m: GameMap, rect: DisplayRect)
    requires
        m.bounds matches Some(b) && bounds_wf(b),
        standard_rotation(m),
        uses_bounds(m),
        rect.min_x < rect.max_x,
        rect.min_y < rect.max_y,
    ensures
        forall|i: int|
            0 <= i < 4 ==> lands_on_corner(
                #[trigger] projection(m, rect, corner_point(m.bounds.unwrap(), i)),
                rect,
            ),
        forall|i: int, j: int|
            0 <= i < j < 4 ==> #[trigger] projection(m, rect, corner_point(m.bounds.unwrap(), i))
                != #[trigger] projection(m, rect, corner_point(m.bounds.unwrap(), j)),
{
    let b = m.bounds.unwrap();
    let k = lemma_standard_turns(m);
    lemma_corner_projection(b, k, rect, 0);
    lemma_corner_projection(b, k, rect, 1);
    lemma_corner_projection(b, k, rect, 2);
    lemma_corner_projection(b, k, rect, 3);
}

} // verus!
