//! Tile pyramids: choosing the zoom level, naming the tiles, and composing
//! the downloaded tiles into one square canvas.
use vstd::prelude::*;
use vstd::arithmetic::div_mod::lemma_fundamental_div_mod_converse;
use crate::error::FetchError;
use crate::model::DecodedImage;

verus! {

/// Tile size used when a tiled map does not give one.
pub const DEFAULT_TILE_SIZE: i32 = 256;

/// Largest canvas side, in pixels, that a tile grid may compose to: every
/// byte index of the RGBA canvas then fits a `u64`.
pub const MAX_CANVAS_SIDE: u64 = 1073741824;

/// Most tile downloads in flight at once.
pub const TILE_DOWNLOAD_CONCURRENCY: usize = 32;

/// The grid chosen for a tiled map.
#[derive(Clone, Copy, Debug, PartialEq, Eq, Structural)]
pub struct TilePlan {
    pub zoom: u32,
    /// `2^zoom` tiles on each axis.
    pub tiles_per_axis: u32,
    pub tile_size: u32,
    /// `tiles_per_axis * tile_size` pixels on each side.
    pub canvas_side: u32,
}

/// One tile to download.
#[derive(Clone, Debug)]
pub struct TileRequest {
    pub x: u32,
    pub y: u32,
    pub url: String,
}

/// A downloaded tile: its grid position and encoded image bytes.
#[derive(Clone, Debug)]
pub struct FetchedTile {
    pub x: u32,
    pub y: u32,
    pub bytes: Vec<u8>,
}

pub open spec fn pow2(n: nat) -> nat
    decreases n,
{
    if n == 0 {
        1
    } else {
        2 * pow2((n - 1) as nat)
    }
}

/// The zoom offset lowers the maximum zoom, never below the minimum.
pub open spec fn target_zoom(min_zoom: int, max_zoom: int, zoom_offset: int) -> int {
    if max_zoom - zoom_offset >= min_zoom {
        max_zoom - zoom_offset
    } else {
        min_zoom
    }
}

/// The grid at `zoom` with `tile_size` pixels per tile has a canvas that fits.
pub open spec fn grid_fits(zoom: int, tile_size: int) -> bool {
    zoom >= 0 && tile_size > 0 && pow2(zoom as nat) * tile_size <= MAX_CANVAS_SIDE
}

pub open spec fn plan_for(p: TilePlan, zoom: int, tile_size: int) -> bool {
    &&& p.zoom == zoom
    &&& p.tiles_per_axis == pow2(zoom as nat)
    &&& p.tile_size == tile_size
    &&& p.canvas_side == pow2(zoom as nat) * tile_size
}

proof fn lemma_pow2_grows(a: nat, b: nat)
    requires
        a <= b,
    ensures
        1 <= pow2(a) <= pow2(b),
    decreases b,
{
    if b > a {
        lemma_pow2_grows(a, (b - 1) as nat);
    } else if a > 0 {
        lemma_pow2_grows((a - 1) as nat, (a - 1) as nat);
    }
}

/// Chooses the zoom level and grid of a tiled map; `None` when no canvas of
/// at most `MAX_CANVAS_SIDE` pixels a side holds that grid.
pub fn tile_plan(tile_size: i32, min_zoom: i32, max_zoom: i32, zoom_offset: i32) -> (r: Option<
    TilePlan,
>)
    ensures
        r.is_some() == grid_fits(
            target_zoom(min_zoom as int, max_zoom as int, zoom_offset as int),
            tile_size as int,
        ),
        r matches Some(p) ==> plan_for(
            p,
            target_zoom(min_zoom as int, max_zoom as int, zoom_offset as int),
            tile_size as int,
        ),
{
    let lowered: i64 = max_zoom as i64 - zoom_offset as i64;
    let zoom: i64 = if lowered >= min_zoom as i64 {
        lowered
    } else {
        min_zoom as i64
    };
    assert(zoom == target_zoom(min_zoom as int, max_zoom as int, zoom_offset as int));
    if zoom < 0 || tile_size <= 0 || tile_size as u64 > MAX_CANVAS_SIDE {
        proof {
            if zoom >= 0 && tile_size > 0 {
                lemma_pow2_grows(0, zoom as nat);
                assert(pow2(zoom as nat) * tile_size >= tile_size) by (nonlinear_arith)
                    requires
                        pow2(zoom as nat) >= 1,
                        tile_size > 0,
                ;
            }
            assert(!grid_fits(zoom as int, tile_size as int));
        }
        return None;
    }
    let ts: u64 = tile_size as u64;
    let mut n: u64 = 1;
    let mut i: i64 = 0;
    assert(pow2(0) == 1);
    while i < zoom
        invariant
            zoom == target_zoom(min_zoom as int, max_zoom as int, zoom_offset as int),
            ts == tile_size,
            0 <= i <= zoom,
            n == pow2(i as nat),
            1 <= n <= MAX_CANVAS_SIDE,
            n * ts <= MAX_CANVAS_SIDE,
            1 <= ts <= MAX_CANVAS_SIDE,
        decreases zoom - i,
    {
        assert(n * 2 * ts == 2 * (n * ts)) by (nonlinear_arith);
        assert(n <= n * ts) by (nonlinear_arith)
            requires
                ts >= 1,
                n >= 0,
        ;
        if n * 2 * ts > MAX_CANVAS_SIDE {
            proof {
                assert(pow2((i + 1) as nat) == 2 * pow2(i as nat));
                lemma_pow2_grows((i + 1) as nat, zoom as nat);
                assert(pow2(zoom as nat) * ts >= pow2((i + 1) as nat) * ts) by (nonlinear_arith)
                    requires
                        pow2(zoom as nat) >= pow2((i + 1) as nat),
                        ts >= 1,
                ;
                assert(pow2((i + 1) as nat) * ts == n * 2 * ts) by (nonlinear_arith)
                    requires
                        pow2((i + 1) as nat) == 2 * n,
                ;
                assert(zoom as int == target_zoom(min_zoom as int, max_zoom as int, zoom_offset as int));
                assert(!grid_fits(zoom as int, tile_size as int));
            }
            return None;
        }
        n = n * 2;
        i = i + 1;
    }
    assert(n <= n * ts) by (nonlinear_arith)
        requires
            ts >= 1,
            n >= 0,
    ;
    Some(
        TilePlan {
            zoom: zoom as u32,
            tiles_per_axis: n as u32,
            tile_size: ts as u32,
            canvas_side: (n * ts) as u32,
        },
    )
}

/// The decimal digits of `n`.
pub open spec fn decimal(n: nat) -> Seq<char>
    decreases n,
{
    if n < 10 {
        seq![(n + '0' as nat) as char]
    } else {
        decimal(n / 10).push(((n % 10) + '0' as nat) as char)
    }
}

/// `s` with every occurrence of the non-empty `from` replaced by `to`; the
/// occurrences are taken from left to right and do not overlap.
pub open spec fn replaced(s: Seq<char>, from: Seq<char>, to: Seq<char>) -> Seq<char>
    decreases s.len(),
{
    if from.len() == 0 || s.len() < from.len() {
        s
    } else if s.take(from.len() as int) == from {
        to + replaced(s.skip(from.len() as int), from, to)
    } else {
        seq![s[0]] + replaced(s.skip(1), from, to)
    }
}

/// Relies on `str::replace`: every non-overlapping occurrence of `from`,
/// found from left to right, replaced by `to`.
#[verifier::external_body]
fn replace_text(s: &str, from: &str, to: &str) -> (r: String)
    requires
        from@.len() > 0,
    ensures
        r@ == replaced(s@, from@, to@),
{
    s.replace(from, to)
}

/// Relies on `u32`'s `Display` (through `to_string`): its decimal digits,
/// without sign or leading zeros.
#[verifier::external_body]
fn decimal_text(n: u32) -> (r: String)
    ensures
        r@ == decimal(n as nat),
{
    n.to_string()
}

/// The template with `{z}`, `{x}` and `{y}` replaced by the tile's numbers.
pub open spec fn tile_url_of(template: Seq<char>, z: nat, x: nat, y: nat) -> Seq<char> {
    replaced(
        replaced(replaced(template, "{z}"@, decimal(z)), "{x}"@, decimal(x)),
        "{y}"@,
        decimal(y),
    )
}

pub fn tile_url(template: &str, z: u32, x: u32, y: u32) -> (r: String)
    ensures
        r@ == tile_url_of(template@, z as nat, x as nat, y as nat),
{
    proof {
        reveal_strlit("{z}");
        reveal_strlit("{x}");
        reveal_strlit("{y}");
    }
    let zs = decimal_text(z);
    let xs = decimal_text(x);
    let ys = decimal_text(y);
    let a = replace_text(template, "{z}", zs.as_str());
    let b = replace_text(a.as_str(), "{x}", xs.as_str());
    replace_text(b.as_str(), "{y}", ys.as_str())
}

/// Every tile of the grid, column by column: entry `i` is tile
/// `(i / n, i % n)` for `n` tiles per axis.
pub fn tile_requests(template: &str, plan: &TilePlan) -> (r: Vec<TileRequest>)
    requires
        1 <= plan.tiles_per_axis <= MAX_CANVAS_SIDE,
    ensures
        r@.len() == plan.tiles_per_axis * plan.tiles_per_axis,
        forall|i: int|
            0 <= i < r@.len() ==> {
                let t = #[trigger] r@[i];
                &&& t.x == i / plan.tiles_per_axis as int
                &&& t.y == i % plan.tiles_per_axis as int
                &&& t.url@ == tile_url_of(template@, plan.zoom as nat, t.x as nat, t.y as nat)
            },
{
    let n: u64 = plan.tiles_per_axis as u64;
    assert(n * n <= MAX_CANVAS_SIDE * MAX_CANVAS_SIDE) by (nonlinear_arith)
        requires
            n <= MAX_CANVAS_SIDE,
    ;
    let total: u64 = n * n;
    let mut out: Vec<TileRequest> = Vec::new();
    let mut i: u64 = 0;
    while i < total
        invariant
            total == n * n,
            n == plan.tiles_per_axis,
            1 <= n <= MAX_CANVAS_SIDE,
            i <= total,
            out@.len() == i,
            forall|j: int|
                0 <= j < i ==> {
                    let t = #[trigger] out@[j];
                    &&& t.x == j / n as int
                    &&& t.y == j % n as int
                    &&& t.url@ == tile_url_of(template@, plan.zoom as nat, t.x as nat, t.y as nat)
                },
        decreases total - i,
    {
        let x: u32 = (i / n) as u32;
        let y: u32 = (i % n) as u32;
        proof {
            assert(i / n < n) by (nonlinear_arith)
                requires
                    i < n * n,
                    n >= 1,
            ;
        }
        out.push(TileRequest { x, y, url: tile_url(template, plan.zoom, x, y) });
        i = i + 1;
    }
    out
}

pub open spec fn all_fetched(results: Seq<Result<FetchedTile, FetchError>>) -> bool {
    forall|i: int| 0 <= i < results.len() ==> (#[trigger] results[i]) is Ok
}

/// Index of the first failed download.
pub open spec fn first_failure(results: Seq<Result<FetchedTile, FetchError>>) -> int
    decreases results.len(),
{
    if results.len() == 0 || results[0] is Err {
        0
    } else {
        1 + first_failure(results.drop_first())
    }
}

/// All downloaded tiles, in order, when every download succeeded; else the
/// first failure: one failed tile fails the whole grid.
pub fn collect_tiles(results: Vec<Result<FetchedTile, FetchError>>) -> (r: Result<
    Vec<FetchedTile>,
    FetchError,
>)
    ensures
        r.is_ok() == all_fetched(results@),
        r matches Ok(tiles) ==> tiles@.len() == results@.len() && forall|i: int|
            0 <= i < results@.len() ==> results@[i] == Ok::<FetchedTile, FetchError>(
                #[trigger] tiles@[i],
            ),
        r matches Err(e) ==> results@[first_failure(results@)] == Err::<FetchedTile, FetchError>(e),
{
    let ghost orig = results@;
    let total = results.len();
    let mut rest = results;
    let mut out: Vec<FetchedTile> = Vec::new();
    while rest.len() > 0
        invariant
            orig == results@,
            out@.len() + rest@.len() == orig.len(),
            orig.len() == total,
            rest@ == orig.skip(out@.len() as int),
            forall|i: int|
                0 <= i < out@.len() ==> orig[i] == Ok::<FetchedTile, FetchError>(#[trigger] out@[i]),
            first_failure(orig) == out@.len() + first_failure(rest@),
        decreases rest@.len(),
    {
        let ghost k = out@.len();
        assert(orig.skip(k as int + 1) =~= orig.skip(k as int).drop_first());
        assert(rest@[0] == orig[k as int]);
        let ghost before = rest@;
        let head = rest.remove(0);
        match head {
            Ok(t) => {
                assert(before.drop_first() =~= rest@);
                out.push(t);
            },
            Err(e) => {
                assert(orig[k as int] == Err::<FetchedTile, FetchError>(e));
                assert(first_failure(before) == 0);
                assert(orig[k as int] is Err);
                return Err(e);
            },
        }
    }
    assert forall|i: int| 0 <= i < orig.len() implies (#[trigger] orig[i]) is Ok by {
        assert(orig[i] == Ok::<FetchedTile, FetchError>(out@[i]));
    }
    Ok(out)
}

/// Byte `c` of pixel `(x, y)` in a row-major RGBA buffer `side` pixels wide.
pub open spec fn rgba_index(side: int, x: int, y: int, c: int) -> int {
    (y * side + x) * 4 + c
}

pub open spec fn in_tile(w: int, h: int, ox: int, oy: int, x: int, y: int) -> bool {
    ox <= x < ox + w && oy <= y < oy + h
}

/// Tile pixel `(dx, dy)` is copied by the time the copy reaches row `ty`,
/// column `tx`.
pub open spec fn copied_before(dx: int, dy: int, ty: int, tx: int) -> bool {
    dy < ty || (dy == ty && dx < tx)
}

/// `new` is `old` with the pixels of the `w` by `h` tile `pixels` that were
/// copied before `(tx, ty)` drawn with their top-left corner at `(ox, oy)`,
/// clipped to the `side` by `side` canvas.
pub open spec fn blit_upto(
    new: Seq<u8>,
    old: Seq<u8>,
    side: int,
    w: int,
    h: int,
    pixels: Seq<u8>,
    ox: int,
    oy: int,
    ty: int,
    tx: int,
) -> bool {
    &&& new.len() == old.len()
    &&& forall|x: int, y: int, c: int|
        0 <= x < side && 0 <= y < side && 0 <= c < 4 ==> new[#[trigger] rgba_index(side, x, y, c)]
            == if in_tile(w, h, ox, oy, x, y) && copied_before(x - ox, y - oy, ty, tx) {
            pixels[rgba_index(w, x - ox, y - oy, c)]
        } else {
            old[rgba_index(side, x, y, c)]
        }
}

/// `new` is `old` with the whole tile drawn at `(ox, oy)`, clipped to the canvas.
pub open spec fn blitted(
    new: Seq<u8>,
    old: Seq<u8>,
    side: int,
    w: int,
    h: int,
    pixels: Seq<u8>,
    ox: int,
    oy: int,
) -> bool {
    blit_upto(new, old, side, w, h, pixels, ox, oy, h, 0)
}

proof fn lemma_rgba_index_bounds(side: int, x: int, y: int, c: int)
    requires
        0 <= x < side,
        0 <= y,
        0 <= c < 4,
    ensures
        0 <= rgba_index(side, x, y, c),
        rgba_index(side, x, y, c) + 4 - c <= (y + 1) * side * 4,
{
    assert(0 <= y * side) by (nonlinear_arith)
        requires
            0 <= y,
            0 <= side,
    ;
    assert((y + 1) * side == y * side + side) by (nonlinear_arith);
}

proof fn lemma_rgba_index_unique(side: int, x1: int, y1: int, c1: int, x2: int, y2: int, c2: int)
    requires
        0 <= x1 < side,
        0 <= x2 < side,
        0 <= y1,
        0 <= y2,
        0 <= c1 < 4,
        0 <= c2 < 4,
        rgba_index(side, x1, y1, c1) == rgba_index(side, x2, y2, c2),
    ensures
        x1 == x2 && y1 == y2 && c1 == c2,
{
    let p1 = y1 * side + x1;
    let p2 = y2 * side + x2;
    lemma_fundamental_div_mod_converse(rgba_index(side, x1, y1, c1), 4, p1, c1);
    lemma_fundamental_div_mod_converse(rgba_index(side, x2, y2, c2), 4, p2, c2);
    lemma_fundamental_div_mod_converse(p1, side, y1, x1);
    lemma_fundamental_div_mod_converse(p2, side, y2, x2);
    assert(p1 * 4 == 4 * p1 && p2 * 4 == 4 * p2 && y1 * side == side * y1 && y2 * side == side
        * y2) by (nonlinear_arith);
}

/// Draws `tile` onto the `side` by `side` RGBA canvas with its top-left
/// corner at `(ox, oy)`; pixels that fall outside the canvas are dropped.
pub fn blit_tile(canvas: &mut Vec<u8>, side: u32, tile: &DecodedImage, ox: u64, oy: u64)
    requires
        side <= MAX_CANVAS_SIDE,
        old(canvas)@.len() == 4 * side * side,
        tile.wf(),
    ensures
        blitted(
            final(canvas)@,
            old(canvas)@,
            side as int,
            tile.width as int,
            tile.height as int,
            tile.pixels@,
            ox as int,
            oy as int,
        ),
{
    let ghost orig = canvas@;
    let clen = canvas.len();
    let plen = tile.pixels.len();
    let w: u64 = tile.width as u64;
    let h: u64 = tile.height as u64;
    let s: u64 = side as u64;
    if ox >= s || oy >= s {
        return;
    }
    let mut ty: u64 = 0;
    while ty < h
        invariant
            w == tile.width,
            h == tile.height,
            s == side,
            s <= MAX_CANVAS_SIDE,
            ox < s,
            oy < s,
            tile.wf(),
            plen == tile.pixels@.len(),
            clen == orig.len(),
            ty <= h,
            orig.len() == 4 * s * s,
            blit_upto(canvas@, orig, s as int, w as int, h as int, tile.pixels@, ox as int, oy as int, ty as int, 0),
        decreases h - ty,
    {
        let mut tx: u64 = 0;
        while tx < w
            invariant
                w == tile.width,
                h == tile.height,
                s == side,
                s <= MAX_CANVAS_SIDE,
                ox < s,
                oy < s,
                tile.wf(),
                plen == tile.pixels@.len(),
                clen == orig.len(),
                ty < h,
                tx <= w,
                orig.len() == 4 * s * s,
                blit_upto(canvas@, orig, s as int, w as int, h as int, tile.pixels@, ox as int, oy as int, ty as int, tx as int),
            decreases w - tx,
        {
            let fx: u64 = ox + tx;
            let fy: u64 = oy + ty;
            let ghost before = canvas@;
            if fx < s && fy < s {
                proof {
                    lemma_rgba_index_bounds(s as int, fx as int, fy as int, 0);
                    lemma_rgba_index_bounds(w as int, tx as int, ty as int, 0);
                    assert((fy + 1) * s <= s * s) by (nonlinear_arith)
                        requires
                            fy < s,
                    ;
                    assert((ty + 1) * w <= h * w) by (nonlinear_arith)
                        requires
                            ty < h,
                    ;
                    assert(h * w == w * h) by (nonlinear_arith);
                    assert((fy + 1) * s * 4 <= 4 * s * s) by (nonlinear_arith)
                        requires
                            (fy + 1) * s <= s * s,
                    ;
                    assert(s * s <= MAX_CANVAS_SIDE * MAX_CANVAS_SIDE) by (nonlinear_arith)
                        requires
                            s <= MAX_CANVAS_SIDE,
                    ;
                    assert((ty + 1) * w * 4 <= 4 * w * h) by (nonlinear_arith)
                        requires
                            (ty + 1) * w <= h * w,
                    ;
                }
                let dst: usize = ((fy * s + fx) * 4) as usize;
                let src: usize = ((ty * w + tx) * 4) as usize;
                let p0 = tile.pixels[src];
                let p1 = tile.pixels[src + 1];
                let p2 = tile.pixels[src + 2];
                let p3 = tile.pixels[src + 3];
                canvas.set(dst, p0);
                canvas.set(dst + 1, p1);
                canvas.set(dst + 2, p2);
                canvas.set(dst + 3, p3);
                assert(canvas@ == before.update(dst as int, p0).update(dst + 1, p1).update(
                    dst + 2,
                    p2,
                ).update(dst + 3, p3));
                proof {
                    assert forall|x: int, y: int, c: int|
                        0 <= x < s && 0 <= y < s && 0 <= c < 4 implies canvas@[#[trigger] rgba_index(
                            s as int,
                            x,
                            y,
                            c,
                        )] == if in_tile(w as int, h as int, ox as int, oy as int, x, y)
                            && copied_before(x - ox, y - oy, ty as int, tx + 1) {
                            tile.pixels@[rgba_index(w as int, x - ox, y - oy, c)]
                        } else {
                            orig[rgba_index(s as int, x, y, c)]
                        } by {
                        lemma_rgba_index_bounds(s as int, x, y, c);
                        if x == fx && y == fy {
                            assert(rgba_index(s as int, x, y, c) == dst + c);
                            assert(rgba_index(w as int, x - ox, y - oy, c) == src + c);
                            if c == 0 {
                            } else if c == 1 {
                            } else if c == 2 {
                            } else {
                            }
                        } else {
                            let i = rgba_index(s as int, x, y, c);
                            if i >= dst && i < dst + 4 {
                                lemma_rgba_index_unique(s as int, x, y, c, fx as int, fy as int, i - dst);
                            }
                            assert(i != dst as int && i != dst + 1 && i != dst + 2 && i != dst + 3);
                            assert((y + 1) * s * 4 <= 4 * s * s) by (nonlinear_arith)
                                requires
                                    0 <= y < s,
                            ;
                            assert(0 <= i < before.len());
                            assert(canvas@[i] == before[i]);
                            assert(before[i] == if in_tile(w as int, h as int, ox as int, oy as int, x, y)
                                && copied_before(x - ox, y - oy, ty as int, tx as int) {
                                tile.pixels@[rgba_index(w as int, x - ox, y - oy, c)]
                            } else {
                                orig[rgba_index(s as int, x, y, c)]
                            });
                            assert(copied_before(x - ox, y - oy, ty as int, tx + 1) == copied_before(
                                x - ox,
                                y - oy,
                                ty as int,
                                tx as int,
                            ));
                        }
                    }
                }
            } else {
                proof {
                    assert forall|x: int, y: int, c: int|
                        0 <= x < s && 0 <= y < s && 0 <= c < 4 implies canvas@[#[trigger] rgba_index(
                            s as int,
                            x,
                            y,
                            c,
                        )] == if in_tile(w as int, h as int, ox as int, oy as int, x, y)
                            && copied_before(x - ox, y - oy, ty as int, tx + 1) {
                            tile.pixels@[rgba_index(w as int, x - ox, y - oy, c)]
                        } else {
                            orig[rgba_index(s as int, x, y, c)]
                        } by {
                        assert(canvas@[rgba_index(s as int, x, y, c)] == if in_tile(
                            w as int,
                            h as int,
                            ox as int,
                            oy as int,
                            x,
                            y,
                        ) && copied_before(x - ox, y - oy, ty as int, tx as int) {
                            tile.pixels@[rgba_index(w as int, x - ox, y - oy, c)]
                        } else {
                            orig[rgba_index(s as int, x, y, c)]
                        });
                    }
                }
            }
            tx = tx + 1;
        }
        ty = ty + 1;
    }
}

/// Byte `i` of `old` after drawing the tile at `(ox, oy)`.
pub open spec fn blit_byte(
    old: Seq<u8>,
    side: int,
    w: int,
    h: int,
    pixels: Seq<u8>,
    ox: int,
    oy: int,
    i: int,
) -> u8 {
    let x = (i / 4) % side;
    let y = (i / 4) / side;
    let c = i % 4;
    if in_tile(w, h, ox, oy, x, y) {
        pixels[rgba_index(w, x - ox, y - oy, c)]
    } else {
        old[i]
    }
}

/// The `side` by `side` canvas `old` with the tile drawn at `(ox, oy)`.
pub open spec fn blit_of(
    old: Seq<u8>,
    side: int,
    w: int,
    h: int,
    pixels: Seq<u8>,
    ox: int,
    oy: int,
) -> Seq<u8> {
    Seq::new(old.len(), |i: int| blit_byte(old, side, w, h, pixels, ox, oy, i))
}

proof fn lemma_blitted_is_blit_of(
    new: Seq<u8>,
    old: Seq<u8>,
    side: int,
    w: int,
    h: int,
    pixels: Seq<u8>,
    ox: int,
    oy: int,
)
    requires
        side >= 1,
        old.len() == 4 * side * side,
        blitted(new, old, side, w, h, pixels, ox, oy),
    ensures
        new == blit_of(old, side, w, h, pixels, ox, oy),
{
    assert forall|i: int| 0 <= i < new.len() implies new[i] == blit_byte(
        old,
        side,
        w,
        h,
        pixels,
        ox,
        oy,
        i,
    ) by {
        let p = i / 4;
        let x = p % side;
        let y = p / side;
        let c = i % 4;
        vstd::arithmetic::div_mod::lemma_fundamental_div_mod(i, 4);
        vstd::arithmetic::div_mod::lemma_fundamental_div_mod(p, side);
        assert(0 <= p);
        assert(0 <= x < side);
        assert(0 <= y);
        assert(p < side * side) by (nonlinear_arith)
            requires
                i < 4 * side * side,
                i == 4 * p + c,
                0 <= c < 4,
        ;
        assert(y < side) by (nonlinear_arith)
            requires
                p == side * y + x,
                0 <= x < side,
                p < side * side,
                side >= 1,
        ;
        assert(i == rgba_index(side, x, y, c)) by (nonlinear_arith)
            requires
                i == 4 * p + c,
                p == side * y + x,
        ;
    }
    assert(new =~= blit_of(old, side, w, h, pixels, ox, oy));
}

/// The canvas after drawing the first `k` tiles. A tile is drawn at
/// `(x * tile_size, y * tile_size)` when its bytes decode to a whole RGBA
/// image; a tile that does not decode leaves the canvas as it was.
pub open spec fn composed(tiles: Seq<FetchedTile>, side: int, tile_size: int, k: nat) -> Seq<u8>
    decreases k,
{
    if k == 0 {
        Seq::new((4 * side * side) as nat, |i: int| 0u8)
    } else {
        let prev = composed(tiles, side, tile_size, (k - 1) as nat);
        let t = tiles[k - 1];
        match decoded_rgba(t.bytes@) {
            Some(d) => if d.2.len() == 4 * d.0 * d.1 {
                blit_of(prev, side, d.0 as int, d.1 as int, d.2, t.x * tile_size, t.y * tile_size)
            } else {
                prev
            },
            None => prev,
        }
    }
}

proof fn lemma_composed_len(tiles: Seq<FetchedTile>, side: int, tile_size: int, k: nat)
    requires
        side >= 0,
    ensures
        composed(tiles, side, tile_size, k).len() == 4 * side * side,
    decreases k,
{
    assert(side * side >= 0) by (nonlinear_arith)
        requires
            side >= 0,
    ;
    if k > 0 {
        lemma_composed_len(tiles, side, tile_size, (k - 1) as nat);
    }
}

/// Composes downloaded tiles into one `canvas_side` square RGBA canvas,
/// starting from transparent black. A tile whose bytes do not decode leaves
/// its cell transparent: only a failed download fails the grid (see
/// `collect_tiles`).
pub fn compose_tiles(plan: &TilePlan, tiles: &Vec<FetchedTile>) -> (r: Vec<u8>)
    requires
        1 <= plan.canvas_side <= MAX_CANVAS_SIDE,
        4 * plan.canvas_side * plan.canvas_side <= usize::MAX,
    ensures
        r@ == composed(tiles@, plan.canvas_side as int, plan.tile_size as int, tiles@.len()),
{
    let side: u32 = plan.canvas_side;
    let ts: u64 = plan.tile_size as u64;
    assert(4 * side * side <= 4 * MAX_CANVAS_SIDE * MAX_CANVAS_SIDE) by (nonlinear_arith)
        requires
            side <= MAX_CANVAS_SIDE,
    ;
    let len: usize = (4 * side as u64 * side as u64) as usize;
    let mut canvas: Vec<u8> = Vec::new();
    let mut j: usize = 0;
    while j < len
        invariant
            j <= len,
            canvas@.len() == j,
            forall|i: int| 0 <= i < j ==> canvas@[i] == 0u8,
        decreases len - j,
    {
        canvas.push(0u8);
        j = j + 1;
    }
    assert(canvas@ =~= composed(tiles@, side as int, ts as int, 0));
    let mut k: usize = 0;
    while k < tiles.len()
        invariant
            side == plan.canvas_side,
            ts == plan.tile_size,
            1 <= side <= MAX_CANVAS_SIDE,
            k <= tiles@.len(),
            canvas@ == composed(tiles@, side as int, ts as int, k as nat),
        decreases tiles@.len() - k,
    {
        proof {
            lemma_composed_len(tiles@, side as int, ts as int, k as nat);
        }
        let t = &tiles[k];
        let ghost before = canvas@;
        assert(composed(tiles@, side as int, ts as int, (k + 1) as nat) == match decoded_rgba(
            t.bytes@,
        ) {
            Some(d) => if d.2.len() == 4 * d.0 * d.1 {
                blit_of(before, side as int, d.0 as int, d.1 as int, d.2, t.x * ts, t.y * ts)
            } else {
                before
            },
            None => before,
        });
        let bytes = t.bytes.as_slice();
        assert(bytes@ == t.bytes@);
        match decode_image(bytes) {
            Some(img) => {
                let plen = img.pixels.len();
                assert((img.width as int) * (img.height as int) <= 0xffff_ffff * 0xffff_ffff)
                    by (nonlinear_arith)
                    requires
                        img.width <= 0xffff_ffff,
                        img.height <= 0xffff_ffff,
                ;
                assert((t.x as int) * (ts as int) <= 0xffff_ffff * 0xffff_ffff
                    && (t.y as int) * (ts as int) <= 0xffff_ffff * 0xffff_ffff) by (nonlinear_arith)
                    requires
                        t.x <= 0xffff_ffff,
                        t.y <= 0xffff_ffff,
                        ts <= 0xffff_ffff,
                ;
                assert(4 * ((img.width as int) * (img.height as int)) == 4 * (img.width as int) * (
                img.height as int)) by (nonlinear_arith);
                if plen as u128 == 4 * (img.width as u128 * img.height as u128) {
                    let ox: u64 = t.x as u64 * ts;
                    let oy: u64 = t.y as u64 * ts;
                    blit_tile(&mut canvas, side, &img, ox, oy);
                    proof {
                        lemma_blitted_is_blit_of(
                            canvas@,
                            before,
                            side as int,
                            img.width as int,
                            img.height as int,
                            img.pixels@,
                            ox as int,
                            oy as int,
                        );
                    }
                }
            },
            None => {},
        }
        k = k + 1;
    }
    canvas
}

/// What `image::load_from_memory` decodes from these bytes, as RGBA:
/// `(width, height, pixels)`, or `None` when the bytes are no image it reads.
pub uninterp spec fn decoded_rgba(bytes: Seq<u8>) -> Option<(u32, u32, Seq<u8>)>;

/// Relies on `image::load_from_memory`, converted to RGBA with
/// `DynamicImage::to_rgba8`: the decoded image depends on the bytes alone.
#[verifier::external_body]
fn decode_image(bytes: &[u8]) -> (r: Option<DecodedImage>)
    ensures
        match decoded_rgba(bytes@) {
            None => r is None,
            Some(d) => r matches Some(img) && img.width == d.0 && img.height == d.1
                && img.pixels@ == d.2,
        },
{
    match image::load_from_memory(bytes) {
        Ok(img) => {
            let rgba = img.to_rgba8();
            let (width, height) = rgba.dimensions();
            Some(DecodedImage { pixels: rgba.into_raw(), width, height })
        },
        Err(_) => None,
    }
}

} // verus!
