//! Raster assets: where a map's raster lives, which size it reports, and
//! whether a cached raster is reused.
use vstd::prelude::*;
use crate::model::{Bounds, Size2, FIXED_SCALE};
use crate::pyramid::TilePlan;

verus! {

/// Supersampling factor for rendering vector sources.
pub const SVG_RENDER_SCALE: i64 = 2;

/// Widest raster, in pixels, that a vector source renders to: four bytes a
/// pixel must fit a row length in an `i32`.
pub const MAX_RENDER_WIDTH: i64 = 536_870_911;

/// Tallest raster, in pixels, that a vector source renders to.
pub const MAX_RENDER_HEIGHT: i64 = 4_294_967_295;

/// Pixel dimensions of a raster file.
#[derive(Clone, Copy, Debug, PartialEq, Eq, Structural)]
pub struct PixelSize {
    pub width: u32,
    pub height: u32,
}

/// A map's raster: its relative path and the size it reports.
#[derive(Clone, Debug)]
pub struct RasterAsset {
    pub image_path: String,
    pub image_size: Size2,
}

/// How a map's raster is produced.
#[derive(Clone, Debug)]
pub enum AssetJob {
    /// Render the vector document at `url`.
    Svg { url: String },
    /// Download and compose the tile grid `plan` from `template`.
    Tiles { template: String, plan: TilePlan },
}

/// What to do for a map's raster.
#[derive(Clone, Copy, Debug, PartialEq, Eq, Structural)]
pub enum BuildStep {
    /// A cached raster stands; report this size and fetch nothing.
    Reuse(Size2),
    /// Fetch the sources and build the raster.
    Fetch,
}

/// Relative path of a map's raster, as the bundle records it.
pub open spec fn image_path_of(name: Seq<char>) -> Seq<char> {
    "maps/"@ + name + ".png"@
}

/// Path of a map's raster under the project directory.
pub open spec fn image_disk_path_of(name: Seq<char>) -> Seq<char> {
    "assets/maps/"@ + name + ".png"@
}

pub fn image_path(name: &str) -> (r: String)
    ensures
        r@ == image_path_of(name@),
{
    let mut s = String::from_str("maps/");
    s.append(name);
    s.append(".png");
    s
}

pub fn image_disk_path(name: &str) -> (r: String)
    ensures
        r@ == image_disk_path_of(name@),
{
    let mut s = String::from_str("assets/maps/");
    s.append(name);
    s.append(".png");
    s
}

/// Pixels of the supersampled raster for a vector source of `source`
/// (thousandths): `source * SVG_RENDER_SCALE`, truncated to whole pixels.
pub open spec fn render_side(source: int) -> int {
    source * (SVG_RENDER_SCALE as int) / (FIXED_SCALE as int)
}

/// The raster size for a vector source, when both sides are at least one
/// pixel, the width at most `MAX_RENDER_WIDTH` and the height at most
/// `MAX_RENDER_HEIGHT`.
pub open spec fn svg_render_size_of(source: Size2) -> Option<PixelSize> {
    let w = render_side(source.width as int);
    let h = render_side(source.height as int);
    if 1 <= w <= MAX_RENDER_WIDTH && 1 <= h <= MAX_RENDER_HEIGHT {
        Some(PixelSize { width: w as u32, height: h as u32 })
    } else {
        None
    }
}

pub fn svg_render_size(source: Size2) -> (r: Option<PixelSize>)
    ensures
        r == svg_render_size_of(source),
{
    if source.width < 0 || source.height < 0 {
        return None;
    }
    let w: i64 = source.width / 1000 * 2 + (source.width % 1000) * 2 / 1000;
    let h: i64 = source.height / 1000 * 2 + (source.height % 1000) * 2 / 1000;
    if 1 <= w && w <= MAX_RENDER_WIDTH && 1 <= h && h <= MAX_RENDER_HEIGHT {
        Some(PixelSize { width: w as u32, height: h as u32 })
    } else {
        None
    }
}

/// The source size (thousandths) of a cached supersampled raster.
pub open spec fn svg_cached_size_of(px: PixelSize) -> Size2 {
    Size2 {
        width: (px.width * (FIXED_SCALE as int) / (SVG_RENDER_SCALE as int)) as i64,
        height: (px.height * (FIXED_SCALE as int) / (SVG_RENDER_SCALE as int)) as i64,
    }
}

/// A raster's pixel size in thousandths.
pub open spec fn pixel_size_of(px: PixelSize) -> Size2 {
    Size2 { width: (px.width * FIXED_SCALE) as i64, height: (px.height * FIXED_SCALE) as i64 }
}

/// The size a freshly composed tile grid reports: the canvas.
pub open spec fn tile_image_size_of(plan: TilePlan) -> Size2 {
    Size2 {
        width: (plan.canvas_side * FIXED_SCALE) as i64,
        height: (plan.canvas_side * FIXED_SCALE) as i64,
    }
}

pub fn tile_image_size(plan: &TilePlan) -> (r: Size2)
    ensures
        r == tile_image_size_of(*plan),
{
    Size2 { width: plan.canvas_side as i64 * 1000, height: plan.canvas_side as i64 * 1000 }
}

/// A cached raster is reused unless a rebuild is forced. The reused raster
/// reports its pixel size, divided by the supersampling factor for a vector
/// source.
pub open spec fn build_step_of(job: AssetJob, cached: Option<PixelSize>, force: bool) -> BuildStep {
    match cached {
        Some(px) if !force => BuildStep::Reuse(
            match job {
                AssetJob::Svg { .. } => svg_cached_size_of(px),
                AssetJob::Tiles { .. } => pixel_size_of(px),
            },
        ),
        _ => BuildStep::Fetch,
    }
}

pub fn build_step(job: &AssetJob, cached: Option<PixelSize>, force: bool) -> (r: BuildStep)
    ensures
        r == build_step_of(*job, cached, force),
{
    match cached {
        Some(px) if !force => BuildStep::Reuse(
            match job {
                AssetJob::Svg { .. } => Size2 {
                    width: px.width as i64 * 500,
                    height: px.height as i64 * 500,
                },
                AssetJob::Tiles { .. } => Size2 {
                    width: px.width as i64 * 1000,
                    height: px.height as i64 * 1000,
                },
            },
        ),
        _ => BuildStep::Fetch,
    }
}

/// World size from the bounds when present (`|maxX - minX|`,
/// `|maxY - minY|`, at most `i64::MAX`), else the raster's size.
pub open spec fn logical_size_of(bounds: Option<Bounds>, image_size: Size2) -> Size2 {
    match bounds {
        Some(b) => Size2 {
            width: saturated_distance(b.corner0.x as int, b.corner1.x as int) as i64,
            height: saturated_distance(b.corner1.y as int, b.corner0.y as int) as i64,
        },
        None => image_size,
    }
}

pub open spec fn saturated_distance(a: int, b: int) -> int {
    let d = if a >= b {
        a - b
    } else {
        b - a
    };
    if d > i64::MAX {
        i64::MAX as int
    } else {
        d
    }
}

fn distance(a: i64, b: i64) -> (r: i64)
    ensures
        r == saturated_distance(a as int, b as int),
{
    let d: i128 = if a >= b {
        a as i128 - b as i128
    } else {
        b as i128 - a as i128
    };
    if d > i64::MAX as i128 {
        i64::MAX
    } else {
        d as i64
    }
}

pub fn logical_size(bounds: &Option<Bounds>, image_size: Size2) -> (r: Size2)
    ensures
        r == logical_size_of(*bounds, image_size),
{
    match bounds {
        Some(b) => Size2 {
            width: distance(b.corner0.x, b.corner1.x),
            height: distance(b.corner1.y, b.corner0.y),
        },
        None => image_size,
    }
}

/// A second build without a forced rebuild fetches nothing and reports
/// the sizes of the first: for a tile grid always, for a vector source
/// whose size is a whole number of half pixels.
pub proof fn lemma_rebuild_reuses_cache(job: AssetJob, built: Size2, bounds: Option<Bounds>)
    requires
        match job {
            AssetJob::Svg { .. } => svg_render_size_of(built) is Some && built.width % 500 == 0
                && built.height % 500 == 0,
            AssetJob::Tiles { plan, .. } => built == tile_image_size_of(plan),
        },
    ensures
        ({
            let px = match job {
                AssetJob::Svg { .. } => svg_render_size_of(built).unwrap(),
                AssetJob::Tiles { plan, .. } => PixelSize {
                    width: plan.canvas_side,
                    height: plan.canvas_side,
                },
            };
            build_step_of(job, Some(px), false) matches BuildStep::Reuse(again) && again == built
                && logical_size_of(bounds, again) == logical_size_of(bounds, built)
        }),
{
    match job {
        AssetJob::Svg { .. } => {
            let jw = built.width / 500;
            let jh = built.height / 500;
            assert(built.width == 500 * jw && built.height == 500 * jh);
            assert(render_side(built.width as int) == jw);
            assert(render_side(built.height as int) == jh);
        },
        AssetJob::Tiles { .. } => {},
    }
}

} // verus!
