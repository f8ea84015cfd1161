//! The map bundle's records.
//!
//! Every real quantity (a coordinate, a size, an angle, a transform component)
//! is a fixed-point number: an `i64` count of thousandths, see `FIXED_SCALE`.
use vstd::prelude::*;

verus! {

/// Number of fixed-point steps in one whole unit.
pub const FIXED_SCALE: i64 = 1000;

/// A point `[x, y]` in game coordinates.
#[derive(Clone, Copy, Debug, PartialEq, Eq, Structural)]
pub struct Point {
    pub x: i64,
    pub y: i64,
}

/// A point `[x, y, z]` in game coordinates (`y` is the height).
#[derive(Clone, Copy, Debug, PartialEq, Eq, Structural)]
pub struct Point3 {
    pub x: i64,
    pub y: i64,
    pub z: i64,
}

/// A `[width, height]` pair.
#[derive(Clone, Copy, Debug, PartialEq, Eq, Structural)]
pub struct Size2 {
    pub width: i64,
    pub height: i64,
}

/// Map bounds `[[maxX, minY], [minX, maxY]]`: two opposite corners.
#[derive(Clone, Copy, Debug, PartialEq, Eq, Structural)]
pub struct Bounds {
    pub corner0: Point,
    pub corner1: Point,
}

/// A height interval `[min, max]`.
#[derive(Clone, Copy, Debug, PartialEq, Eq, Structural)]
pub struct HeightRange {
    pub min: i64,
    pub max: i64,
}

/// The affine transform `[scaleX, marginX, scaleY, marginY]`.
#[derive(Clone, Copy, Debug, PartialEq, Eq, Structural)]
pub struct Transform {
    pub scale_x: i64,
    pub margin_x: i64,
    pub scale_y: i64,
    pub margin_y: i64,
}

/// An interactive map for one location.
#[derive(Clone, Debug)]
pub struct GameMap {
    /// Stable slug, unique over the bundle.
    pub normalized_name: String,
    /// Human-readable display name.
    pub name: String,
    /// Relative path of the map's raster.
    pub image_path: String,
    /// Size of the raster in the units that the projection normalises by.
    pub image_size: Size2,
    /// Size in world units: from `bounds` when present, else `image_size`.
    pub logical_size: Size2,
    pub alt_maps: Option<Vec<String>>,
    pub author: Option<String>,
    pub author_link: Option<String>,
    pub transform: Option<Transform>,
    /// Rotation in thousandths of a degree.
    pub coordinate_rotation: Option<i64>,
    pub bounds: Option<Bounds>,
    pub height_range: Option<HeightRange>,
    pub layers: Option<Vec<Layer>>,
    pub labels: Option<Vec<Label>>,
    pub spawns: Option<Vec<Spawn>>,
    pub extracts: Option<Vec<Extract>>,
}

/// A floor level or area of a map.
#[derive(Clone, Debug)]
pub struct Layer {
    pub name: String,
    pub svg_layer: Option<String>,
    pub tile_path: Option<String>,
    pub show: bool,
    pub extents: Vec<Extent>,
}

/// Height range and areas in which a layer becomes visible.
#[derive(Clone, Debug)]
pub struct Extent {
    pub height: HeightRange,
    pub bounds: Option<Vec<ExtentBound>>,
}

/// A named rectangular area within an extent.
#[derive(Clone, Debug)]
pub struct ExtentBound {
    pub point1: Point,
    pub point2: Point,
    pub name: String,
}

/// A text label placed on the map.
#[derive(Clone, Debug)]
pub struct Label {
    pub position: Point,
    pub text: String,
    /// Rotation in thousandths of a degree.
    pub rotation: Option<i64>,
    pub size: Option<i32>,
    pub top: Option<i64>,
    pub bottom: Option<i64>,
}

/// A player spawn point.
#[derive(Clone, Debug)]
pub struct Spawn {
    pub position: Point3,
    pub sides: Vec<String>,
    pub categories: Vec<String>,
}

/// An extraction point.
#[derive(Clone, Debug)]
pub struct Extract {
    pub name: String,
    /// `"pmc"`, `"scav"` or `"shared"`.
    pub faction: String,
    pub position: Option<Point3>,
}

/// Decoded RGBA pixels, four bytes per pixel, row by row.
#[derive(Clone, Debug)]
pub struct DecodedImage {
    pub pixels: Vec<u8>,
    pub width: u32,
    pub height: u32,
}

impl DecodedImage {
    /// The pixel buffer holds exactly `width * height` RGBA pixels.
    pub open spec fn wf(&self) -> bool {
        self.pixels@.len() == 4 * (self.width as int) * (self.height as int)
    }
}

} // verus!
