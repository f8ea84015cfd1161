//! Building a bundle of interactive game maps and placing world points on
//! their rasters.
//!
//! - `raw`, `enrich`, `plan`: upstream map records and enrichment tables,
//!   normalized into bundle records (`model::GameMap`).
//! - `pyramid`, `raster`: choosing and composing tile grids, sizing vector
//!   renders, and reusing cached rasters.
//! - `geometry`, `overlays`: the game-to-display projection and where the
//!   viewer's markers go.
//!
//! Real quantities are fixed-point thousandths held in `i64`
//! (`model::FIXED_SCALE`), so every computation here is exact integer
//! arithmetic.
pub mod arith;
pub mod enrich;
pub mod error;
pub mod fixed;
pub mod geometry;
pub mod model;
pub mod overlays;
pub mod paths;
pub mod plan;
pub mod pyramid;
pub mod raster;
pub mod raw;
