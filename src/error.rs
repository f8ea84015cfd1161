//! Errors of the build pipeline.
use vstd::prelude::*;

verus! {

/// Why a build run stopped. Outside failures carry their message as text.
#[derive(Clone, Debug)]
pub enum FetchError {
    Http(String),
    GraphQL(String),
    GraphQLMissingData,
    HttpStatus { resource: String, status: u16 },
    Json(String),
    SvgParse(String),
    PixmapCreation,
    PngSave(String),
    Image(String),
    Io(String),
    Ron(String),
    ProgressTemplate(String),
    Semaphore(String),
    Join(String),
    MissingMapName { name: String },
    MissingMapSource { name: String },
    MissingMinZoom { name: String },
    MissingMaxZoom { name: String },
    /// The tile grid's zoom or tile size gives no canvas that fits in memory.
    InvalidTileGrid { name: String },
}

} // verus!
