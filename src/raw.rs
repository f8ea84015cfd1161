//! Upstream map records as they arrive, and their conversion to bundle records.
use vstd::prelude::*;
use crate::error::FetchError;
use crate::fixed::{parse_fixed, parse_fixed_spec};
use crate::model::{Bounds, Extent, ExtentBound, HeightRange, Label, Layer, Point, Transform};

verus! {

/// A loosely typed upstream value: a number (in thousandths), a string, an
/// array whose entries are numbers or not, or anything else.
#[derive(Clone, Debug)]
pub enum RawValue {
    Number(i64),
    Text(String),
    List(Vec<Option<i64>>),
    Other,
}

/// One map variant of a group.
#[derive(Clone, Debug)]
pub struct RawMap {
    pub alt_maps: Option<Vec<String>>,
    pub projection: String,
    pub author: Option<String>,
    pub author_link: Option<String>,
    pub tile_size: Option<i32>,
    pub min_zoom: Option<i32>,
    pub max_zoom: Option<i32>,
    pub transform: Option<Transform>,
    pub coordinate_rotation: Option<i64>,
    pub bounds: Option<Bounds>,
    pub svg_path: Option<String>,
    pub tile_path: Option<String>,
    pub height_range: Option<HeightRange>,
    pub layers: Option<Vec<RawLayer>>,
    pub labels: Option<Vec<RawLabel>>,
}

/// A location with all its map variants.
#[derive(Clone, Debug)]
pub struct RawMapGroup {
    pub normalized_name: String,
    pub maps: Vec<RawMap>,
}

#[derive(Clone, Debug)]
pub struct RawLayer {
    pub name: String,
    pub svg_layer: Option<String>,
    pub tile_path: Option<String>,
    pub show: bool,
    pub extents: Vec<RawExtent>,
}

/// An extent whose bound areas are positional arrays `[[x1, y1], [x2, y2], "name"]`.
#[derive(Clone, Debug)]
pub struct RawExtent {
    pub height: HeightRange,
    pub bounds: Option<Vec<Vec<RawValue>>>,
}

#[derive(Clone, Debug)]
pub struct RawLabel {
    pub position: Point,
    pub text: String,
    /// A number, a numeric string, or absent.
    pub rotation: Option<RawValue>,
    pub size: Option<i32>,
    pub top: Option<i64>,
    pub bottom: Option<i64>,
}

/// Entry `i` of a numeric list, `0` where it is missing or no number.
pub open spec fn list_number(l: Seq<Option<i64>>, i: int) -> i64 {
    if 0 <= i < l.len() && l[i] is Some {
        l[i].unwrap()
    } else {
        0
    }
}

/// The point held at position `idx`, `(0, 0)` where there is no list.
pub open spec fn point_at(values: Seq<RawValue>, idx: int) -> Point {
    if 0 <= idx < values.len() && values[idx] is List {
        let l = values[idx]->List_0@;
        Point { x: list_number(l, 0), y: list_number(l, 1) }
    } else {
        Point { x: 0, y: 0 }
    }
}

/// The name held at position 2, empty where there is no string.
pub open spec fn name_at(values: Seq<RawValue>) -> Seq<char> {
    if 2 < values.len() && values[2] is Text {
        values[2]->Text_0@
    } else {
        Seq::empty()
    }
}

pub open spec fn bound_from_values(b: ExtentBound, values: Seq<RawValue>) -> bool {
    b.point1 == point_at(values, 0) && b.point2 == point_at(values, 1) && b.name@ == name_at(
        values,
    )
}

fn number_in(l: &Vec<Option<i64>>, i: usize) -> (r: i64)
    ensures
        r == list_number(l@, i as int),
{
    if i < l.len() {
        match l[i] {
            Some(v) => v,
            None => 0,
        }
    } else {
        0
    }
}

fn point_in(values: &Vec<RawValue>, idx: usize) -> (r: Point)
    ensures
        r == point_at(values@, idx as int),
{
    if idx < values.len() {
        match &values[idx] {
            RawValue::List(l) => Point { x: number_in(l, 0), y: number_in(l, 1) },
            _ => Point { x: 0, y: 0 },
        }
    } else {
        Point { x: 0, y: 0 }
    }
}

/// Reads a bound area from its positional array; missing parts default to
/// `0` and the empty name.
pub fn extent_bound_from_values(values: &Vec<RawValue>) -> (r: ExtentBound)
    ensures
        bound_from_values(r, values@),
{
    let name = if 2 < values.len() {
        match &values[2] {
            RawValue::Text(s) => s.clone(),
            _ => String::new(),
        }
    } else {
        String::new()
    };
    ExtentBound { point1: point_in(values, 0), point2: point_in(values, 1), name }
}

/// The decoded rotation: `Some(None)` when absent, `Some(Some(v))` for a
/// number or a numeric string, `None` for anything else.
pub open spec fn rotation_value(v: Option<RawValue>) -> Option<Option<int>> {
    match v {
        None => Some(None),
        Some(RawValue::Number(n)) => Some(Some(n as int)),
        Some(RawValue::Text(s)) => match parse_fixed_spec(s@) {
            Some(x) => Some(Some(x)),
            None => None,
        },
        Some(_) => None,
    }
}

pub open spec fn same_rotation(r: Option<i64>, s: Option<int>) -> bool {
    r.is_some() == s.is_some() && (r.is_some() ==> r.unwrap() as int == s.unwrap())
}

/// Decodes a rotation that arrives as a number or as a numeric string.
pub fn decode_rotation(v: &Option<RawValue>) -> (r: Result<Option<i64>, FetchError>)
    ensures
        r.is_ok() == rotation_value(*v).is_some(),
        r matches Ok(x) ==> same_rotation(x, rotation_value(*v).unwrap()),
        r matches Err(e) ==> e is Json,
{
    match v {
        None => Ok(None),
        Some(RawValue::Number(n)) => Ok(Some(*n)),
        Some(RawValue::Text(s)) => match parse_fixed(s.as_str()) {
            Some(x) => Ok(Some(x)),
            None => Err(FetchError::Json(String::from_str("invalid rotation string: ").concat(s.as_str()))),
        },
        Some(_) => Err(FetchError::Json(String::from_str("expected number or string for rotation"))),
    }
}

/// The label with its rotation decoded.
pub open spec fn label_from(l: Label, raw: RawLabel) -> bool {
    &&& l.position == raw.position
    &&& l.text@ == raw.text@
    &&& same_rotation(l.rotation, rotation_value(raw.rotation).unwrap())
    &&& l.size == raw.size
    &&& l.top == raw.top
    &&& l.bottom == raw.bottom
}

pub fn label_from_raw(raw: &RawLabel) -> (r: Result<Label, FetchError>)
    ensures
        r.is_ok() == rotation_value(raw.rotation).is_some(),
        r matches Ok(l) ==> label_from(l, *raw),
        r matches Err(e) ==> e is Json,
{
    let rotation = decode_rotation(&raw.rotation)?;
    Ok(
        Label {
            position: raw.position,
            text: raw.text.clone(),
            rotation,
            size: raw.size,
            top: raw.top,
            bottom: raw.bottom,
        },
    )
}

pub open spec fn all_rotations_valid(raw: Seq<RawLabel>) -> bool {
    forall|i: int| 0 <= i < raw.len() ==> (#[trigger] rotation_value(raw[i].rotation)).is_some()
}

/// Converts every label; fails on the first rotation that does not decode.
pub fn labels_from_raw(raw: &Vec<RawLabel>) -> (r: Result<Vec<Label>, FetchError>)
    ensures
        r.is_ok() == all_rotations_valid(raw@),
        r matches Err(e) ==> e is Json,
        r matches Ok(ls) ==> ls@.len() == raw@.len() && forall|i: int|
            0 <= i < raw@.len() ==> label_from(#[trigger] ls@[i], raw@[i]),
{
    let mut out: Vec<Label> = Vec::new();
    let mut i: usize = 0;
    while i < raw.len()
        invariant
            i <= raw@.len(),
            out@.len() == i,
            forall|j: int| 0 <= j < i ==> label_from(#[trigger] out@[j], raw@[j]),
            forall|j: int| 0 <= j < i ==> (#[trigger] rotation_value(raw@[j].rotation)).is_some(),
        decreases raw@.len() - i,
    {
        let l = label_from_raw(&raw[i])?;
        out.push(l);
        i = i + 1;
    }
    Ok(out)
}

pub open spec fn extent_from(e: Extent, raw: RawExtent) -> bool {
    &&& e.height == raw.height
    &&& e.bounds.is_some() == raw.bounds.is_some()
    &&& raw.bounds matches Some(rb) ==> e.bounds.unwrap()@.len() == rb@.len() && forall|i: int|
        0 <= i < rb@.len() ==> bound_from_values(#[trigger] e.bounds.unwrap()@[i], rb@[i]@)
}

pub fn extent_from_raw(raw: &RawExtent) -> (r: Extent)
    ensures
        extent_from(r, *raw),
{
    let bounds = match &raw.bounds {
        None => None,
        Some(rb) => {
            let mut out: Vec<ExtentBound> = Vec::new();
            let mut i: usize = 0;
            while i < rb.len()
                invariant
                    i <= rb@.len(),
                    out@.len() == i,
                    forall|j: int| 0 <= j < i ==> bound_from_values(#[trigger] out@[j], rb@[j]@),
                decreases rb@.len() - i,
            {
                out.push(extent_bound_from_values(&rb[i]));
                i = i + 1;
            }
            Some(out)
        },
    };
    Extent { height: raw.height, bounds }
}

pub fn copy_text(o: &Option<String>) -> (r: Option<String>)
    ensures
        r == *o,
{
    match o {
        Some(s) => Some(s.clone()),
        None => None,
    }
}

pub open spec fn layer_from(l: Layer, raw: RawLayer) -> bool {
    &&& l.name@ == raw.name@
    &&& l.svg_layer == raw.svg_layer
    &&& l.tile_path == raw.tile_path
    &&& l.show == raw.show
    &&& l.extents@.len() == raw.extents@.len()
    &&& forall|i: int| 0 <= i < raw.extents@.len() ==> extent_from(#[trigger] l.extents@[i], raw.extents@[i])
}

pub fn layer_from_raw(raw: &RawLayer) -> (r: Layer)
    ensures
        layer_from(r, *raw),
{
    let mut extents: Vec<Extent> = Vec::new();
    let mut i: usize = 0;
    while i < raw.extents.len()
        invariant
            i <= raw.extents@.len(),
            extents@.len() == i,
            forall|j: int| 0 <= j < i ==> extent_from(#[trigger] extents@[j], raw.extents@[j]),
        decreases raw.extents@.len() - i,
    {
        extents.push(extent_from_raw(&raw.extents[i]));
        i = i + 1;
    }
    Layer {
        name: raw.name.clone(),
        svg_layer: copy_text(&raw.svg_layer),
        tile_path: copy_text(&raw.tile_path),
        show: raw.show,
        extents,
    }
}

pub fn layers_from_raw(raw: &Vec<RawLayer>) -> (r: Vec<Layer>)
    ensures
        r@.len() == raw@.len(),
        forall|i: int| 0 <= i < raw@.len() ==> layer_from(#[trigger] r@[i], raw@[i]),
{
    let mut out: Vec<Layer> = Vec::new();
    let mut i: usize = 0;
    while i < raw.len()
        invariant
            i <= raw@.len(),
            out@.len() == i,
            forall|j: int| 0 <= j < i ==> layer_from(#[trigger] out@[j], raw@[j]),
        decreases raw@.len() - i,
    {
        out.push(layer_from_raw(&raw[i]));
        i = i + 1;
    }
    out
}

} // verus!
