//! Which markers the viewer draws, and where.
use vstd::prelude::*;
use crate::geometry::{game_to_display, projection, DisplayPoint, DisplayRect};
use crate::model::{Extract, GameMap, Label, Point, Point3, Spawn};

verus! {

/// How far outside the raster (display thousandths) a spawn marker is still drawn.
pub const SPAWN_MARGIN: i64 = 20000;

/// The same for extract markers.
pub const EXTRACT_MARGIN: i64 = 20000;

/// The same for labels and the player marker.
pub const LABEL_MARGIN: i64 = 50000;

/// Which overlays are shown.
#[derive(Clone, Copy, Debug, PartialEq, Eq, Structural)]
pub struct OverlayVisibility {
    pub labels: bool,
    pub spawns: bool,
    pub pmc_extracts: bool,
    pub scav_extracts: bool,
    pub shared_extracts: bool,
    pub player_marker: bool,
}

impl Default for OverlayVisibility {
    /// Everything but the labels.
    fn default() -> (r: Self)
        ensures
            !r.labels && r.spawns && r.pmc_extracts && r.scav_extracts && r.shared_extracts
                && r.player_marker,
    {
        OverlayVisibility {
            labels: false,
            spawns: true,
            pmc_extracts: true,
            scav_extracts: true,
            shared_extracts: true,
            player_marker: true,
        }
    }
}

/// The faction styles of extract markers.
#[derive(Clone, Copy, Debug, PartialEq, Eq, Structural)]
pub enum ExtractKind {
    Pmc,
    Scav,
    Shared,
}

/// What `str::to_lowercase` returns for `s`.
pub uninterp spec fn lower_of(s: Seq<char>) -> Seq<char>;

/// Relies on `str::to_lowercase`: the result depends on the characters alone.
#[verifier::external_body]
fn lowercase(s: &str) -> (r: String)
    ensures
        r@ == lower_of(s@),
{
    s.to_lowercase()
}

/// The marker style for a lower-case faction, when that faction is shown.
pub open spec fn extract_kind_of(lowered: Seq<char>, vis: OverlayVisibility) -> Option<ExtractKind> {
    if lowered == "pmc"@ && vis.pmc_extracts {
        Some(ExtractKind::Pmc)
    } else if lowered == "scav"@ && vis.scav_extracts {
        Some(ExtractKind::Scav)
    } else if lowered == "shared"@ && vis.shared_extracts {
        Some(ExtractKind::Shared)
    } else {
        None
    }
}

fn same_text(a: &String, b: &str) -> (r: bool)
    ensures
        r == (a@ == b@),
{
    *a == String::from_str(b)
}

/// The marker style for an already lower-cased faction name.
pub fn extract_kind_lowered(lowered: &String, vis: &OverlayVisibility) -> (r: Option<ExtractKind>)
    ensures
        r == extract_kind_of(lowered@, *vis),
{
    if same_text(lowered, "pmc") && vis.pmc_extracts {
        Some(ExtractKind::Pmc)
    } else if same_text(lowered, "scav") && vis.scav_extracts {
        Some(ExtractKind::Scav)
    } else if same_text(lowered, "shared") && vis.shared_extracts {
        Some(ExtractKind::Shared)
    } else {
        None
    }
}

/// The marker style for an extract's faction, compared without case.
pub fn extract_kind(faction: &str, vis: &OverlayVisibility) -> (r: Option<ExtractKind>)
    ensures
        r == extract_kind_of(lower_of(faction@), *vis),
{
    let lowered = lowercase(faction);
    extract_kind_lowered(&lowered, vis)
}

/// `rect` grown by `margin` on every side.
pub open spec fn near_rect(d: (int, int), rect: DisplayRect, margin: int) -> bool {
    rect.min_x - margin <= d.0 <= rect.max_x + margin && rect.min_y - margin <= d.1 <= rect.max_y
        + margin
}

/// The ground position `(x, z)` of a world point (`y` is its height).
pub open spec fn ground_of(p: Point3) -> Point {
    Point { x: p.x, y: p.z }
}

/// Where a marker for `p` is drawn: its projection, when that lies within
/// `margin` of `rect`.
pub open spec fn marker_of(m: GameMap, rect: DisplayRect, p: Point, margin: int) -> Option<(int, int)> {
    match projection(m, rect, p) {
        Some(d) => if near_rect(d, rect, margin) {
            Some(d)
        } else {
            None
        },
        None => None,
    }
}

pub open spec fn as_pair_opt(r: Option<DisplayPoint>) -> Option<(int, int)> {
    match r {
        Some(d) => Some((d.x as int, d.y as int)),
        None => None,
    }
}

/// The marker position for `p`, see `marker_of`.
pub fn marker_at(map: &GameMap, rect: &DisplayRect, p: Point, margin: i64) -> (r: Option<
    DisplayPoint,
>)
    requires
        0 <= margin,
    ensures
        as_pair_opt(r) == marker_of(*map, *rect, p, margin as int),
{
    match game_to_display(map, rect, p) {
        Some(d) => {
            let x = d.x as i128;
            let y = d.y as i128;
            let g = margin as i128;
            if rect.min_x as i128 - g <= x && x <= rect.max_x as i128 + g && rect.min_y as i128 - g
                <= y && y <= rect.max_y as i128 + g {
                Some(d)
            } else {
                None
            }
        },
        None => None,
    }
}

/// Where the spawns that project near the raster are drawn, in order.
pub open spec fn spawn_points_of(m: GameMap, spawns: Seq<Spawn>, rect: DisplayRect) -> Seq<(int, int)>
    decreases spawns.len(),
{
    if spawns.len() == 0 {
        Seq::empty()
    } else {
        let prev = spawn_points_of(m, spawns.drop_last(), rect);
        match marker_of(m, rect, ground_of(spawns.last().position), SPAWN_MARGIN as int) {
            Some(d) => prev.push(d),
            None => prev,
        }
    }
}

/// Display positions of the spawn markers on `map` shown in `rect`.
pub fn spawn_points(map: &GameMap, spawns: &Vec<Spawn>, rect: &DisplayRect) -> (r: Vec<DisplayPoint>)
    ensures
        r@.len() == spawn_points_of(*map, spawns@, *rect).len(),
        forall|i: int|
            0 <= i < r@.len() ==> (#[trigger] r@[i].x as int, r@[i].y as int) == spawn_points_of(
                *map,
                spawns@,
                *rect,
            )[i],
{
    let mut out: Vec<DisplayPoint> = Vec::new();
    let mut k: usize = 0;
    while k < spawns.len()
        invariant
            k <= spawns@.len(),
            out@.len() == spawn_points_of(*map, spawns@.take(k as int), *rect).len(),
            forall|i: int|
                0 <= i < out@.len() ==> (#[trigger] out@[i].x as int, out@[i].y as int)
                    == spawn_points_of(*map, spawns@.take(k as int), *rect)[i],
        decreases spawns@.len() - k,
    {
        assert(spawns@.take(k + 1).drop_last() =~= spawns@.take(k as int));
        let s = &spawns[k];
        match marker_at(map, rect, Point { x: s.position.x, y: s.position.z }, SPAWN_MARGIN) {
            Some(d) => out.push(d),
            None => {},
        }
        k = k + 1;
    }
    assert(spawns@.take(k as int) =~= spawns@);
    out
}

/// An extract marker: which extract, its style, and where it is drawn.
#[derive(Clone, Copy, Debug, PartialEq, Eq, Structural)]
pub struct ExtractMarker {
    pub index: usize,
    pub kind: ExtractKind,
    pub at: DisplayPoint,
}

/// The marker for extract `e`: its faction is shown, it has a position, and
/// that position projects near the raster.
pub open spec fn extract_marker_of(
    m: GameMap,
    e: Extract,
    rect: DisplayRect,
    vis: OverlayVisibility,
) -> Option<(ExtractKind, (int, int))> {
    match extract_kind_of(lower_of(e.faction@), vis) {
        None => None,
        Some(kind) => match e.position {
            None => None,
            Some(p) => match marker_of(m, rect, ground_of(p), EXTRACT_MARGIN as int) {
                Some(d) => Some((kind, d)),
                None => None,
            },
        },
    }
}

/// The markers of the first `extracts.len()` extracts, in order, each with
/// its index.
pub open spec fn extract_markers_of(
    m: GameMap,
    extracts: Seq<Extract>,
    rect: DisplayRect,
    vis: OverlayVisibility,
) -> Seq<(int, ExtractKind, (int, int))>
    decreases extracts.len(),
{
    if extracts.len() == 0 {
        Seq::empty()
    } else {
        let prev = extract_markers_of(m, extracts.drop_last(), rect, vis);
        match extract_marker_of(m, extracts.last(), rect, vis) {
            Some((kind, d)) => prev.push((extracts.len() - 1, kind, d)),
            None => prev,
        }
    }
}

pub open spec fn marker_view(x: ExtractMarker) -> (int, ExtractKind, (int, int)) {
    (x.index as int, x.kind, (x.at.x as int, x.at.y as int))
}

/// The extract markers drawn on `map` in `rect` with the overlays `vis`.
pub fn extract_markers(
    map: &GameMap,
    extracts: &Vec<Extract>,
    rect: &DisplayRect,
    vis: &OverlayVisibility,
) -> (r: Vec<ExtractMarker>)
    ensures
        r@.len() == extract_markers_of(*map, extracts@, *rect, *vis).len(),
        forall|i: int|
            0 <= i < r@.len() ==> marker_view(#[trigger] r@[i]) == extract_markers_of(
                *map,
                extracts@,
                *rect,
                *vis,
            )[i],
{
    let mut out: Vec<ExtractMarker> = Vec::new();
    let mut k: usize = 0;
    while k < extracts.len()
        invariant
            k <= extracts@.len(),
            out@.len() == extract_markers_of(*map, extracts@.take(k as int), *rect, *vis).len(),
            forall|i: int|
                0 <= i < out@.len() ==> marker_view(#[trigger] out@[i]) == extract_markers_of(
                    *map,
                    extracts@.take(k as int),
                    *rect,
                    *vis,
                )[i],
        decreases extracts@.len() - k,
    {
        assert(extracts@.take(k + 1).drop_last() =~= extracts@.take(k as int));
        let e = &extracts[k];
        if let Some(kind) = extract_kind(e.faction.as_str(), vis) {
            if let Some(p) = e.position {
                if let Some(d) = marker_at(map, rect, Point { x: p.x, y: p.z }, EXTRACT_MARGIN) {
                    out.push(ExtractMarker { index: k, kind, at: d });
                }
            }
        }
        k = k + 1;
    }
    assert(extracts@.take(k as int) =~= extracts@);
    out
}

/// Where the labels that project near the raster are drawn, with their
/// indices, in order.
pub open spec fn label_points_of(m: GameMap, labels: Seq<Label>, rect: DisplayRect) -> Seq<
    (int, (int, int)),
>
    decreases labels.len(),
{
    if labels.len() == 0 {
        Seq::empty()
    } else {
        let prev = label_points_of(m, labels.drop_last(), rect);
        match marker_of(m, rect, labels.last().position, LABEL_MARGIN as int) {
            Some(d) => prev.push((labels.len() - 1, d)),
            None => prev,
        }
    }
}

/// The labels drawn on `map` in `rect`: each index with its position.
pub fn label_points(map: &GameMap, labels: &Vec<Label>, rect: &DisplayRect) -> (r: Vec<
    (usize, DisplayPoint),
>)
    ensures
        r@.len() == label_points_of(*map, labels@, *rect).len(),
        forall|i: int|
            0 <= i < r@.len() ==> ((#[trigger] r@[i]).0 as int, (r@[i].1.x as int, r@[i].1.y as int))
                == label_points_of(*map, labels@, *rect)[i],
{
    let mut out: Vec<(usize, DisplayPoint)> = Vec::new();
    let mut k: usize = 0;
    while k < labels.len()
        invariant
            k <= labels@.len(),
            out@.len() == label_points_of(*map, labels@.take(k as int), *rect).len(),
            forall|i: int|
                0 <= i < out@.len() ==> ((#[trigger] out@[i]).0 as int, (
                    out@[i].1.x as int,
                    out@[i].1.y as int,
                )) == label_points_of(*map, labels@.take(k as int), *rect)[i],
        decreases labels@.len() - k,
    {
        assert(labels@.take(k + 1).drop_last() =~= labels@.take(k as int));
        match marker_at(map, rect, labels[k].position, LABEL_MARGIN) {
            Some(d) => out.push((k, d)),
            None => {},
        }
        k = k + 1;
    }
    assert(labels@.take(k as int) =~= labels@);
    out
}

/// Where the player marker is drawn for a player at `position`.
pub fn player_point(map: &GameMap, rect: &DisplayRect, position: Point3) -> (r: Option<DisplayPoint>)
    ensures
        as_pair_opt(r) == marker_of(*map, *rect, ground_of(position), LABEL_MARGIN as int),
{
    marker_at(map, rect, Point { x: position.x, y: position.z }, LABEL_MARGIN)
}

} // verus!
