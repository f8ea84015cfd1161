//! From an upstream map group to a bundle record: choosing the interactive
//! variant, resolving its name and raster source, and assembling the map.
use vstd::prelude::*;
use crate::enrich::{
    last_extracts_index, last_name_index, last_spawns_index, lookup_extracts, lookup_name,
    lookup_spawns, same_spawns, Enrichment, MapName,
};
use crate::error::FetchError;
use crate::model::{Bounds, GameMap, HeightRange, Label, Layer, Transform};
use crate::pyramid::{grid_fits, plan_for, target_zoom, tile_plan, DEFAULT_TILE_SIZE};
use crate::raster::{logical_size, logical_size_of, AssetJob, RasterAsset};
use crate::raw::{
    all_rotations_valid, label_from, labels_from_raw, layer_from, layers_from_raw, RawLabel,
    RawLayer, RawMap, RawMapGroup,
};

verus! {

/// The interactive variant of a group, normalized, before its raster exists.
#[derive(Clone, Debug)]
pub struct MapDescriptor {
    pub normalized_name: String,
    pub name: String,
    pub alt_maps: Option<Vec<String>>,
    pub author: Option<String>,
    pub author_link: Option<String>,
    pub transform: Option<Transform>,
    pub coordinate_rotation: Option<i64>,
    pub bounds: Option<Bounds>,
    pub height_range: Option<HeightRange>,
    pub layers: Option<Vec<Layer>>,
    pub labels: Option<Vec<Label>>,
}

/// A group's descriptor and the job that produces its raster.
#[derive(Clone, Debug)]
pub struct GroupPlan {
    pub descriptor: MapDescriptor,
    pub job: AssetJob,
}

/// Index of the first variant whose projection is `"interactive"`.
pub open spec fn interactive_index(maps: Seq<RawMap>) -> Option<int>
    decreases maps.len(),
{
    if maps.len() == 0 {
        None
    } else if maps[0].projection@ == "interactive"@ {
        Some(0)
    } else {
        match interactive_index(maps.drop_first()) {
            Some(i) => Some(i + 1),
            None => None,
        }
    }
}

pub open spec fn labels_valid(labels: Option<Vec<RawLabel>>) -> bool {
    match labels {
        Some(ls) => all_rotations_valid(ls@),
        None => true,
    }
}

pub open spec fn tile_size_or_default(v: RawMap) -> int {
    match v.tile_size {
        Some(t) => t as int,
        None => DEFAULT_TILE_SIZE as int,
    }
}

pub open spec fn zoom_of(v: RawMap, zoom_offset: int) -> int {
    target_zoom(v.min_zoom.unwrap() as int, v.max_zoom.unwrap() as int, zoom_offset)
}

/// The job for a variant: its vector source when it has one, else its tile grid.
pub open spec fn job_for(job: AssetJob, v: RawMap, zoom_offset: int) -> bool {
    match job {
        AssetJob::Svg { url } => v.svg_path == Some(url),
        AssetJob::Tiles { template, plan } => {
            &&& v.svg_path is None
            &&& v.tile_path == Some(template)
            &&& v.min_zoom is Some
            &&& v.max_zoom is Some
            &&& plan_for(plan, zoom_of(v, zoom_offset), tile_size_or_default(v))
        },
    }
}

/// The variant names a source that can be built.
pub open spec fn source_ok(v: RawMap, zoom_offset: int) -> bool {
    v.svg_path is Some || (v.tile_path is Some && v.min_zoom is Some && v.max_zoom is Some
        && grid_fits(zoom_of(v, zoom_offset), tile_size_or_default(v)))
}

pub open spec fn same_layers(out: Option<Vec<Layer>>, raw: Option<Vec<RawLayer>>) -> bool {
    match raw {
        None => out is None,
        Some(rl) => out matches Some(ol) && ol@.len() == rl@.len() && forall|i: int|
            0 <= i < rl@.len() ==> layer_from(#[trigger] ol@[i], rl@[i]),
    }
}

pub open spec fn same_labels(out: Option<Vec<Label>>, raw: Option<Vec<RawLabel>>) -> bool {
    match raw {
        None => out is None,
        Some(rl) => out matches Some(ol) && ol@.len() == rl@.len() && forall|i: int|
            0 <= i < rl@.len() ==> label_from(#[trigger] ol@[i], rl@[i]),
    }
}

/// The descriptor carries the variant's fields, converted.
pub open spec fn descriptor_for(d: MapDescriptor, v: RawMap) -> bool {
    &&& d.alt_maps == v.alt_maps
    &&& d.author == v.author
    &&& d.author_link == v.author_link
    &&& d.transform == v.transform
    &&& d.coordinate_rotation == v.coordinate_rotation
    &&& d.bounds == v.bounds
    &&& d.height_range == v.height_range
    &&& same_layers(d.layers, v.layers)
    &&& same_labels(d.labels, v.labels)
}

proof fn lemma_interactive_index_bound(maps: Seq<RawMap>)
    ensures
        interactive_index(maps) matches Some(i) ==> 0 <= i < maps.len(),
    decreases maps.len(),
{
    if maps.len() > 0 {
        lemma_interactive_index_bound(maps.drop_first());
    }
}

fn find_interactive(maps: &Vec<RawMap>) -> (r: Option<usize>)
    ensures
        r.is_some() == interactive_index(maps@).is_some(),
        r.is_some() ==> r.unwrap() as int == interactive_index(maps@).unwrap(),
        r.is_some() ==> r.unwrap() < maps@.len(),
{
    proof {
        lemma_interactive_index_bound(maps@);
    }
    let interactive = String::from_str("interactive");
    let mut i: usize = 0;
    assert(maps@.skip(0) =~= maps@);
    while i < maps.len()
        invariant
            i <= maps@.len(),
            interactive@ == "interactive"@,
            interactive_index(maps@) == match interactive_index(maps@.skip(i as int)) {
                Some(j) => Some(j + i),
                None => None,
            },
        decreases maps@.len() - i,
    {
        assert(maps@.skip(i as int).drop_first() =~= maps@.skip(i + 1));
        if maps[i].projection == interactive {
            return Some(i);
        }
        i = i + 1;
    }
    assert(maps@.skip(i as int).len() == 0);
    None
}

fn convert_labels(labels: &Option<Vec<RawLabel>>) -> (r: Result<Option<Vec<Label>>, FetchError>)
    ensures
        r.is_ok() == labels_valid(*labels),
        r matches Ok(out) ==> same_labels(out, *labels),
        r matches Err(e) ==> e is Json,
{
    match labels {
        None => Ok(None),
        Some(ls) => match labels_from_raw(ls) {
            Ok(out) => Ok(Some(out)),
            Err(e) => Err(e),
        },
    }
}

/// Every label rotation in every variant of the group decodes.
pub open spec fn group_labels_valid(g: RawMapGroup) -> bool {
    forall|j: int| 0 <= j < g.maps@.len() ==> labels_valid(#[trigger] g.maps@[j].labels)
}

pub open spec fn all_labels_valid(groups: Seq<RawMapGroup>) -> bool {
    forall|i: int| 0 <= i < groups.len() ==> group_labels_valid(#[trigger] groups[i])
}

/// Checks every label rotation of every variant before any group is built,
/// so that a malformed feed fails the run up front.
pub fn check_label_rotations(groups: &Vec<RawMapGroup>) -> (r: Result<(), FetchError>)
    ensures
        r.is_ok() == all_labels_valid(groups@),
        r matches Err(e) ==> e is Json,
{
    let mut i: usize = 0;
    while i < groups.len()
        invariant
            i <= groups@.len(),
            forall|a: int| 0 <= a < i ==> group_labels_valid(#[trigger] groups@[a]),
        decreases groups@.len() - i,
    {
        let maps = &groups[i].maps;
        let mut j: usize = 0;
        while j < maps.len()
            invariant
                i < groups@.len(),
                *maps == groups@[i as int].maps,
                j <= maps@.len(),
                forall|b: int| 0 <= b < j ==> labels_valid(#[trigger] maps@[b].labels),
            decreases maps@.len() - j,
        {
            match convert_labels(&maps[j].labels) {
                Ok(_) => {},
                Err(e) => {
                    assert(!group_labels_valid(groups@[i as int]));
                    return Err(e);
                },
            }
            j = j + 1;
        }
        assert(group_labels_valid(groups@[i as int]));
        i = i + 1;
    }
    Ok(())
}

/// Normalizes one group: picks its interactive variant, resolves the
/// display name and the raster job. `Ok(None)` for a group without an
/// interactive variant; the errors come in this order: an undecodable label
/// rotation, a missing name, a missing source, a missing zoom, a tile grid
/// too large.
pub fn plan_group(group: RawMapGroup, names: &Vec<MapName>, zoom_offset: i32) -> (r: Result<
    Option<GroupPlan>,
    FetchError,
>)
    ensures
        (r matches Ok(None)) <==> interactive_index(group.maps@) is None,
        interactive_index(group.maps@) matches Some(i) ==> ({
            let v = group.maps@[i];
            let key = group.normalized_name@;
            let found = last_name_index(names@, key);
            &&& !labels_valid(v.labels) ==> (r matches Err(e) && e is Json)
            &&& labels_valid(v.labels) && found is None ==> (r matches Err(
                FetchError::MissingMapName { name },
            ) && name@ == key)
            &&& labels_valid(v.labels) && found is Some && v.svg_path is None && v.tile_path is None
                ==> (r matches Err(FetchError::MissingMapSource { name }) && name@ == key)
            &&& labels_valid(v.labels) && found is Some && v.svg_path is None && v.tile_path is Some
                && v.min_zoom is None ==> (r matches Err(FetchError::MissingMinZoom { name })
                && name@ == key)
            &&& labels_valid(v.labels) && found is Some && v.svg_path is None && v.tile_path is Some
                && v.min_zoom is Some && v.max_zoom is None ==> (r matches Err(
                FetchError::MissingMaxZoom { name },
            ) && name@ == key)
            &&& labels_valid(v.labels) && found is Some && v.svg_path is None && v.tile_path is Some
                && v.min_zoom is Some && v.max_zoom is Some && !grid_fits(
                zoom_of(v, zoom_offset as int),
                tile_size_or_default(v),
            ) ==> (r matches Err(FetchError::InvalidTileGrid { name }) && name@ == key)
            &&& labels_valid(v.labels) && found is Some && source_ok(v, zoom_offset as int) ==> (
            r matches Ok(Some(p)) && p.descriptor.normalized_name == group.normalized_name
                && p.descriptor.name == names@[found.unwrap()].name && descriptor_for(
                p.descriptor,
                v,
            ) && job_for(p.job, v, zoom_offset as int))
        }),
{
    let RawMapGroup { normalized_name, maps } = group;
    let idx = match find_interactive(&maps) {
        Some(i) => i,
        None => return Ok(None),
    };
    let mut maps = maps;
    let v = maps.remove(idx);
    let labels = convert_labels(&v.labels)?;
    let name = match lookup_name(names, &normalized_name) {
        Some(n) => n,
        None => return Err(FetchError::MissingMapName { name: normalized_name }),
    };
    let job = match &v.svg_path {
        Some(url) => AssetJob::Svg { url: url.clone() },
        None => match &v.tile_path {
            Some(template) => {
                let min_zoom = match v.min_zoom {
                    Some(z) => z,
                    None => return Err(FetchError::MissingMinZoom { name: normalized_name }),
                };
                let max_zoom = match v.max_zoom {
                    Some(z) => z,
                    None => return Err(FetchError::MissingMaxZoom { name: normalized_name }),
                };
                let tile_size = match v.tile_size {
                    Some(t) => t,
                    None => DEFAULT_TILE_SIZE,
                };
                match tile_plan(tile_size, min_zoom, max_zoom, zoom_offset) {
                    Some(plan) => AssetJob::Tiles { template: template.clone(), plan },
                    None => return Err(FetchError::InvalidTileGrid { name: normalized_name }),
                }
            },
            None => return Err(FetchError::MissingMapSource { name: normalized_name }),
        },
    };
    let layers = match &v.layers {
        Some(ls) => Some(layers_from_raw(ls)),
        None => None,
    };
    let RawMap {
        alt_maps,
        author,
        author_link,
        transform,
        coordinate_rotation,
        bounds,
        height_range,
        ..
    } = v;
    Ok(
        Some(
            GroupPlan {
                descriptor: MapDescriptor {
                    normalized_name,
                    name,
                    alt_maps,
                    author,
                    author_link,
                    transform,
                    coordinate_rotation,
                    bounds,
                    height_range,
                    layers,
                    labels,
                },
                job,
            },
        ),
    )
}

/// The bundle record for a planned group once its raster exists, with copies
/// of the spawns and extracts listed for its normalized name.
pub fn finish_group(plan: GroupPlan, image: RasterAsset, tables: &Enrichment) -> (r: GameMap)
    ensures
        ({
            let d = plan.descriptor;
            let key = d.normalized_name@;
            let si = last_spawns_index(tables.spawns@, key);
            let ei = last_extracts_index(tables.extracts@, key);
            &&& r.normalized_name == d.normalized_name
            &&& r.name == d.name
            &&& r.image_path == image.image_path
            &&& r.image_size == image.image_size
            &&& r.logical_size == logical_size_of(d.bounds, image.image_size)
            &&& r.alt_maps == d.alt_maps
            &&& r.author == d.author
            &&& r.author_link == d.author_link
            &&& r.transform == d.transform
            &&& r.coordinate_rotation == d.coordinate_rotation
            &&& r.bounds == d.bounds
            &&& r.height_range == d.height_range
            &&& r.layers == d.layers
            &&& r.labels == d.labels
            &&& r.spawns.is_some() == si.is_some()
            &&& si matches Some(i) ==> same_spawns(r.spawns.unwrap()@, tables.spawns@[i].spawns@)
            &&& r.extracts.is_some() == ei.is_some()
            &&& ei matches Some(i) ==> r.extracts.unwrap()@ == tables.extracts@[i].extracts@
        }),
{
    let GroupPlan { descriptor, job: _ } = plan;
    let spawns = lookup_spawns(&tables.spawns, &descriptor.normalized_name);
    let extracts = lookup_extracts(&tables.extracts, &descriptor.normalized_name);
    let logical = logical_size(&descriptor.bounds, image.image_size);
    let MapDescriptor {
        normalized_name,
        name,
        alt_maps,
        author,
        author_link,
        transform,
        coordinate_rotation,
        bounds,
        height_range,
        layers,
        labels,
    } = descriptor;
    GameMap {
        normalized_name,
        name,
        image_path: image.image_path,
        image_size: image.image_size,
        logical_size: logical,
        alt_maps,
        author,
        author_link,
        transform,
        coordinate_rotation,
        bounds,
        height_range,
        layers,
        labels,
        spawns,
        extracts,
    }
}

} // verus!
