use tarkov_map::enrich::{Enrichment, MapExtracts, MapName, MapSpawns};
use tarkov_map::error::FetchError;
use tarkov_map::model::{Bounds, Extract, Point, Point3, Size2, Spawn};
use tarkov_map::plan::{check_label_rotations, finish_group, plan_group};
use tarkov_map::raster::{
    build_step, image_disk_path, image_path, logical_size, svg_render_size, tile_image_size,
    AssetJob, BuildStep, PixelSize, RasterAsset,
};
use tarkov_map::raw::{RawLabel, RawMap, RawMapGroup, RawValue};

fn variant(projection: &str) -> RawMap {
    RawMap {
        alt_maps: None,
        projection: projection.to_string(),
        author: Some("someone".into()),
        author_link: None,
        tile_size: None,
        min_zoom: None,
        max_zoom: None,
        transform: None,
        coordinate_rotation: Some(180_000),
        bounds: Some(Bounds {
            corner0: Point { x: 100_000, y: -50_000 },
            corner1: Point { x: -100_000, y: 50_000 },
        }),
        svg_path: None,
        tile_path: None,
        height_range: None,
        layers: None,
        labels: None,
    }
}

fn group(maps: Vec<RawMap>) -> RawMapGroup {
    RawMapGroup { normalized_name: "customs".into(), maps }
}

fn names() -> Vec<MapName> {
    vec![MapName { normalized_name: "customs".into(), name: "Customs".into() }]
}

#[test]
fn group_without_interactive_is_skipped() {
    let r = plan_group(group(vec![variant("2D"), variant("3D")]), &names(), 2).unwrap();
    assert!(r.is_none());
}

#[test]
fn missing_name_is_an_error() {
    let mut v = variant("interactive");
    v.svg_path = Some("https://x/map.svg".into());
    match plan_group(group(vec![v]), &vec![], 2) {
        Err(FetchError::MissingMapName { name }) => assert_eq!(name, "customs"),
        other => panic!("unexpected {other:?}"),
    }
}

#[test]
fn missing_source_is_an_error() {
    match plan_group(group(vec![variant("interactive")]), &names(), 2) {
        Err(FetchError::MissingMapSource { name }) => assert_eq!(name, "customs"),
        other => panic!("unexpected {other:?}"),
    }
}

#[test]
fn tiles_need_both_zooms() {
    let mut v = variant("interactive");
    v.tile_path = Some("https://t/{z}/{x}/{y}.png".into());
    v.max_zoom = Some(4);
    assert!(matches!(
        plan_group(group(vec![v.clone()]), &names(), 2),
        Err(FetchError::MissingMinZoom { .. })
    ));
    v.min_zoom = Some(0);
    v.max_zoom = None;
    assert!(matches!(
        plan_group(group(vec![v]), &names(), 2),
        Err(FetchError::MissingMaxZoom { .. })
    ));
}

#[test]
fn oversized_tile_grid_is_an_error() {
    let mut v = variant("interactive");
    v.tile_path = Some("t".into());
    v.min_zoom = Some(0);
    v.max_zoom = Some(23);
    assert!(matches!(
        plan_group(group(vec![v.clone()]), &names(), 0),
        Err(FetchError::InvalidTileGrid { .. })
    ));
    v.max_zoom = Some(9);
    assert!(plan_group(group(vec![v]), &names(), 0).unwrap().is_some());
}

#[test]
fn bad_label_rotation_is_an_error() {
    let mut v = variant("interactive");
    v.svg_path = Some("s".into());
    v.labels = Some(vec![RawLabel {
        position: Point { x: 0, y: 0 },
        text: "x".into(),
        rotation: Some(RawValue::Text("tilted".into())),
        size: None,
        top: None,
        bottom: None,
    }]);
    assert!(matches!(plan_group(group(vec![v]), &names(), 2), Err(FetchError::Json(_))));
}

#[test]
fn svg_source_wins_over_tiles() {
    let mut v = variant("interactive");
    v.svg_path = Some("https://x/map.svg".into());
    v.tile_path = Some("t".into());
    let p = plan_group(group(vec![variant("2D"), v]), &names(), 2).unwrap().unwrap();
    assert_eq!(p.descriptor.name, "Customs");
    assert_eq!(p.descriptor.coordinate_rotation, Some(180_000));
    match p.job {
        AssetJob::Svg { url } => assert_eq!(url, "https://x/map.svg"),
        other => panic!("unexpected {other:?}"),
    }
}

#[test]
fn tile_job_uses_default_tile_size() {
    let mut v = variant("interactive");
    v.tile_path = Some("https://t/{z}/{x}/{y}.png".into());
    v.min_zoom = Some(0);
    v.max_zoom = Some(4);
    let p = plan_group(group(vec![v]), &names(), 1).unwrap().unwrap();
    match p.job {
        AssetJob::Tiles { template, plan } => {
            assert_eq!(template, "https://t/{z}/{x}/{y}.png");
            assert_eq!(plan.tile_size, 256);
            assert_eq!(plan.zoom, 3);
            assert_eq!(plan.canvas_side, 2048);
        }
        other => panic!("unexpected {other:?}"),
    }
}

#[test]
fn finished_map_takes_enrichment_and_logical_size() {
    let mut v = variant("interactive");
    v.svg_path = Some("s".into());
    let p = plan_group(group(vec![v]), &names(), 2).unwrap().unwrap();
    let mut tables = Enrichment {
        names: names(),
        spawns: vec![MapSpawns {
            normalized_name: "customs".into(),
            spawns: vec![Spawn {
                position: Point3 { x: 1, y: 2, z: 3 },
                sides: vec!["pmc".into()],
                categories: vec!["player".into()],
            }],
        }],
        extracts: vec![MapExtracts {
            normalized_name: "woods".into(),
            extracts: vec![Extract { name: "e".into(), faction: "pmc".into(), position: None }],
        }],
    };
    let image = RasterAsset {
        image_path: image_path("customs"),
        image_size: Size2 { width: 800_000, height: 600_000 },
    };
    let again = RasterAsset { image_path: image.image_path.clone(), image_size: image.image_size };
    let p2 = p.clone();
    let m = finish_group(p, image, &tables);
    assert_eq!(m.image_path, "maps/customs.png");
    assert_eq!(m.logical_size, Size2 { width: 200_000, height: 100_000 });
    assert_eq!(m.spawns.as_ref().map(|s| s.len()), Some(1));
    assert!(m.extracts.is_none());
    assert_eq!(m.author.as_deref(), Some("someone"));
    assert_eq!(tables.spawns.len(), 1);
    assert_eq!(tables.extracts.len(), 1);
    // A second group of the same name gets the same enrichment.
    let m2 = finish_group(p2, again, &tables);
    assert_eq!(m2.spawns.as_ref().map(|s| s[0].sides.clone()), Some(vec!["pmc".to_string()]));
}

#[test]
fn logical_size_falls_back_to_image_size() {
    let s = Size2 { width: 5, height: 6 };
    assert_eq!(logical_size(&None, s), s);
    let b = Bounds { corner0: Point { x: -3, y: 10 }, corner1: Point { x: 4, y: 2 } };
    assert_eq!(logical_size(&Some(b), s), Size2 { width: 7, height: 8 });
}

#[test]
fn paths_of_a_map_raster() {
    assert_eq!(image_path("woods"), "maps/woods.png");
    assert_eq!(image_disk_path("woods"), "assets/maps/woods.png");
}

#[test]
fn svg_render_is_supersampled() {
    let px = svg_render_size(Size2 { width: 1_000_500, height: 250_250 }).unwrap();
    assert_eq!(px, PixelSize { width: 2001, height: 500 });
    assert!(svg_render_size(Size2 { width: 400, height: 1000 }).is_none());
    let wide = svg_render_size(Size2 { width: 600_000_000, height: 1000 }).unwrap();
    assert_eq!(wide, PixelSize { width: 1_200_000, height: 2 });
    assert!(svg_render_size(Size2 { width: 268_435_456_000, height: 1000 }).is_none());
    assert!(svg_render_size(Size2 { width: 268_435_455_500, height: 1000 }).is_some());
    assert!(svg_render_size(Size2 { width: -1000, height: 1000 }).is_none());
}

#[test]
fn second_build_reuses_cache_with_same_sizes() {
    let svg = AssetJob::Svg { url: "s".into() };
    let source = Size2 { width: 1_024_500, height: 768_000 };
    let px = svg_render_size(source).unwrap();
    assert_eq!(build_step(&svg, None, false), BuildStep::Fetch);
    assert_eq!(build_step(&svg, Some(px), false), BuildStep::Reuse(source));
    assert_eq!(build_step(&svg, Some(px), true), BuildStep::Fetch);

    let plan = tarkov_map::pyramid::tile_plan(256, 0, 4, 1).unwrap();
    let built = tile_image_size(&plan);
    assert_eq!(built, Size2 { width: 2_048_000, height: 2_048_000 });
    let tiles = AssetJob::Tiles { template: "t".into(), plan };
    let cached = PixelSize { width: 2048, height: 2048 };
    assert_eq!(build_step(&tiles, Some(cached), false), BuildStep::Reuse(built));
    assert_eq!(build_step(&tiles, Some(cached), true), BuildStep::Fetch);
}

#[test]
fn label_rotations_checked_in_every_variant() {
    let mut other = variant("2D");
    other.labels = Some(vec![RawLabel {
        position: Point { x: 0, y: 0 },
        text: "x".into(),
        rotation: Some(RawValue::Text("sideways".into())),
        size: None,
        top: None,
        bottom: None,
    }]);
    let good = group(vec![variant("interactive")]);
    assert!(check_label_rotations(&vec![good.clone()]).is_ok());
    assert!(matches!(
        check_label_rotations(&vec![good, group(vec![variant("interactive"), other])]),
        Err(FetchError::Json(_))
    ));
}
