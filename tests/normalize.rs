use tarkov_map::enrich::{
    check_status, extract_from_raw, extracts_from_raw, graphql_data, join_messages,
    lookup_extracts, lookup_name, lookup_spawns, player_spawns, spawn_table, MapExtracts, MapName,
    MapSpawns, RawExtract,
};
use tarkov_map::error::FetchError;
use tarkov_map::fixed::parse_fixed;
use tarkov_map::model::{Extract, HeightRange, Point, Point3, Spawn};
use tarkov_map::raw::{
    decode_rotation, extent_bound_from_values, extent_from_raw, label_from_raw, labels_from_raw,
    layer_from_raw, RawExtent, RawLabel, RawLayer, RawValue,
};

fn spawn(sides: &[&str], categories: &[&str]) -> Spawn {
    Spawn {
        position: Point3 { x: 1, y: 2, z: 3 },
        sides: sides.iter().map(|s| s.to_string()).collect(),
        categories: categories.iter().map(|s| s.to_string()).collect(),
    }
}

#[test]
fn scav_spawn_dropped_all_spawn_kept() {
    let kept = player_spawns(vec![spawn(&["scav"], &["player"]), spawn(&["all"], &["player"])]);
    assert_eq!(kept.len(), 1);
    assert_eq!(kept[0].sides, vec!["all".to_string()]);
}

#[test]
fn spawn_filter_needs_side_and_player_category() {
    let kept = player_spawns(vec![
        spawn(&["pmc"], &["bot"]),
        spawn(&["scav", "pmc"], &["bot", "player"]),
        spawn(&[], &["player"]),
        spawn(&["pmc"], &["player"]),
    ]);
    assert_eq!(kept.len(), 2);
    assert_eq!(kept[0].sides.len(), 2);
    assert_eq!(kept[1].sides, vec!["pmc".to_string()]);
}

#[test]
fn spawn_table_filters_each_map() {
    let table = spawn_table(vec![
        MapSpawns { normalized_name: "a".into(), spawns: vec![spawn(&["scav"], &["player"])] },
        MapSpawns { normalized_name: "b".into(), spawns: vec![spawn(&["pmc"], &["player"])] },
    ]);
    assert_eq!(table.len(), 2);
    assert_eq!(table[0].spawns.len(), 0);
    assert_eq!(table[1].spawns.len(), 1);
}

#[test]
fn lookup_spawns_uses_last_entry_and_keeps_it() {
    let table = vec![
        MapSpawns { normalized_name: "a".into(), spawns: vec![] },
        MapSpawns { normalized_name: "b".into(), spawns: vec![] },
        MapSpawns { normalized_name: "a".into(), spawns: vec![spawn(&["pmc"], &["player"])] },
    ];
    let got = lookup_spawns(&table, &"a".to_string()).unwrap();
    assert_eq!(got.len(), 1);
    assert_eq!(got[0].categories, vec!["player".to_string()]);
    assert_eq!(table.len(), 3);
    assert_eq!(lookup_spawns(&table, &"a".to_string()).unwrap().len(), 1);
    assert!(lookup_spawns(&table, &"z".to_string()).is_none());
}

#[test]
fn lookup_extracts_copies_last_entry() {
    let table = vec![MapExtracts {
        normalized_name: "a".into(),
        extracts: vec![Extract { name: "e".into(), faction: "scav".into(), position: None }],
    }];
    let got = lookup_extracts(&table, &"a".to_string()).unwrap();
    assert_eq!(got[0].name, "e");
    assert!(lookup_extracts(&table, &"b".to_string()).is_none());
}

#[test]
fn extracts_need_name_and_faction() {
    let raw = vec![
        RawExtract { name: Some("ZB-1011".into()), faction: Some("pmc".into()), position: None },
        RawExtract { name: None, faction: Some("scav".into()), position: None },
        RawExtract {
            name: Some("Crossroads".into()),
            faction: Some("shared".into()),
            position: Some(Point3 { x: 1, y: 2, z: 3 }),
        },
        RawExtract { name: Some("x".into()), faction: None, position: None },
    ];
    let out = extracts_from_raw(raw);
    assert_eq!(out.len(), 2);
    assert_eq!(out[0].name, "ZB-1011");
    assert_eq!(out[1].faction, "shared");
    assert_eq!(out[1].position, Some(Point3 { x: 1, y: 2, z: 3 }));
    assert!(extract_from_raw(RawExtract { name: None, faction: None, position: None }).is_none());
}

#[test]
fn name_lookup_takes_last_entry() {
    let names = vec![
        MapName { normalized_name: "customs".into(), name: "Old".into() },
        MapName { normalized_name: "customs".into(), name: "Customs".into() },
    ];
    assert_eq!(lookup_name(&names, &"customs".to_string()), Some("Customs".to_string()));
    assert_eq!(lookup_name(&names, &"woods".to_string()), None);
}

#[test]
fn parse_fixed_cases() {
    assert_eq!(parse_fixed("90"), Some(90_000));
    assert_eq!(parse_fixed("-45.5"), Some(-45_500));
    assert_eq!(parse_fixed("+1.25"), Some(1_250));
    assert_eq!(parse_fixed("0.0019"), Some(1));
    assert_eq!(parse_fixed(".5"), Some(500));
    assert_eq!(parse_fixed("7."), Some(7_000));
    assert_eq!(parse_fixed(""), None);
    assert_eq!(parse_fixed("."), None);
    assert_eq!(parse_fixed("-"), None);
    assert_eq!(parse_fixed("1e3"), None);
    assert_eq!(parse_fixed("1.2.3"), None);
    assert_eq!(parse_fixed("abc"), None);
    assert_eq!(parse_fixed("1234567890123456"), None);
    assert_eq!(parse_fixed("123456789012345"), Some(123_456_789_012_345_000));
}

#[test]
fn rotation_number_or_string() {
    assert_eq!(decode_rotation(&None).unwrap(), None);
    assert_eq!(decode_rotation(&Some(RawValue::Number(12_500))).unwrap(), Some(12_500));
    assert_eq!(decode_rotation(&Some(RawValue::Text("12.5".into()))).unwrap(), Some(12_500));
    match decode_rotation(&Some(RawValue::Text("north".into()))) {
        Err(FetchError::Json(m)) => assert_eq!(m, "invalid rotation string: north"),
        other => panic!("unexpected {other:?}"),
    }
    assert!(matches!(decode_rotation(&Some(RawValue::Other)), Err(FetchError::Json(_))));
    assert!(matches!(decode_rotation(&Some(RawValue::List(vec![]))), Err(FetchError::Json(_))));
}

fn label(rotation: Option<RawValue>) -> RawLabel {
    RawLabel {
        position: Point { x: 1, y: 2 },
        text: "Dorms".into(),
        rotation,
        size: Some(40),
        top: None,
        bottom: Some(-5),
    }
}

#[test]
fn labels_convert_or_fail_on_bad_rotation() {
    let l = label_from_raw(&label(Some(RawValue::Text("-30".into())))).unwrap();
    assert_eq!(l.rotation, Some(-30_000));
    assert_eq!(l.text, "Dorms");
    assert_eq!(l.size, Some(40));
    assert_eq!(l.bottom, Some(-5));
    assert_eq!(labels_from_raw(&vec![label(None), label(Some(RawValue::Number(5)))]).unwrap().len(), 2);
    assert!(labels_from_raw(&vec![label(None), label(Some(RawValue::Other))]).is_err());
}

#[test]
fn extent_bound_positional_defaults() {
    let full = vec![
        RawValue::List(vec![Some(1000), Some(2000)]),
        RawValue::List(vec![Some(-3000), Some(4000)]),
        RawValue::Text("Basement".into()),
    ];
    let b = extent_bound_from_values(&full);
    assert_eq!(b.point1, Point { x: 1000, y: 2000 });
    assert_eq!(b.point2, Point { x: -3000, y: 4000 });
    assert_eq!(b.name, "Basement");

    let partial = vec![RawValue::List(vec![Some(7)]), RawValue::Number(3)];
    let b = extent_bound_from_values(&partial);
    assert_eq!(b.point1, Point { x: 7, y: 0 });
    assert_eq!(b.point2, Point { x: 0, y: 0 });
    assert_eq!(b.name, "");

    let b = extent_bound_from_values(&vec![RawValue::List(vec![None, Some(9)])]);
    assert_eq!(b.point1, Point { x: 0, y: 9 });
}

#[test]
fn layers_convert_their_extents() {
    let raw = RawLayer {
        name: "Floor 2".into(),
        svg_layer: Some("f2".into()),
        tile_path: None,
        show: true,
        extents: vec![RawExtent {
            height: HeightRange { min: 1000, max: 5000 },
            bounds: Some(vec![vec![RawValue::Other, RawValue::List(vec![Some(1), Some(2)])]]),
        }],
    };
    let l = layer_from_raw(&raw);
    assert_eq!(l.name, "Floor 2");
    assert_eq!(l.svg_layer.as_deref(), Some("f2"));
    assert!(l.show);
    let bounds = l.extents[0].bounds.as_ref().unwrap();
    assert_eq!(bounds[0].point2, Point { x: 1, y: 2 });
    let e = extent_from_raw(&RawExtent { height: HeightRange { min: 0, max: 1 }, bounds: None });
    assert!(e.bounds.is_none());
}

#[test]
fn graphql_errors_and_missing_data() {
    match graphql_data::<u8>(Some(vec!["a".into(), "b".into()]), Some(1)) {
        Err(FetchError::GraphQL(m)) => assert_eq!(m, "a; b"),
        other => panic!("unexpected {other:?}"),
    }
    assert_eq!(graphql_data::<u8>(Some(vec![]), Some(4)).unwrap(), 4);
    assert_eq!(graphql_data::<u8>(None, Some(4)).unwrap(), 4);
    assert!(matches!(graphql_data::<u8>(None, None), Err(FetchError::GraphQLMissingData)));
    assert_eq!(join_messages(&vec!["x".to_string()], ", "), "x");
    assert_eq!(join_messages(&vec![], ", "), "");
}

#[test]
fn http_status_success_range() {
    assert!(check_status("tile", 200).is_ok());
    assert!(check_status("tile", 299).is_ok());
    match check_status("SVG", 404) {
        Err(FetchError::HttpStatus { resource, status }) => {
            assert_eq!(resource, "SVG");
            assert_eq!(status, 404);
        }
        other => panic!("unexpected {other:?}"),
    }
    assert!(check_status("tile", 301).is_err());
}
