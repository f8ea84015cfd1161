use tarkov_map::geometry::{game_to_display, quarter_turns_of, rotate_point, DisplayPoint, DisplayRect};
use tarkov_map::model::{Bounds, GameMap, Point, Size2, Transform};

fn map_with(
    bounds: Option<Bounds>,
    rotation: Option<i64>,
    transform: Option<Transform>,
    image_size: Size2,
) -> GameMap {
    GameMap {
        normalized_name: "test".to_string(),
        name: "Test".to_string(),
        image_path: "maps/test.png".to_string(),
        image_size,
        logical_size: image_size,
        alt_maps: None,
        author: None,
        author_link: None,
        transform,
        coordinate_rotation: rotation,
        bounds,
        height_range: None,
        layers: None,
        labels: None,
        spawns: None,
        extracts: None,
    }
}

fn pt(x: i64, y: i64) -> Point {
    Point { x: x * 1000, y: y * 1000 }
}

fn scenario_bounds() -> Bounds {
    Bounds { corner0: pt(100, -50), corner1: pt(-100, 50) }
}

fn rect_200() -> DisplayRect {
    DisplayRect { min_x: 0, min_y: 0, max_x: 200_000, max_y: 200_000 }
}

fn size(w: i64, h: i64) -> Size2 {
    Size2 { width: w * 1000, height: h * 1000 }
}

#[test]
fn origin_projects_to_centre() {
    let m = map_with(Some(scenario_bounds()), Some(0), None, size(400, 400));
    let p = game_to_display(&m, &rect_200(), pt(0, 0));
    assert_eq!(p, Some(DisplayPoint { x: 100_000, y: 100_000 }));
}

#[test]
fn first_bounds_corner_projection() {
    let m = map_with(Some(scenario_bounds()), Some(0), None, size(400, 400));
    let p = game_to_display(&m, &rect_200(), pt(100, -50));
    // x is measured from the smallest rotated x (-100) and y down from the
    // largest rotated y (50): the corner (maxX, minY) lands bottom-right.
    assert_eq!(p, Some(DisplayPoint { x: 200_000, y: 200_000 }));
    let q = game_to_display(&m, &rect_200(), pt(-100, 50));
    assert_eq!(q, Some(DisplayPoint { x: 0, y: 0 }));
}

#[test]
fn missing_bounds_gives_no_position() {
    let t = Transform { scale_x: 1000, margin_x: 0, scale_y: 1000, margin_y: 0 };
    let m = map_with(None, Some(270_000), Some(t), size(400, 400));
    assert_eq!(game_to_display(&m, &rect_200(), pt(0, 0)), None);
    let m = map_with(None, None, None, size(400, 400));
    assert_eq!(game_to_display(&m, &rect_200(), pt(5, 5)), None);
}

#[test]
fn inside_points_stay_inside_for_each_rotation() {
    for rot in [0i64, 90_000, 180_000, 270_000] {
        let m = map_with(Some(scenario_bounds()), Some(rot), None, size(400, 400));
        for (x, y) in [(0, 0), (99, 49), (-99, -49), (50, -20), (-100, 50), (100, -50)] {
            let p = game_to_display(&m, &rect_200(), pt(x, y)).unwrap();
            assert!(p.x >= 0 && p.x <= 200_000, "rotation {rot} point ({x},{y}) gave {p:?}");
            assert!(p.y >= 0 && p.y <= 200_000, "rotation {rot} point ({x},{y}) gave {p:?}");
        }
    }
}

#[test]
fn corners_land_on_distinct_display_corners() {
    let b = scenario_bounds();
    let corners = [
        Point { x: b.corner0.x, y: b.corner0.y },
        Point { x: b.corner0.x, y: b.corner1.y },
        Point { x: b.corner1.x, y: b.corner0.y },
        Point { x: b.corner1.x, y: b.corner1.y },
    ];
    for rot in [0i64, 90_000, 180_000, 270_000] {
        let m = map_with(Some(b), Some(rot), None, size(400, 400));
        let mut seen = Vec::new();
        for c in corners {
            let p = game_to_display(&m, &rect_200(), c).unwrap();
            assert!(p.x == 0 || p.x == 200_000);
            assert!(p.y == 0 || p.y == 200_000);
            assert!(!seen.contains(&p));
            seen.push(p);
        }
    }
}

#[test]
fn half_turn_mirrors_both_axes() {
    let m = map_with(Some(scenario_bounds()), Some(180_000), None, size(400, 400));
    // Rotated by 180 degrees (100, -50) becomes (-100, 50): the smallest x and
    // the largest y, so the top-left display corner.
    let p = game_to_display(&m, &rect_200(), pt(100, -50));
    assert_eq!(p, Some(DisplayPoint { x: 0, y: 0 }));
    let q = game_to_display(&m, &rect_200(), pt(50, 0));
    assert_eq!(q, Some(DisplayPoint { x: 50_000, y: 100_000 }));
}

#[test]
fn quarter_turn_swaps_axes() {
    let m = map_with(Some(scenario_bounds()), Some(90_000), None, size(400, 400));
    // (0, 25) rotates to (-25, 0); the rotated extent is x in [-50, 50], y in [-100, 100].
    let p = game_to_display(&m, &rect_200(), pt(0, 25));
    assert_eq!(p, Some(DisplayPoint { x: 50_000, y: 100_000 }));
}

#[test]
fn affine_transform_replaces_bounds_at_three_quarter_turn() {
    // scaleX 0.5, marginX 100, scaleY 0.25, marginY 50 on a 400 x 200 raster.
    let t = Transform { scale_x: 500, margin_x: 100_000, scale_y: 250, margin_y: 50_000 };
    let m = map_with(Some(scenario_bounds()), Some(270_000), Some(t), size(400, 200));
    // (40, 80) rotated by 270 degrees is (80, -40).
    // svg = (0.5 * 80 + 100, -0.25 * -40 + 50) = (140, 60); fractions 0.35 and 0.3.
    let p = game_to_display(&m, &rect_200(), pt(40, 80));
    assert_eq!(p, Some(DisplayPoint { x: 70_000, y: 60_000 }));
}

#[test]
fn transform_ignored_at_other_rotations() {
    let t = Transform { scale_x: 500, margin_x: 100_000, scale_y: 250, margin_y: 50_000 };
    let m = map_with(Some(scenario_bounds()), Some(0), Some(t), size(400, 200));
    let p = game_to_display(&m, &rect_200(), pt(0, 0));
    assert_eq!(p, Some(DisplayPoint { x: 100_000, y: 100_000 }));
}

#[test]
fn unsupported_rotation_gives_no_position() {
    let m = map_with(Some(scenario_bounds()), Some(45_000), None, size(400, 400));
    assert_eq!(game_to_display(&m, &rect_200(), pt(0, 0)), None);
}

#[test]
fn degenerate_bounds_give_no_position() {
    let b = Bounds { corner0: pt(10, 0), corner1: pt(10, 50) };
    let m = map_with(Some(b), None, None, size(400, 400));
    assert_eq!(game_to_display(&m, &rect_200(), pt(10, 10)), None);
}

#[test]
fn rotate_point_quarter_turns() {
    assert_eq!(rotate_point(3, 4, 0), Some((3, 4)));
    assert_eq!(rotate_point(3, 4, 90_000), Some((-4, 3)));
    assert_eq!(rotate_point(3, 4, 180_000), Some((-3, -4)));
    assert_eq!(rotate_point(3, 4, 270_000), Some((4, -3)));
    assert_eq!(rotate_point(3, 4, -90_000), Some((4, -3)));
    assert_eq!(rotate_point(3, 4, 450_000), Some((-4, 3)));
    assert_eq!(rotate_point(3, 4, 30_000), None);
    assert_eq!(rotate_point(i64::MIN, 1, 180_000), Some((-(i64::MIN as i128), -1)));
}

#[test]
fn quarter_turns_of_negative_angles() {
    assert_eq!(quarter_turns_of(-180_000), Some(2));
    assert_eq!(quarter_turns_of(-270_000), Some(1));
    assert_eq!(quarter_turns_of(720_000), Some(0));
    assert_eq!(quarter_turns_of(1), None);
}

#[test]
fn large_coordinates_still_project() {
    // Bounds two million units across, and a display rectangle far from the origin.
    let b = Bounds { corner0: pt(2_000_000, -2_000_000), corner1: pt(-2_000_000, 2_000_000) };
    let m = map_with(Some(b), Some(180_000), None, size(400, 400));
    let rect = DisplayRect {
        min_x: 5_000_000_000,
        min_y: 5_000_000_000,
        max_x: 5_000_200_000,
        max_y: 5_000_200_000,
    };
    let p = game_to_display(&m, &rect, pt(0, 0));
    assert_eq!(p, Some(DisplayPoint { x: 5_000_100_000, y: 5_000_100_000 }));
    let q = game_to_display(&m, &rect, pt(-2_000_000, 2_000_000));
    assert_eq!(q, Some(DisplayPoint { x: 5_000_200_000, y: 5_000_200_000 }));
}

#[test]
fn extreme_bounds_use_full_i64_range() {
    let b = Bounds {
        corner0: Point { x: i64::MAX, y: -i64::MAX },
        corner1: Point { x: -i64::MAX, y: i64::MAX },
    };
    let m = map_with(Some(b), Some(90_000), None, size(1, 1));
    let p = game_to_display(&m, &rect_200(), Point { x: 0, y: 0 });
    assert_eq!(p, Some(DisplayPoint { x: 100_000, y: 100_000 }));
}

#[test]
fn unused_transform_does_not_matter_off_the_affine_path() {
    let huge = Transform { scale_x: i64::MAX, margin_x: i64::MIN, scale_y: 7, margin_y: i64::MAX };
    let with = map_with(
        Some(scenario_bounds()),
        Some(90_000),
        Some(huge),
        Size2 { width: i64::MAX, height: -5 },
    );
    let without = map_with(Some(scenario_bounds()), Some(90_000), None, size(400, 400));
    for (x, y) in [(0, 0), (30, -20), (500, 500)] {
        assert_eq!(game_to_display(&with, &rect_200(), pt(x, y)), game_to_display(&without, &rect_200(), pt(x, y)));
    }
}

#[test]
fn result_outside_i64_gives_no_position() {
    let b = Bounds { corner0: Point { x: 1, y: 0 }, corner1: Point { x: 0, y: 1 } };
    let m = map_with(Some(b), None, None, size(1, 1));
    let rect = DisplayRect { min_x: 0, min_y: 0, max_x: i64::MAX, max_y: i64::MAX };
    assert_eq!(game_to_display(&m, &rect, Point { x: 3, y: 0 }), None);
}

#[test]
fn affine_path_refuses_values_beyond_its_limit() {
    let t = Transform { scale_x: 1000, margin_x: 3_000_000_000_000, scale_y: 1000, margin_y: 0 };
    let m = map_with(Some(scenario_bounds()), Some(270_000), Some(t), size(400, 200));
    assert_eq!(game_to_display(&m, &rect_200(), pt(0, 0)), None);
    let t = Transform { scale_x: 1000, margin_x: 2_000_000_000, scale_y: 1000, margin_y: 0 };
    let m = map_with(Some(scenario_bounds()), Some(270_000), Some(t), size(4_000_000, 200));
    // svg x = 2e6 on a raster 4e6 wide: half way across.
    assert_eq!(game_to_display(&m, &rect_200(), pt(0, 0)).map(|p| p.x), Some(100_000));
}
