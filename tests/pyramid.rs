use std::io::Cursor;

use tarkov_map::error::FetchError;
use tarkov_map::model::DecodedImage;
use tarkov_map::pyramid::{
    blit_tile, collect_tiles, compose_tiles, tile_plan, tile_requests, tile_url, FetchedTile,
};

fn png_bytes(w: u32, h: u32, px: [u8; 4]) -> Vec<u8> {
    let img = image::RgbaImage::from_pixel(w, h, image::Rgba(px));
    let mut out = Cursor::new(Vec::new());
    img.write_to(&mut out, image::ImageFormat::Png).unwrap();
    out.into_inner()
}

#[test]
fn zoom_offset_one_below_max_four() {
    let plan = tile_plan(256, 0, 4, 1).unwrap();
    assert_eq!(plan.zoom, 3);
    assert_eq!(plan.tiles_per_axis, 8);
    assert_eq!(plan.canvas_side, 2048);
    let reqs = tile_requests("https://t/{z}/{x}/{y}.png", &plan);
    assert_eq!(reqs.len(), 64);
    assert_eq!(reqs[0].url, "https://t/3/0/0.png");
    assert_eq!((reqs[9].x, reqs[9].y), (1, 1));
    assert_eq!(reqs[63].url, "https://t/3/7/7.png");
}

#[test]
fn zoom_never_below_minimum() {
    let plan = tile_plan(256, 2, 3, 5).unwrap();
    assert_eq!(plan.zoom, 2);
    assert_eq!(plan.tiles_per_axis, 4);
    assert_eq!(plan.canvas_side, 1024);
}

#[test]
fn oversized_or_invalid_grids_are_refused() {
    let big = tile_plan(256, 0, 7, 0).unwrap();
    assert_eq!(big.canvas_side, 32768);
    assert_eq!(tile_plan(256, 0, 22, 0).unwrap().canvas_side, 1 << 30);
    assert!(tile_plan(256, 0, 23, 0).is_none());
    assert!(tile_plan(256, 0, 100, 0).is_none());
    assert!(tile_plan(0, 0, 2, 0).is_none());
    assert!(tile_plan(256, -3, -1, 0).is_none());
}

#[test]
fn tile_url_substitutes_every_placeholder() {
    assert_eq!(tile_url("a/{z}/{x}/{y}/{x}", 5, 12, 30), "a/5/12/30/12");
    assert_eq!(tile_url("plain", 1, 2, 3), "plain");
}

#[test]
fn blit_copies_and_clips() {
    let mut canvas = vec![0u8; 4 * 3 * 3];
    let tile = DecodedImage { pixels: (1..=16).collect(), width: 2, height: 2 };
    blit_tile(&mut canvas, 3, &tile, 2, 1);
    // Pixel (2, 1) takes tile pixel (0, 0); (2, 2) takes (0, 1); the tile's
    // right column falls outside the canvas.
    assert_eq!(&canvas[(1 * 3 + 2) * 4..(1 * 3 + 2) * 4 + 4], &[1, 2, 3, 4]);
    assert_eq!(&canvas[(2 * 3 + 2) * 4..(2 * 3 + 2) * 4 + 4], &[9, 10, 11, 12]);
    assert_eq!(canvas.iter().filter(|b| **b != 0).count(), 8);
}

#[test]
fn compose_places_tiles_by_grid_position() {
    let plan = tile_plan(2, 0, 1, 0).unwrap();
    assert_eq!(plan.canvas_side, 4);
    let tiles = vec![
        FetchedTile { x: 1, y: 0, bytes: png_bytes(2, 2, [255, 0, 0, 255]) },
        FetchedTile { x: 0, y: 1, bytes: png_bytes(2, 2, [0, 255, 0, 255]) },
        FetchedTile { x: 1, y: 1, bytes: vec![1, 2, 3] },
    ];
    let canvas = compose_tiles(&plan, &tiles);
    assert_eq!(canvas.len(), 4 * 4 * 4);
    let px = |x: usize, y: usize| canvas[(y * 4 + x) * 4..(y * 4 + x) * 4 + 4].to_vec();
    assert_eq!(px(2, 0), vec![255, 0, 0, 255]);
    assert_eq!(px(3, 1), vec![255, 0, 0, 255]);
    assert_eq!(px(0, 2), vec![0, 255, 0, 255]);
    assert_eq!(px(0, 0), vec![0, 0, 0, 0]);
    // The undecodable tile leaves its cell transparent.
    assert_eq!(px(3, 3), vec![0, 0, 0, 0]);
}

#[test]
fn one_failed_tile_fails_the_grid() {
    let tile = |x: u32| FetchedTile { x, y: 0, bytes: vec![] };
    let all = collect_tiles(vec![Ok(tile(0)), Ok(tile(1))]).unwrap();
    assert_eq!(all.iter().map(|t| t.x).collect::<Vec<_>>(), vec![0, 1]);
    let failed = collect_tiles(vec![
        Ok(tile(0)),
        Err(FetchError::HttpStatus { resource: "tile".into(), status: 500 }),
        Err(FetchError::Http("later".into())),
    ]);
    assert!(matches!(failed, Err(FetchError::HttpStatus { status: 500, .. })));
    assert!(collect_tiles(vec![]).unwrap().is_empty());
}
