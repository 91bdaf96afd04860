use hue_mosaic::color::{Hsv, Hsva};
use hue_mosaic::mosaic::{SampleGrid, Tile};

fn deg(d: u32) -> u32 {
    d * 1_000_000
}

fn grid_3x2() -> SampleGrid {
    let samples: Vec<Hsva> = (0..6u32)
        .map(|i| Hsva { color: Hsv { hue: deg(i), saturation: 500_000, value: 500_000 }, alpha: 1_000_000 })
        .collect();
    SampleGrid::new(3, 2, samples).unwrap()
}

#[test]
fn grid_needs_one_sample_per_pixel() {
    assert!(SampleGrid::new(3, 2, Vec::new()).is_none());
    assert!(SampleGrid::new(0, 5, Vec::new()).is_some());
}

#[test]
fn mosaic_samples_every_step_th_pixel() {
    let g = grid_3x2();
    let tiles = g.plan_mosaic(2, 0, Hsv { hue: 0, saturation: 0, value: 0 });
    assert_eq!(
        tiles,
        vec![
            Tile { x: 0, y: 0, size: 2, color: Hsv { hue: 0, saturation: 500_000, value: 500_000 } },
            Tile { x: 2, y: 0, size: 2, color: Hsv { hue: deg(122), saturation: 500_000, value: 500_000 } },
        ]
    );
}

#[test]
fn mosaic_scroll_wraps_round_the_image() {
    let g = grid_3x2();
    let tiles = g.plan_mosaic(2, 3, Hsv { hue: deg(10), saturation: 0, value: 0 });
    assert_eq!(tiles.len(), 2);
    assert_eq!(tiles[0].color.hue, deg(13));
    assert_eq!(tiles[1].color.hue, deg(135));
}

#[test]
fn mosaic_with_step_one_covers_every_pixel() {
    let g = grid_3x2();
    let tiles = g.plan_mosaic(1, 0, Hsv { hue: 0, saturation: 0, value: 0 });
    assert_eq!(tiles.len(), 6);
    assert_eq!((tiles[4].x, tiles[4].y), (1, 1));
    assert_eq!(tiles[4].color.hue, deg(4) + deg(60) + deg(90));
}

#[test]
fn empty_grid_has_no_tiles() {
    let g = SampleGrid::new(0, 0, Vec::new()).unwrap();
    assert!(g.plan_mosaic(20, 0, Hsv { hue: 0, saturation: 0, value: 0 }).is_empty());
}
