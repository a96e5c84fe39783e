use image::{DynamicImage, GenericImageView};
use rusty_splash::compose::{
    build_canvas, canvas_size, compose, is_paintable, merge_two, plan_tile, prepare_tile,
    prepare_tile_checked, tile_placements, Placement, TileError,
};
use rusty_splash::layout::{find_optimal_tile, TileParams};

fn params(dims: (u32, u32), image_res: (u32, u32), image_adjust: (u32, u32)) -> TileParams {
    TileParams { dims, image_res, image_adjust }
}

#[test]
fn canvas_is_grid_times_cropped_tile() {
    let p = params((3, 2), (1422, 800), (143, 0));
    assert!(is_paintable(&p));
    assert_eq!(canvas_size(&p), (3 * 1279, 1600));
}

#[test]
fn placements_wrap_around_the_sources() {
    let p = params((3, 2), (10, 6), (2, 0));
    let plan = tile_placements(&p, 4);
    assert_eq!(plan.len(), 6);
    let sources: Vec<usize> = plan.iter().map(|q| q.source).collect();
    assert_eq!(sources, vec![0, 1, 2, 3, 0, 1]);
    assert_eq!(plan[4], Placement { source: 0, x: 8, y: 6 });
    assert_eq!(plan[2], Placement { source: 2, x: 16, y: 0 });
}

#[test]
fn unpaintable_layouts_are_refused() {
    assert!(!is_paintable(&params((0, 2), (10, 10), (0, 0))));
    assert!(!is_paintable(&params((2, 2), (10, 10), (11, 0))));
    assert!(!is_paintable(&params((u32::MAX, 2), (10, 10), (0, 0))));
    let tiles = vec![DynamicImage::new_rgba8(4, 4)];
    assert_eq!(compose(&tiles, &params((0, 1), (4, 4), (0, 0))).err(), Some(TileError::InvalidLayout));
}

#[test]
fn prepared_tile_is_cropped_to_the_cell() {
    let p = params((2, 2), (40, 30), (0, 6));
    let src = DynamicImage::new_rgba8(80, 60);
    let tile = prepare_tile(&src, &p);
    assert_eq!(tile.dimensions(), (40, 24));
}

#[test]
fn composite_has_exact_canvas_size() {
    let p = params((3, 2), (40, 30), (6, 0));
    let tiles: Vec<DynamicImage> = (0..4)
        .map(|_| prepare_tile(&DynamicImage::new_rgba8(80, 60), &p))
        .collect();
    let canvas = compose(&tiles, &p).unwrap().unwrap();
    assert_eq!(canvas.dimensions(), (3 * 34, 2 * 30));
}

#[test]
fn composite_paints_sources_in_row_major_order() {
    let p = params((3, 1), (2, 2), (0, 0));
    let colors = [[255u8, 0, 0, 255], [0, 255, 0, 255]];
    let tiles: Vec<DynamicImage> = colors
        .iter()
        .map(|c| DynamicImage::ImageRgba8(image::RgbaImage::from_pixel(2, 2, image::Rgba(*c))))
        .collect();
    let canvas = compose(&tiles, &p).unwrap().unwrap();
    assert_eq!(canvas.get_pixel(0, 0).0, colors[0]);
    assert_eq!(canvas.get_pixel(3, 1).0, colors[1]);
    assert_eq!(canvas.get_pixel(5, 0).0, colors[0]);
}

#[test]
fn no_tiles_no_composite() {
    let p = params((3, 2), (40, 30), (6, 0));
    assert_eq!(compose(&Vec::new(), &p).unwrap().is_none(), true);
    assert!(matches!(plan_tile((0, 0), (1920, 1080), 0), Ok(None)));
}

#[test]
fn oversized_tile_is_reported() {
    let p = params((2, 1), (4, 4), (0, 0));
    let tiles = vec![DynamicImage::new_rgba8(4, 4), DynamicImage::new_rgba8(5, 4)];
    assert_eq!(compose(&tiles, &p).err(), Some(TileError::TileTooLarge { index: 1 }));
}

#[test]
fn plan_rejects_zero_sizes() {
    assert_eq!(plan_tile((0, 1080), (1920, 1080), 2).err(), Some(TileError::InvalidInput));
    assert_eq!(plan_tile((1920, 1080), (1920, 0), 2).err(), Some(TileError::InvalidInput));
}

#[test]
fn plan_asks_for_more_cells_than_images() {
    let p = plan_tile((1920, 1080), (1920, 1080), 6).unwrap().unwrap();
    assert_eq!((p.dims, p.image_res, p.image_adjust), ((3, 3), (640, 360), (0, 0)));
}

#[test]
fn merge_puts_images_side_by_side() {
    let left = DynamicImage::new_rgba8(30, 20);
    let right = DynamicImage::new_rgba8(10, 20);
    let merged = merge_two(&left, &right).unwrap();
    assert_eq!(merged.dimensions(), (40, 20));
}

#[test]
fn merge_refuses_taller_right_image() {
    let left = DynamicImage::new_rgba8(30, 20);
    let right = DynamicImage::new_rgba8(10, 21);
    assert_eq!(merge_two(&left, &right).err(), Some(TileError::TileTooLarge { index: 1 }));
}

#[test]
fn merge_refuses_overwide_canvas() {
    let left = DynamicImage::new_rgba8(u32::MAX, 0);
    let right = DynamicImage::new_rgba8(1, 0);
    assert_eq!(merge_two(&left, &right).err(), Some(TileError::CanvasTooLarge));
}

#[test]
fn prepared_tile_is_resized_before_the_crop() {
    let mut src = image::RgbaImage::from_pixel(80, 60, image::Rgba([255, 0, 0, 255]));
    for y in 0..60 {
        for x in 40..80 {
            src.put_pixel(x, y, image::Rgba([0, 0, 255, 255]));
        }
    }
    let p = params((2, 2), (40, 30), (0, 0));
    let tile = prepare_tile(&DynamicImage::ImageRgba8(src), &p);
    assert_eq!(tile.dimensions(), (40, 30));
    // the right half of the source ends up in the right half of the tile
    let right = tile.get_pixel(38, 15).0;
    assert!(right[2] > 200 && right[0] < 50);
}

fn solid(w: u32, h: u32, c: [u8; 4]) -> DynamicImage {
    DynamicImage::ImageRgba8(image::RgbaImage::from_pixel(w, h, image::Rgba(c)))
}

#[test]
fn float_tile_is_refused() {
    let p = params((2, 1), (4, 4), (0, 0));
    let tiles = vec![DynamicImage::new_rgba8(4, 4), DynamicImage::new_rgba32f(4, 4)];
    assert_eq!(compose(&tiles, &p).err(), Some(TileError::UnusableImage { index: 1 }));
    let left = DynamicImage::new_rgba32f(3, 3);
    let right = DynamicImage::new_rgba8(3, 3);
    assert_eq!(merge_two(&left, &right).err(), Some(TileError::UnusableImage { index: 0 }));
}

#[test]
fn merge_paints_left_then_right() {
    let red = [255u8, 0, 0, 255];
    let blue = [0u8, 0, 255, 255];
    let merged = merge_two(&solid(3, 4, red), &solid(2, 3, blue)).unwrap();
    assert_eq!(merged.dimensions(), (5, 4));
    assert_eq!(merged.get_pixel(2, 3).0, red);
    assert_eq!(merged.get_pixel(3, 0).0, blue);
    assert_eq!(merged.get_pixel(4, 2).0, blue);
    assert_eq!(merged.get_pixel(4, 3).0, [0, 0, 0, 0]);
}

#[test]
fn build_canvas_prepares_and_paints_every_cell() {
    let p = params((3, 2), (4, 4), (2, 0));
    let sources = vec![solid(8, 8, [255, 0, 0, 255]), solid(8, 8, [0, 255, 0, 255])];
    let canvas = build_canvas(&sources, &p).unwrap().unwrap();
    assert_eq!(canvas.dimensions(), (6, 8));
    for y in 0..8 {
        for x in 0..6 {
            let cell = (y / 4) * 3 + x / 2;
            let expected = if cell % 2 == 0 { [255, 0, 0, 255] } else { [0, 255, 0, 255] };
            assert_eq!(canvas.get_pixel(x, y).0, expected);
        }
    }
}

#[test]
fn build_canvas_reports_unusable_sources() {
    let p = params((2, 2), (4, 4), (0, 0));
    let sources = vec![DynamicImage::new_rgba8(8, 8), DynamicImage::new_rgba8(0, 8)];
    assert_eq!(build_canvas(&sources, &p).err(), Some(TileError::UnusableImage { index: 1 }));
    assert!(build_canvas(&Vec::new(), &p).unwrap().is_none());
    assert_eq!(
        build_canvas(&sources, &params((2, 0), (4, 4), (0, 0))).err(),
        Some(TileError::InvalidLayout)
    );
}

#[test]
fn checked_preparation_refuses_empty_images() {
    let p = params((2, 2), (4, 4), (0, 0));
    assert!(prepare_tile_checked(&DynamicImage::new_rgba8(0, 3), &p).is_none());
    assert!(prepare_tile_checked(&DynamicImage::new_rgba8(8, 8), &params((2, 2), (4, 4), (5, 0))).is_none());
    let tile = prepare_tile_checked(&DynamicImage::new_rgba8(8, 8), &p).unwrap();
    assert_eq!(tile.dimensions(), (4, 4));
}

#[test]
fn prepared_tile_fills_its_cell_exactly() {
    let p = find_optimal_tile((1215, 717), (2560, 1440), 3, (0, 0)).unwrap();
    let tile = prepare_tile(&DynamicImage::new_rgba8(1215, 717), &p);
    assert_eq!(
        tile.dimensions(),
        (p.image_res.0 - p.image_adjust.0, p.image_res.1 - p.image_adjust.1)
    );
    let squeezed = prepare_tile(&DynamicImage::new_rgba8(100, 10), &params((1, 1), (853, 504), (0, 0)));
    assert_eq!(squeezed.dimensions(), (853, 504));
}
