use rusty_splash::layout::{
    calculate_tile_x_bias, calculate_tile_y_bias, find_optimal_tile, tile_meets_floor, TileParams,
};

fn parts(p: &TileParams) -> ((u32, u32), (u32, u32), (u32, u32)) {
    (p.dims, p.image_res, p.image_adjust)
}

#[test]
fn width_bias_on_wide_container() {
    let x = calculate_tile_x_bias((1920, 1080), (3840, 1600), 0);
    assert_eq!(x.dims.0, 2);
    assert_eq!(parts(&x), ((2, 2), (1920, 1080), (0, 280)));
}

#[test]
fn height_bias_on_wide_container() {
    let y = calculate_tile_y_bias((1920, 1080), (3840, 1600), 0);
    assert_eq!(parts(&y), ((3, 2), (1422, 800), (143, 0)));
}

#[test]
fn one_axis_cropped_per_bias() {
    let x = calculate_tile_x_bias((1215, 717), (1920, 1080), 1);
    let y = calculate_tile_y_bias((1215, 717), (1920, 1080), 1);
    assert_eq!(x.image_adjust.0, 0);
    assert_eq!(y.image_adjust.1, 0);
    assert_eq!(parts(&x), ((3, 3), (640, 378), (0, 18)));
}

#[test]
fn accepts_at_zero_looseness_on_wide_container() {
    let p = find_optimal_tile((1920, 1080), (3840, 1600), 0, (0, 0)).unwrap();
    assert!(p.dims.0 * p.dims.1 >= 1);
    assert_eq!(parts(&p), ((3, 2), (1422, 800), (143, 0)));
}

#[test]
fn loosens_until_enough_cells() {
    let p = find_optimal_tile((1920, 1080), (1920, 1080), 6, (0, 0)).unwrap();
    assert!(p.dims.0 * p.dims.1 > 6);
    assert_eq!(parts(&p), ((3, 3), (640, 360), (0, 0)));
}

#[test]
fn unreachable_floor_gives_no_layout() {
    assert!(find_optimal_tile((1920, 1080), (3840, 1600), 0, (5000, 0)).is_none());
    assert!(find_optimal_tile((1920, 1080), (1920, 1080), 6, (1000, 600)).is_none());
}

#[test]
fn floor_is_checked_after_the_crop() {
    // the kept fit is 1422 wide before and 1279 after its crop
    assert!(find_optimal_tile((1920, 1080), (3840, 1600), 0, (1279, 800)).is_some());
    assert!(find_optimal_tile((1920, 1080), (3840, 1600), 0, (1280, 0)).is_none());
}

#[test]
fn floor_is_checked_on_each_side() {
    let p = calculate_tile_y_bias((1920, 1080), (3840, 1600), 0);
    assert!(tile_meets_floor(&p, (1279, 800)));
    assert!(!tile_meets_floor(&p, (1278, 801)));
    assert!(!tile_meets_floor(&p, (1280, 0)));
    assert!(find_optimal_tile((1920, 1080), (3840, 1600), 0, (0, 1000)).is_none());
    assert!(find_optimal_tile((1920, 1080), (3840, 1600), 0, (0, 800)).is_some());
}

#[test]
fn crop_larger_than_tile_is_not_feasible() {
    // the kept candidate has tiles 0 wide with a crop of 1
    let y = calculate_tile_y_bias((1, 1000), (1, 300), 0);
    assert_eq!(parts(&y), ((4, 1), (0, 300), (1, 0)));
    assert!(!tile_meets_floor(&y, (0, 0)));
    assert!(find_optimal_tile((1, 1000), (1, 300), 0, (0, 0)).is_none());
}

#[test]
fn no_floor_finds_a_layout() {
    let p = find_optimal_tile((1215, 717), (2560, 1440), 40, (0, 0)).unwrap();
    assert!(p.dims.0 * p.dims.1 > 40);
    assert!(p.image_adjust.0 <= p.image_res.0 && p.image_adjust.1 <= p.image_res.1);
}

#[test]
fn same_inputs_same_layout() {
    let a = find_optimal_tile((1215, 717), (2560, 1440), 11, (0, 0)).unwrap();
    let b = find_optimal_tile((1215, 717), (2560, 1440), 11, (0, 0)).unwrap();
    assert_eq!(parts(&a), parts(&b));
}

#[test]
fn looseness_shrinks_tiles_and_adds_cells() {
    let mut last_x = calculate_tile_x_bias((1215, 717), (2560, 1440), 0);
    let mut last_y = calculate_tile_y_bias((1215, 717), (2560, 1440), 0);
    for c in 1..20 {
        let x = calculate_tile_x_bias((1215, 717), (2560, 1440), c);
        let y = calculate_tile_y_bias((1215, 717), (2560, 1440), c);
        assert!(x.image_res.0 <= last_x.image_res.0 && x.image_res.1 <= last_x.image_res.1);
        assert!(y.image_res.0 <= last_y.image_res.0 && y.image_res.1 <= last_y.image_res.1);
        assert!(x.dims.0 * x.dims.1 >= last_x.dims.0 * last_x.dims.1);
        assert!(y.dims.0 * y.dims.1 >= last_y.dims.0 * last_y.dims.1);
        last_x = x;
        last_y = y;
    }
}

#[test]
fn accepted_layout_nearly_covers() {
    for (native, container, count) in [
        ((1920u32, 1080u32), (3840u32, 1600u32), 0u32),
        ((1215, 717), (2560, 1440), 11),
        ((1215, 717), (1920, 1080), 5),
        ((100, 100), (300, 200), 0),
    ] {
        let p = find_optimal_tile(native, container, count, (0, 0)).unwrap();
        let w = p.dims.0 * (p.image_res.0 - p.image_adjust.0);
        let h = p.dims.1 * (p.image_res.1 - p.image_adjust.1);
        assert!(2 * w + 3 * p.dims.0 > 2 * container.0);
        assert!(2 * h + 3 * p.dims.1 > 2 * container.1);
    }
}

#[test]
fn exact_fit_covers_exactly() {
    let p = find_optimal_tile((100, 100), (300, 200), 0, (0, 0)).unwrap();
    assert_eq!(parts(&p), ((3, 2), (100, 100), (0, 0)));
}

#[test]
fn huge_minimum_count_gives_no_layout() {
    // the grid would need more than u32::MAX columns before the count is met
    assert!(find_optimal_tile((1, 1), (u32::MAX, 1), u32::MAX, (0, 0)).is_none());
}
