use slitscan::masker::apply;
use slitscan::params::SlitParameters;
use slitscan::pixel::Pixel;
use slitscan::raster::RasterImage;

const RED: [u8; 4] = [255, 0, 0, 255];

fn alphas(img: &RasterImage) -> Vec<u8> {
    img.as_pixels().iter().map(|p| p.a).collect()
}

fn red(width: u32, height: u32) -> RasterImage {
    RasterImage::from_pixel(width, height, Pixel::new(RED[0], RED[1], RED[2], RED[3]))
}

#[test]
fn index_zero_keeps_the_first_columns_of_each_period() {
    let params = SlitParameters::new(2, 3, 4).unwrap();
    let out = apply(&red(12, 1), &params, 0);
    assert_eq!(alphas(&out), vec![255, 255, 0, 0, 0, 255, 255, 0, 0, 0, 255, 255]);
}

#[test]
fn later_indices_move_the_bands_to_the_right() {
    let params = SlitParameters::new(2, 8, 4).unwrap();
    let frame = red(20, 1);
    let visible = |k: u32| -> Vec<u32> {
        let out = apply(&frame, &params, k);
        (0..20).filter(|&x| out.get_pixel(x, 0).unwrap().a > 0).collect()
    };
    assert_eq!(visible(0), vec![0, 1, 10, 11]);
    assert_eq!(visible(1), vec![2, 3, 12, 13]);
    assert_eq!(visible(2), vec![4, 5, 14, 15]);
    assert_eq!(visible(3), vec![6, 7, 16, 17]);
}

#[test]
fn bands_wrap_around_the_right_edge() {
    let params = SlitParameters::new(2, 2, 2).unwrap();
    // width 6, period 4, offset 3: shifted column of x is (x + 3) mod 6
    let out = apply(&red(6, 1), &params, 0);
    assert_eq!(alphas(&out), vec![255, 255, 0, 0, 255, 255]);
    let params = SlitParameters::new(3, 1, 2).unwrap();
    let out = apply(&red(6, 1), &params, 1);
    // shifted columns: 3 4 5 0 1 2, band where shifted mod 4 < 3
    assert_eq!(alphas(&out), vec![0, 255, 255, 255, 255, 255]);
}

#[test]
fn offset_larger_than_the_width_wraps() {
    let params = SlitParameters::new(3, 3, 2).unwrap();
    // width 4, offset 3 * 5 = 15, which is 3 mod 4
    let out = apply(&red(4, 1), &params, 5);
    // shifted columns: 1 2 3 0, period 6, band where shifted < 3
    assert_eq!(alphas(&out), vec![255, 255, 0, 255]);
}

#[test]
fn hidden_pixels_keep_their_colour() {
    let params = SlitParameters::new(1, 1, 2).unwrap();
    let frame = RasterImage::from_raw(2, 1, &[1, 2, 3, 4, 5, 6, 7, 8]).unwrap();
    let out = apply(&frame, &params, 0);
    assert_eq!(out.to_raw(), vec![1, 2, 3, 4, 5, 6, 7, 0]);
    let out = apply(&frame, &params, 1);
    assert_eq!(out.to_raw(), vec![1, 2, 3, 0, 5, 6, 7, 8]);
}

#[test]
fn every_row_gets_the_same_pattern() {
    let params = SlitParameters::new(1, 2, 3).unwrap();
    let out = apply(&red(5, 3), &params, 1);
    let row = vec![0, 255, 0, 0, 255];
    let mut all = Vec::new();
    for _ in 0..3 {
        all.extend_from_slice(&row);
    }
    assert_eq!(alphas(&out), all);
    assert_eq!(out.width(), 5);
    assert_eq!(out.height(), 3);
}

#[test]
fn masking_twice_equals_masking_once() {
    let params = SlitParameters::new(2, 3, 4).unwrap();
    let data: Vec<u8> = (0..7 * 2 * 4).map(|i| (i * 5 + 1) as u8).collect();
    let frame = RasterImage::from_raw(7, 2, &data).unwrap();
    for k in 0..4 {
        let once = apply(&frame, &params, k);
        let twice = apply(&once, &params, k);
        assert_eq!(once.to_raw(), twice.to_raw());
    }
}

#[test]
fn uniform_frame_alternates_bands_from_the_offset_column() {
    let params = SlitParameters::new(2, 5, 3).unwrap();
    let width = 23u32;
    for k in 0..3u32 {
        let out = apply(&red(width, 2), &params, k);
        let start = (2 * k) % width;
        for t in 0..width {
            let x = (start + t) % width;
            let expected = if t % 7 < 2 { 255 } else { 0 };
            for y in 0..2 {
                let p = out.get_pixel(x, y).unwrap();
                assert_eq!((p.r, p.g, p.b, p.a), (255, 0, 0, expected));
            }
        }
    }
}

#[test]
fn empty_frame_stays_empty() {
    let params = SlitParameters::new(2, 3, 4).unwrap();
    let out = apply(&RasterImage::new(0, 4), &params, 2);
    assert_eq!((out.width(), out.height()), (0, 4));
    assert!(out.to_raw().is_empty());
    let out = apply(&RasterImage::new(4, 0), &params, 2);
    assert_eq!((out.width(), out.height()), (4, 0));
    assert!(out.to_raw().is_empty());
}

#[test]
fn largest_parameters_do_not_overflow() {
    let params = SlitParameters::new(u32::MAX, u32::MAX, 1).unwrap();
    let out = apply(&red(3, 1), &params, u32::MAX);
    // offset = (2^32 - 1)^2 = 1 mod 3, so shifted columns are 2 0 1, all inside the band
    assert_eq!(alphas(&out), vec![255, 255, 255]);
}
