use image::codecs::gif::GifEncoder;
use image::{Frame, Rgba, RgbaImage};
use slitscan::compositor::CompositeError;
use slitscan::decoder::{assemble_frames, decode, DecodeError};
use slitscan::params::{ParameterError, SlitParameters};
use slitscan::pipeline::{mask_all, process, process_with, render, ProcessError};
use slitscan::pixel::Pixel;
use slitscan::raster::RasterImage;
use slitscan::sampler::{sample, select, SampleError};

fn gif_of(frames: Vec<RgbaImage>) -> Vec<u8> {
    let mut bytes = Vec::new();
    {
        let mut encoder = GifEncoder::new(&mut bytes);
        encoder.encode_frames(frames.into_iter().map(Frame::new)).unwrap();
    }
    bytes
}

fn shade(k: u32) -> [u8; 4] {
    [(10 + 20 * k) as u8, (3 * k) as u8, 200, 255]
}

/// An animation of `n` frames, frame `k` painted in `shade(k)`.
fn shaded_gif(n: u32, width: u32, height: u32) -> Vec<u8> {
    gif_of((0..n).map(|k| RgbaImage::from_pixel(width, height, Rgba(shade(k)))).collect())
}

fn red_gif(n: u32, width: u32, height: u32) -> Vec<u8> {
    gif_of((0..n).map(|_| RgbaImage::from_pixel(width, height, Rgba([255, 0, 0, 255]))).collect())
}

fn solid(width: u32, height: u32, k: u32) -> RasterImage {
    let c = shade(k);
    RasterImage::from_pixel(width, height, Pixel::new(c[0], c[1], c[2], c[3]))
}

fn first_pixels(frames: &[RasterImage]) -> Vec<Pixel> {
    frames.iter().map(|f| f.get_pixel(0, 0).unwrap()).collect()
}

fn shades(ks: &[u32]) -> Vec<Pixel> {
    ks.iter().map(|&k| { let c = shade(k); Pixel::new(c[0], c[1], c[2], c[3]) }).collect()
}

#[test]
fn decode_yields_every_frame_in_order() {
    let frames = decode(&shaded_gif(5, 6, 4)).unwrap();
    assert_eq!(frames.len(), 5);
    for (k, frame) in frames.iter().enumerate() {
        assert_eq!((frame.width(), frame.height()), (6, 4));
        let c = shade(k as u32);
        let mut expected = Vec::new();
        for _ in 0..24 {
            expected.extend_from_slice(&c);
        }
        assert_eq!(frame.to_raw(), expected);
    }
}

#[test]
fn decode_keeps_the_pixels_of_a_frame_in_place() {
    let mut img = RgbaImage::from_pixel(3, 2, Rgba([0, 0, 255, 255]));
    img.put_pixel(1, 0, Rgba([255, 0, 0, 255]));
    img.put_pixel(2, 1, Rgba([0, 255, 0, 255]));
    let frames = decode(&gif_of(vec![img])).unwrap();
    assert_eq!(frames.len(), 1);
    assert_eq!(
        frames[0].to_raw(),
        vec![
            0, 0, 255, 255, 255, 0, 0, 255, 0, 0, 255, 255, 0, 0, 255, 255, 0, 0, 255, 255, 0,
            255, 0, 255
        ]
    );
}

#[test]
fn decode_refuses_bytes_that_are_no_animation() {
    assert_eq!(decode(&[]).err(), Some(DecodeError::Malformed));
    assert_eq!(decode(b"not an animation at all").err(), Some(DecodeError::Malformed));
}

#[test]
fn decode_refuses_a_truncated_animation() {
    let bytes = shaded_gif(3, 16, 16);
    let cut = &bytes[..bytes.len() / 2];
    assert_eq!(decode(cut).err(), Some(DecodeError::Malformed));
}

#[test]
fn assemble_checks_every_buffer_against_its_size() {
    let raw = vec![(2u32, 1u32, vec![1u8, 2, 3, 4, 5, 6, 7, 8]), (1, 1, vec![9, 9, 9, 9])];
    let frames = assemble_frames(&raw).unwrap();
    assert_eq!(frames.len(), 2);
    assert_eq!(frames[0].to_raw(), vec![1, 2, 3, 4, 5, 6, 7, 8]);
    assert_eq!((frames[1].width(), frames[1].height()), (1, 1));
    let raw = vec![(2u32, 1u32, vec![1u8, 2, 3, 4, 5, 6, 7, 8]), (1, 1, vec![9, 9, 9])];
    assert!(assemble_frames(&raw).is_none());
    assert_eq!(assemble_frames(&Vec::new()).unwrap().len(), 0);
}

#[test]
fn select_keeps_frames_at_a_fixed_stride() {
    let frames: Vec<RasterImage> = (0..8).map(|k| solid(2, 2, k)).collect();
    let kept = select(frames, 4).unwrap();
    assert_eq!(first_pixels(&kept), shades(&[0, 2, 4, 6]));
}

#[test]
fn select_stops_at_the_requested_count() {
    // stride 1: positions 0, 1, 2 and no more
    let frames: Vec<RasterImage> = (0..5).map(|k| solid(2, 2, k)).collect();
    let kept = select(frames, 3).unwrap();
    assert_eq!(first_pixels(&kept), shades(&[0, 1, 2]));
    // stride 2: positions 0, 2, 4 and not 6
    let frames: Vec<RasterImage> = (0..7).map(|k| solid(2, 2, k)).collect();
    let kept = select(frames, 3).unwrap();
    assert_eq!(first_pixels(&kept), shades(&[0, 2, 4]));
}

#[test]
fn select_with_as_many_frames_as_requested_keeps_all() {
    let frames: Vec<RasterImage> = (0..4).map(|k| solid(1, 1, k)).collect();
    let kept = select(frames, 4).unwrap();
    assert_eq!(first_pixels(&kept), shades(&[0, 1, 2, 3]));
    let frames: Vec<RasterImage> = (0..9).map(|k| solid(1, 1, k)).collect();
    let kept = select(frames, 1).unwrap();
    assert_eq!(first_pixels(&kept), shades(&[0]));
}

#[test]
fn select_reports_each_error() {
    let frames = |n: u32| -> Vec<RasterImage> { (0..n).map(|k| solid(1, 1, k)).collect() };
    assert_eq!(select(frames(3), 0).err(), Some(SampleError::ZeroFrameCount));
    assert_eq!(select(frames(0), 0).err(), Some(SampleError::ZeroFrameCount));
    assert_eq!(select(frames(0), 2).err(), Some(SampleError::EmptyAnimation));
    assert_eq!(select(frames(2), 3).err(), Some(SampleError::InsufficientFrames));
    assert_eq!(select(frames(3), 5).err(), Some(SampleError::InsufficientFrames));
}

#[test]
fn sample_returns_exactly_the_requested_number_of_frames() {
    let bytes = shaded_gif(8, 4, 3);
    for n in 1..=8u32 {
        let kept = sample(&bytes, n).unwrap();
        assert_eq!(kept.len(), n as usize);
        let stride = 8 / n;
        let expected: Vec<u32> = (0..n).map(|k| k * stride).collect();
        assert_eq!(first_pixels(&kept), shades(&expected));
    }
}

#[test]
fn sample_on_too_few_frames_is_insufficient() {
    let bytes = shaded_gif(3, 4, 3);
    assert_eq!(sample(&bytes, 5).err(), Some(SampleError::InsufficientFrames));
    assert_eq!(sample(&bytes, 4).err(), Some(SampleError::InsufficientFrames));
    assert_eq!(sample(&bytes, 3).unwrap().len(), 3);
}

#[test]
fn sample_three_of_five_frames() {
    let kept = sample(&shaded_gif(5, 4, 3), 3).unwrap();
    assert_eq!(first_pixels(&kept), shades(&[0, 1, 2]));
}

/// A well-formed container that holds a palette and a comment but no frame.
fn frameless_gif() -> Vec<u8> {
    let mut bytes: Vec<u8> = b"GIF89a".to_vec();
    bytes.extend_from_slice(&[1, 0, 1, 0, 0x80, 0, 0]);
    bytes.extend_from_slice(&[0, 0, 0, 255, 255, 255]);
    bytes.extend_from_slice(&[0x21, 0xfe, 2, b'h', b'i', 0]);
    bytes.push(0x3b);
    bytes
}

#[test]
fn sample_of_a_frameless_animation_is_empty() {
    assert_eq!(decode(&frameless_gif()).unwrap().len(), 0);
    assert_eq!(sample(&frameless_gif(), 1).err(), Some(SampleError::EmptyAnimation));
    assert_eq!(sample(&frameless_gif(), 4).err(), Some(SampleError::EmptyAnimation));
    assert_eq!(
        process(&frameless_gif(), 2, 4).err(),
        Some(ProcessError::Sample(SampleError::EmptyAnimation))
    );
}

#[test]
fn sample_reports_decode_errors() {
    assert_eq!(
        sample(b"GIF89a", 2).err(),
        Some(SampleError::Decode(DecodeError::Malformed))
    );
    assert_eq!(sample(b"GIF89a", 0).err(), Some(SampleError::ZeroFrameCount));
    assert_eq!(sample(&shaded_gif(2, 2, 2), 0).err(), Some(SampleError::ZeroFrameCount));
}

#[test]
fn mask_all_uses_the_position_as_sample_index() {
    let params = SlitParameters::new(1, 2, 3).unwrap();
    let frames: Vec<RasterImage> = (0..3).map(|k| solid(6, 1, k)).collect();
    let banded = mask_all(&frames, &params);
    let alphas: Vec<Vec<u8>> =
        banded.iter().map(|f| f.as_pixels().iter().map(|p| p.a).collect()).collect();
    assert_eq!(
        alphas,
        vec![
            vec![255, 0, 0, 255, 0, 0],
            vec![0, 255, 0, 0, 255, 0],
            vec![0, 0, 255, 0, 0, 255],
        ]
    );
}

#[test]
fn render_interleaves_the_frames() {
    let params = SlitParameters::new(1, 2, 3).unwrap();
    let frames: Vec<RasterImage> = (0..3).map(|k| solid(6, 2, k)).collect();
    let scan = render(&frames, &params).unwrap();
    let row = shades(&[0, 1, 2, 0, 1, 2]);
    let mut expected = row.clone();
    expected.extend_from_slice(&row);
    assert_eq!(scan.composite.as_pixels(), &expected[..]);
    let mask_alphas: Vec<u8> = scan.mask.as_pixels().iter().map(|p| p.a).collect();
    assert_eq!(mask_alphas, vec![0, 255, 255, 0, 255, 255, 0, 255, 255, 0, 255, 255]);
}

#[test]
fn render_reports_composite_errors() {
    let params = SlitParameters::new(1, 2, 3).unwrap();
    assert_eq!(render(&[], &params).err(), Some(CompositeError::EmptyInput));
    let frames = vec![solid(6, 2, 0), solid(6, 3, 1)];
    assert_eq!(render(&frames, &params).err(), Some(CompositeError::DimensionMismatch));
}

#[test]
fn solid_red_animation_end_to_end() {
    let scan = process(&red_gif(8, 40, 10), 2, 4).unwrap();
    assert_eq!((scan.composite.width(), scan.composite.height()), (40, 10));
    assert_eq!((scan.mask.width(), scan.mask.height()), (40, 10));
    // spacing 4 * 2 = 8, period 10: the four frames fill columns 0..8 of each period
    for y in 0..10 {
        for x in 0..40 {
            let expected =
                if x % 10 < 8 { Pixel::new(255, 0, 0, 255) } else { Pixel::new(0, 0, 0, 0) };
            assert_eq!(scan.composite.get_pixel(x, y), Some(expected));
            let legend = if x % 10 < 2 { Pixel::new(0, 0, 0, 0) } else { Pixel::new(0, 0, 0, 255) };
            assert_eq!(scan.mask.get_pixel(x, y), Some(legend));
        }
    }
}

#[test]
fn end_to_end_picks_frames_at_stride_two() {
    let scan = process(&shaded_gif(8, 40, 1), 2, 4).unwrap();
    let row: Vec<Pixel> = (0..40).map(|x| scan.composite.get_pixel(x, 0).unwrap()).collect();
    let s = shades(&[0, 2, 4, 6]);
    let clear = Pixel::new(0, 0, 0, 0);
    let period = vec![s[0], s[0], s[1], s[1], s[2], s[2], s[3], s[3], clear, clear];
    let mut expected = Vec::new();
    for _ in 0..4 {
        expected.extend_from_slice(&period);
    }
    assert_eq!(row, expected);
}

#[test]
fn spacing_that_leaves_no_gap_covers_every_column() {
    // slit width 2, four frames, spacing 6: period 8 is tiled by the four bands
    let params = SlitParameters::new(2, 6, 4).unwrap();
    let scan = process_with(&red_gif(8, 40, 10), &params).unwrap();
    assert!(scan.composite.as_pixels().iter().all(|p| *p == Pixel::new(255, 0, 0, 255)));
}

#[test]
fn process_on_too_few_frames_yields_nothing() {
    let res = process(&shaded_gif(3, 8, 2), 2, 5);
    assert_eq!(res.err(), Some(ProcessError::Sample(SampleError::InsufficientFrames)));
}

#[test]
fn process_three_of_five_frames() {
    let scan = process(&shaded_gif(5, 12, 1), 1, 3).unwrap();
    let row: Vec<Pixel> = (0..12).map(|x| scan.composite.get_pixel(x, 0).unwrap()).collect();
    let s = shades(&[0, 1, 2]);
    let clear = Pixel::new(0, 0, 0, 0);
    let period = vec![s[0], s[1], s[2], clear];
    let mut expected = Vec::new();
    for _ in 0..3 {
        expected.extend_from_slice(&period);
    }
    assert_eq!(row, expected);
}

#[test]
fn process_rejects_bad_parameters_before_reading_the_bytes() {
    let bytes = shaded_gif(2, 2, 2);
    assert_eq!(
        process(&bytes, 0, 2).err(),
        Some(ProcessError::Parameter(ParameterError::ZeroSlitWidth))
    );
    assert_eq!(
        process(b"junk", 0, 2).err(),
        Some(ProcessError::Parameter(ParameterError::ZeroSlitWidth))
    );
    assert_eq!(
        process(&bytes, 2, 0).err(),
        Some(ProcessError::Parameter(ParameterError::ZeroFrameCount))
    );
    assert_eq!(
        process(&bytes, 65536, 65536).err(),
        Some(ProcessError::Parameter(ParameterError::SpacingOverflow))
    );
}

#[test]
fn process_reports_decode_errors() {
    assert_eq!(
        process(b"junk", 2, 2).err(),
        Some(ProcessError::Sample(SampleError::Decode(DecodeError::Malformed)))
    );
}
