use resampler::filters::FilterType;
use resampler::images::Image;
use resampler::pixels::PixelType;
use resampler::resizer::{ResizeAlg, Resizer};

fn u8_image(width: usize, height: usize, bytes: Vec<u8>) -> Image {
    Image::from_vec(width, height, PixelType::U8, bytes).unwrap()
}

const ALL_FILTERS: [FilterType; 6] = [
    FilterType::BoxFilter,
    FilterType::Bilinear,
    FilterType::Hamming,
    FilterType::CatmullRom,
    FilterType::Mitchell,
    FilterType::Lanczos3,
];

#[test]
fn box_downscale_4x4_to_2x2_averages_blocks() {
    let src = u8_image(
        4,
        4,
        vec![
            10, 20, 30, 40, 50, 60, 70, 80, 90, 100, 110, 120, 130, 140, 150, 160,
        ],
    );
    let mut dst = Image::new(2, 2, PixelType::U8).unwrap();
    let resizer = Resizer::new(ResizeAlg::Convolution(FilterType::BoxFilter));
    resizer.resize(&src, &mut dst).unwrap();
    assert_eq!(dst.buffer().as_slice(), &[35, 55, 115, 135]);
}

#[test]
fn one_pixel_upscale_is_uniform_for_every_filter() {
    for filter in ALL_FILTERS {
        let src = u8_image(1, 1, vec![137]);
        let mut dst = Image::new(10, 10, PixelType::U8).unwrap();
        let resizer = Resizer::new(ResizeAlg::Convolution(filter));
        resizer.resize(&src, &mut dst).unwrap();
        assert_eq!(dst.buffer().len(), 100);
        for &b in dst.buffer() {
            assert_eq!(b, 137, "filter {:?}", filter);
        }
    }
}

#[test]
fn identity_resize_returns_source_for_every_filter() {
    let bytes: Vec<u8> = (0u8..27).collect();
    for filter in ALL_FILTERS {
        let src = Image::from_vec(3, 3, PixelType::U8x3, bytes.clone()).unwrap();
        let mut dst = Image::new(3, 3, PixelType::U8x3).unwrap();
        let resizer = Resizer::new(ResizeAlg::Convolution(filter));
        resizer.resize(&src, &mut dst).unwrap();
        assert_eq!(dst.buffer(), src.buffer(), "filter {:?}", filter);
    }
}

#[test]
fn identity_resize_nearest_returns_source() {
    let bytes: Vec<u8> = (0u8..36).collect();
    let src = Image::from_vec(3, 3, PixelType::U8x4, bytes.clone()).unwrap();
    let mut dst = Image::new(3, 3, PixelType::U8x4).unwrap();
    let resizer = Resizer::new(ResizeAlg::Nearest);
    resizer.resize(&src, &mut dst).unwrap();
    assert_eq!(dst.buffer(), src.buffer());
}

#[test]
fn nearest_downscale_4x4_to_2x2_picks_centers() {
    let src = u8_image(
        4,
        4,
        vec![
            10, 20, 30, 40, 50, 60, 70, 80, 90, 100, 110, 120, 130, 140, 150, 160,
        ],
    );
    let mut dst = Image::new(2, 2, PixelType::U8).unwrap();
    let resizer = Resizer::new(ResizeAlg::Nearest);
    resizer.resize(&src, &mut dst).unwrap();
    // floor((d + 1/2) * 2) = 2d + 1: columns and rows 1 and 3.
    assert_eq!(dst.buffer().as_slice(), &[60, 80, 140, 160]);
}

#[test]
fn nearest_output_pixels_occur_in_source() {
    let bytes: Vec<u8> = (0u8..32).collect();
    let src = Image::from_vec(4, 4, PixelType::U16, bytes.clone()).unwrap();
    let mut dst = Image::new(3, 3, PixelType::U16).unwrap();
    let resizer = Resizer::new(ResizeAlg::Nearest);
    resizer.resize(&src, &mut dst).unwrap();
    for dy in 0..3 {
        for dx in 0..3 {
            let d = &dst.buffer()[(dy * 3 + dx) * 2..(dy * 3 + dx) * 2 + 2];
            let mut found = false;
            for sy in 0..4 {
                for sx in 0..4 {
                    let s = &src.buffer()[(sy * 4 + sx) * 2..(sy * 4 + sx) * 2 + 2];
                    if s == d {
                        found = true;
                    }
                }
            }
            assert!(found, "pixel ({dx},{dy}) not copied verbatim");
        }
    }
}

#[test]
fn bilinear_upscale_2x1_to_3x1_interpolates_midpoint() {
    let src = u8_image(2, 1, vec![10, 20]);
    let mut dst = Image::new(3, 1, PixelType::U8).unwrap();
    let resizer = Resizer::new(ResizeAlg::Convolution(FilterType::Bilinear));
    resizer.resize(&src, &mut dst).unwrap();
    assert_eq!(dst.buffer().as_slice(), &[10, 15, 20]);
}

#[test]
fn box_downscale_u16_averages() {
    let mut bytes = Vec::new();
    bytes.extend_from_slice(&1000u16.to_le_bytes());
    bytes.extend_from_slice(&3000u16.to_le_bytes());
    let src = Image::from_vec(2, 1, PixelType::U16, bytes).unwrap();
    let mut dst = Image::new(1, 1, PixelType::U16).unwrap();
    let resizer = Resizer::new(ResizeAlg::Convolution(FilterType::BoxFilter));
    resizer.resize(&src, &mut dst).unwrap();
    assert_eq!(
        u16::from_le_bytes([dst.buffer()[0], dst.buffer()[1]]),
        2000
    );
}

#[test]
fn box_downscale_i32_averages_signed_values() {
    let mut bytes = Vec::new();
    bytes.extend_from_slice(&(-100i32).to_le_bytes());
    bytes.extend_from_slice(&300i32.to_le_bytes());
    let src = Image::from_vec(2, 1, PixelType::I32, bytes).unwrap();
    let mut dst = Image::new(1, 1, PixelType::I32).unwrap();
    let resizer = Resizer::new(ResizeAlg::Convolution(FilterType::BoxFilter));
    resizer.resize(&src, &mut dst).unwrap();
    let out = i32::from_le_bytes([
        dst.buffer()[0],
        dst.buffer()[1],
        dst.buffer()[2],
        dst.buffer()[3],
    ]);
    assert_eq!(out, 100);

    let mut bytes2 = Vec::new();
    bytes2.extend_from_slice(&(-100i32).to_le_bytes());
    bytes2.extend_from_slice(&(-300i32).to_le_bytes());
    let src2 = Image::from_vec(2, 1, PixelType::I32, bytes2).unwrap();
    let mut dst2 = Image::new(1, 1, PixelType::I32).unwrap();
    resizer.resize(&src2, &mut dst2).unwrap();
    let out2 = i32::from_le_bytes([
        dst2.buffer()[0],
        dst2.buffer()[1],
        dst2.buffer()[2],
        dst2.buffer()[3],
    ]);
    assert_eq!(out2, -200);
}

#[test]
fn channels_are_filtered_independently() {
    let src = Image::from_vec(2, 1, PixelType::U8x2, vec![10, 200, 30, 100]).unwrap();
    let mut dst = Image::new(1, 1, PixelType::U8x2).unwrap();
    let resizer = Resizer::new(ResizeAlg::Convolution(FilterType::BoxFilter));
    resizer.resize(&src, &mut dst).unwrap();
    assert_eq!(dst.buffer().as_slice(), &[20, 150]);
}

#[test]
fn negative_lobe_filters_stay_in_channel_range() {
    for filter in [
        FilterType::CatmullRom,
        FilterType::Mitchell,
        FilterType::Lanczos3,
    ] {
        let src = u8_image(4, 1, vec![0, 255, 255, 0]);
        let mut dst = Image::new(8, 1, PixelType::U8).unwrap();
        let resizer = Resizer::new(ResizeAlg::Convolution(filter));
        resizer.resize(&src, &mut dst).unwrap();
        assert_eq!(dst.buffer().len(), 8);
        // The middle of the ramp must stay bright despite the negative lobes.
        assert!(dst.buffer()[3] > 200, "filter {:?}", filter);
        assert!(dst.buffer()[4] > 200, "filter {:?}", filter);
    }
}

#[test]
fn new_image_is_zero_filled() {
    let img = Image::new(2, 2, PixelType::U8x4).unwrap();
    assert_eq!(img.width(), 2);
    assert_eq!(img.height(), 2);
    assert_eq!(img.pixel_type(), PixelType::U8x4);
    assert_eq!(img.buffer().len(), 16);
    assert!(img.buffer().iter().all(|&b| b == 0));
}

#[test]
fn hamming_downscale_3x1_to_2x1_weights_follow_the_window() {
    // Windowed-sinc weights: the near sample dominates, the sample beyond
    // the support contributes nothing.
    let src = u8_image(3, 1, vec![10, 100, 250]);
    let mut dst = Image::new(2, 1, PixelType::U8).unwrap();
    let resizer = Resizer::new(ResizeAlg::Convolution(FilterType::Hamming));
    resizer.resize(&src, &mut dst).unwrap();
    // Continuous reference: about 0.723 * 10 + 0.277 * 100 = 35 and
    // 0.277 * 100 + 0.723 * 250 = 208.
    assert!((34..=36).contains(&dst.buffer()[0]), "{}", dst.buffer()[0]);
    assert!((207..=210).contains(&dst.buffer()[1]), "{}", dst.buffer()[1]);
}

#[test]
fn hamming_upscale_2x1_to_3x1_interpolates_midpoint() {
    let src = u8_image(2, 1, vec![10, 20]);
    let mut dst = Image::new(3, 1, PixelType::U8).unwrap();
    let resizer = Resizer::new(ResizeAlg::Convolution(FilterType::Hamming));
    resizer.resize(&src, &mut dst).unwrap();
    // The edge pixels keep their values; the midpoint weights are symmetric.
    assert_eq!(dst.buffer().as_slice(), &[10, 15, 20]);
}
