use nv_flip::{FlipImageFloat, FlipImageRgb8, SAMPLE_ONE};

#[test]
fn lib_creation_deletion() {
    let image = FlipImageRgb8::new(10, 10);
    assert_eq!((image.width(), image.height()), (10, 10));
    drop(image);
}

#[test]
fn lib_creation_with_data_and_deletion() {
    let data = vec![0u8; 10 * 10 * 3];
    let image = FlipImageRgb8::with_data(10, 10, &data);
    assert_eq!((image.width(), image.height()), (10, 10));
    drop(image);
}

#[test]
fn zeroed_init() {
    assert_eq!(FlipImageRgb8::new(10, 10).to_vec(), vec![0u8; 10 * 10 * 3]);
    assert_eq!(FlipImageFloat::new(10, 10).to_vec(), vec![0i32; 10 * 10]);
}

#[test]
fn rgb8_bytes_round_trip() {
    let data: Vec<u8> = (0..2 * 3 * 3).map(|i| (i * 37 % 256) as u8).collect();
    let image = FlipImageRgb8::with_data(3, 2, &data);
    assert_eq!(image.to_vec(), data);
}

#[test]
fn with_data_keeps_only_the_image_prefix() {
    let data: Vec<u8> = (0..20).collect();
    let image = FlipImageRgb8::with_data(2, 3, &data);
    assert_eq!(image.to_vec(), (0..18).collect::<Vec<u8>>());
    let samples: Vec<i32> = (0..7).map(|i| i * 1000 - 3000).collect();
    let float_image = FlipImageFloat::with_data(3, 2, &samples);
    assert_eq!(float_image.to_vec(), samples[..6].to_vec());
    assert_eq!((float_image.width(), float_image.height()), (3, 2));
}

#[test]
fn clones_keep_contents() {
    let image = FlipImageRgb8::with_data(1, 2, &[1, 2, 3, 4, 5, 6]);
    let copy = image.clone();
    assert_eq!(copy.to_vec(), image.to_vec());
    assert_eq!((copy.width(), copy.height()), (1, 2));
    let float_image = FlipImageFloat::with_data(2, 1, &[7, -8]);
    assert_eq!(float_image.clone().to_vec(), vec![7, -8]);
}

#[test]
fn color_lut_maps_rounded_samples() {
    // Four table entries: index = round(sample * 255) mod 4.
    let lut = FlipImageRgb8::with_data(4, 1, &[10, 11, 12, 20, 21, 22, 30, 31, 32, 40, 41, 42]);
    let samples = [SAMPLE_ONE / 2, SAMPLE_ONE, 65793, -65793, 0];
    let image = FlipImageFloat::with_data(5, 1, &samples);
    let coloured = image.apply_color_lut(&lut);
    assert_eq!((coloured.width(), coloured.height()), (5, 1));
    assert_eq!(
        coloured.to_vec(),
        vec![10, 11, 12, 40, 41, 42, 20, 21, 22, 40, 41, 42, 10, 11, 12]
    );
}

#[test]
fn color_lut_of_full_width_picks_the_rounded_entry() {
    let table: Vec<u8> = (0..=255u8).flat_map(|i| [i, 255 - i, i / 2]).collect();
    let lut = FlipImageRgb8::with_data(256, 1, &table);
    let image = FlipImageFloat::with_data(1, 1, &[SAMPLE_ONE / 4]);
    // 0.25 * 255 = 63.75, which rounds to 64.
    assert_eq!(image.apply_color_lut(&lut).to_vec(), vec![64, 191, 32]);
}

#[test]
fn lut_index_rounds_half_away_from_zero() {
    assert_eq!(nv_flip::sample::lut_index_of(SAMPLE_ONE / 2, 256), 128);
    assert_eq!(nv_flip::sample::lut_index_of(-SAMPLE_ONE / 2, 256), 128);
    assert_eq!(nv_flip::sample::lut_index_of(SAMPLE_ONE, 256), 255);
    assert_eq!(nv_flip::sample::lut_index_of(2 * SAMPLE_ONE, 256), 254);
    assert_eq!(nv_flip::sample::lut_index_of(0, 1), 0);
}

#[test]
fn to_color3_encodes_linear_samples_as_srgb() {
    // 0.5 linear is 0.7354 in sRGB, 188 of 255; 0.2 linear is 124.
    let samples = [0, SAMPLE_ONE, SAMPLE_ONE / 2, 3355443, 2547, 2546, -5, 2 * SAMPLE_ONE];
    let image = FlipImageFloat::with_data(4, 2, &samples);
    let grey = image.to_color3();
    assert_eq!((grey.width(), grey.height()), (4, 2));
    let expected: Vec<u8> = [0u8, 255, 188, 124, 1, 0, 0, 255]
        .iter()
        .flat_map(|b| [*b, *b, *b])
        .collect();
    assert_eq!(grey.to_vec(), expected);
}

#[test]
fn magma_lut_is_a_256_entry_row() {
    let lut = nv_flip::magma_lut();
    assert_eq!((lut.width(), lut.height()), (256, 1));
    let bytes = lut.to_vec();
    assert_eq!(bytes.len(), 768);
    assert_eq!(&bytes[..3], &[0, 0, 4]);
    assert_eq!(&bytes[384..387], &[183, 55, 121]);
    assert_eq!(&bytes[765..], &[252, 253, 191]);
}

#[test]
fn magma_maps_error_extremes_to_its_ends() {
    let lut = nv_flip::magma_lut();
    let errors = FlipImageFloat::with_data(3, 1, &[0, SAMPLE_ONE / 2, SAMPLE_ONE]);
    assert_eq!(
        errors.apply_color_lut(&lut).to_vec(),
        vec![0, 0, 4, 183, 55, 121, 252, 253, 191]
    );
}
