use milk_filter::buffer::RgbImage;
use milk_filter::comp::{
    auto_block, jpeg_blockiness, jpeg_quantization, num_levels, quality_for, quantization_lut,
};

fn image(width: u32, height: u32, data: Vec<u8>) -> RgbImage {
    RgbImage::from_raw(width, height, data).unwrap()
}

#[test]
fn levels_follow_quality() {
    assert_eq!(num_levels(100), 256);
    assert_eq!(num_levels(50), 129);
    assert_eq!(num_levels(5), 15);
    assert_eq!(num_levels(0), 2);
    assert_eq!(num_levels(1000), 256);
}

#[test]
fn quality_is_floored() {
    assert_eq!(quality_for(0), 100);
    assert_eq!(quality_for(30), 70);
    assert_eq!(quality_for(95), 5);
    assert_eq!(quality_for(100), 5);
    assert_eq!(quality_for(255), 5);
}

#[test]
fn auto_block_rounds_and_clamps() {
    assert_eq!(auto_block(0), 1);
    assert_eq!(auto_block(50), 4);
    assert_eq!(auto_block(100), 7);
    assert_eq!(auto_block(255), 7);
    assert_eq!(auto_block(114), 7);
    assert_eq!(auto_block(93), 7);
    assert_eq!(auto_block(92), 6);
}

#[test]
fn lut_exact_values() {
    let lut = quantization_lut(2);
    assert_eq!(lut[0], 0);
    assert_eq!(lut[127], 0);
    assert_eq!(lut[128], 255);
    assert_eq!(lut[255], 255);
    let lut = quantization_lut(256);
    for v in 0..256usize {
        assert_eq!(lut[v] as usize, v);
    }
    let lut = quantization_lut(129);
    assert_eq!(lut[100], 99);
}

#[test]
fn lut_monotonic_and_idempotent() {
    for q in [5u32, 20, 50, 100] {
        let lut = quantization_lut(num_levels(q));
        for v in 0..255usize {
            assert!(lut[v] <= lut[v + 1]);
        }
    }
    for n in [2u32, 4, 16, 64, 128, 256] {
        let lut = quantization_lut(n);
        for v in 0..256usize {
            assert_eq!(lut[lut[v] as usize], lut[v]);
        }
    }
}

#[test]
fn lut_not_idempotent_for_seventeen_levels() {
    let lut = quantization_lut(17);
    assert_eq!(lut[16], 15);
    assert_eq!(lut[15], 0);
}

#[test]
fn quantization_maps_every_byte() {
    let mut img = image(2, 1, vec![0, 100, 128, 200, 255, 1]);
    jpeg_quantization(&mut img, 0);
    assert_eq!(img.data, vec![0, 0, 255, 255, 255, 0]);
    let mut img = image(2, 1, vec![0, 100, 128, 200, 255, 1]);
    jpeg_quantization(&mut img, 100);
    assert_eq!(img.data, vec![0, 100, 128, 200, 255, 1]);
}

#[test]
fn quantization_twice_is_once() {
    for q in [5u32, 33, 100] {
        let data: Vec<u8> = (0..=255u8).chain(0..2u8).collect();
        let mut a = image(86, 1, data);
        jpeg_quantization(&mut a, q);
        let once = a.data.clone();
        jpeg_quantization(&mut a, q);
        assert_eq!(a.data, once);
    }
}

#[test]
fn blockiness_averages_runs_of_a_row() {
    let row = vec![0, 0, 0, 10, 20, 30, 5, 5, 5, 7, 9, 11, 100, 50, 25];
    let mut data = row.clone();
    data.extend_from_slice(&[1, 2, 3, 4, 5, 6, 9, 9, 9, 0, 0, 0, 8, 8, 8]);
    let mut img = image(5, 2, data);
    jpeg_blockiness(&mut img, 2);
    assert_eq!(
        img.data,
        vec![
            5, 10, 15, 5, 10, 15, 6, 7, 8, 6, 7, 8, 100, 50, 25, 2, 3, 4, 2, 3, 4, 4, 4, 4, 4, 4,
            4, 8, 8, 8
        ]
    );
    assert_eq!(img.width(), 5);
    assert_eq!(img.height(), 2);
}

#[test]
fn blockiness_trailing_block_uses_its_own_count() {
    let mut img = image(4, 1, vec![0, 0, 0, 30, 30, 30, 60, 60, 60, 10, 20, 31]);
    jpeg_blockiness(&mut img, 3);
    assert_eq!(img.data, vec![30, 30, 30, 30, 30, 30, 30, 30, 30, 10, 20, 31]);
}

#[test]
fn blockiness_block_wider_than_row() {
    let mut img = image(2, 1, vec![0, 1, 2, 3, 4, 6]);
    jpeg_blockiness(&mut img, 64);
    assert_eq!(img.data, vec![1, 2, 4, 1, 2, 4]);
}

#[test]
fn blockiness_small_sizes_change_nothing() {
    let data = vec![0, 0, 0, 10, 20, 30, 5, 5, 5];
    let mut img = image(3, 1, data.clone());
    jpeg_blockiness(&mut img, 1);
    assert_eq!(img.data, data);
    jpeg_blockiness(&mut img, 0);
    assert_eq!(img.data, data);
}

#[test]
fn blockiness_empty_image() {
    let mut img = image(0, 0, vec![]);
    jpeg_blockiness(&mut img, 4);
    assert!(img.data.is_empty());
}

#[test]
fn from_raw_checks_length() {
    assert!(RgbImage::from_raw(2, 2, vec![0; 12]).is_some());
    assert!(RgbImage::from_raw(2, 2, vec![0; 11]).is_none());
    let img = RgbImage::from_raw(1, 1, vec![1, 2, 3]).unwrap();
    assert_eq!(img.as_raw(), &vec![1u8, 2, 3]);
}
