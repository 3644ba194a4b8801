use milk_filter::buffer::RgbImage;
use milk_filter::filt::{
    apply_filter, below_chance, bucket, color_for, needs_draw, palette_color, pixel_brightness, row_seed,
    MilkConfig,
};

const A0: (u8, u8, u8) = (0, 0, 0);
const A1: (u8, u8, u8) = (102, 0, 31);
const A2: (u8, u8, u8) = (137, 0, 146);
const B1: (u8, u8, u8) = (92, 36, 60);
const B2: (u8, u8, u8) = (203, 43, 43);

fn gray_row(values: &[u8]) -> RgbImage {
    let mut data = Vec::new();
    for v in values {
        data.extend_from_slice(&[*v, *v, *v]);
    }
    RgbImage::from_raw(values.len() as u32, 1, data).unwrap()
}

fn pixels(img: &RgbImage) -> Vec<(u8, u8, u8)> {
    img.data.chunks(3).map(|p| (p[0], p[1], p[2])).collect()
}

#[test]
fn overrides_pick_each_bucket_colour() {
    let mut conf = MilkConfig::new();
    conf.s1 = Some(2);
    conf.s2 = Some(1);
    conf.s3 = Some(0);
    conf.s4 = Some(2);
    conf.s5 = Some(1);
    conf.s6 = Some(0);
    let mut img = gray_row(&[10, 50, 100, 160, 210, 250]);
    apply_filter(&mut img, &conf);
    assert_eq!(pixels(&img), vec![A2, A1, A0, A2, A1, A0]);
}

#[test]
fn defaults_without_dithering() {
    let mut conf = MilkConfig::new();
    let mut img = gray_row(&[10, 50, 100, 160, 210, 250]);
    apply_filter(&mut img, &conf);
    assert_eq!(pixels(&img), vec![A0, A0, A1, A1, A2, A2]);
    conf.eff = 1;
    let mut img = gray_row(&[10, 50, 100, 160, 210, 250]);
    apply_filter(&mut img, &conf);
    assert_eq!(pixels(&img), vec![A0, A1, A0, A0, A2, A2]);
}

#[test]
fn alternative_palette_and_thresholds() {
    let mut conf = MilkConfig::new();
    conf.alt = true;
    let mut img = gray_row(&[10, 80, 100, 160, 240]);
    apply_filter(&mut img, &conf);
    assert_eq!(pixels(&img), vec![A0, B1, B1, B2, B2]);
}

#[test]
fn bucket_boundaries() {
    assert_eq!(bucket(25, false), 1);
    assert_eq!(bucket(26, false), 2);
    assert_eq!(bucket(70, false), 2);
    assert_eq!(bucket(71, false), 3);
    assert_eq!(bucket(119, false), 3);
    assert_eq!(bucket(120, false), 4);
    assert_eq!(bucket(199, false), 4);
    assert_eq!(bucket(200, false), 5);
    assert_eq!(bucket(229, false), 5);
    assert_eq!(bucket(230, false), 6);
    assert_eq!(bucket(89, true), 3);
    assert_eq!(bucket(90, true), 4);
    assert_eq!(bucket(150, true), 5);
}

#[test]
fn brightness_truncates() {
    assert_eq!(pixel_brightness(255, 255, 255), 255);
    assert_eq!(pixel_brightness(1, 1, 0), 0);
    assert_eq!(pixel_brightness(10, 20, 31), 20);
}

#[test]
fn colour_for_each_coin() {
    let mut conf = MilkConfig::new();
    assert_eq!(color_for(&conf, 50, true), A0);
    assert_eq!(color_for(&conf, 50, false), A1);
    assert_eq!(color_for(&conf, 100, false), A0);
    assert_eq!(color_for(&conf, 210, false), A1);
    conf.eff = 1;
    assert_eq!(color_for(&conf, 50, false), A0);
    assert_eq!(color_for(&conf, 160, false), A1);
    assert_eq!(color_for(&conf, 100, false), A0);
    conf.s2 = Some(2);
    assert_eq!(color_for(&conf, 50, false), A2);
    assert!(!needs_draw(&conf, 50));
    assert!(needs_draw(&conf, 160));
    assert!(!needs_draw(&conf, 10));
    assert_eq!(palette_color(true, 2), B2);
}

#[test]
fn pinned_filter_repeats_itself() {
    let mut conf = MilkConfig::new();
    conf.s1 = Some(1);
    conf.s2 = Some(1);
    conf.s3 = Some(1);
    conf.s4 = Some(1);
    conf.s5 = Some(1);
    conf.s6 = Some(1);
    let data: Vec<u8> = (0..=255u8).chain(0..=255u8).chain(0..=255u8).collect();
    let mut a = RgbImage::from_raw(16, 16, data.clone()).unwrap();
    let mut b = RgbImage::from_raw(16, 16, data).unwrap();
    apply_filter(&mut a, &conf);
    apply_filter(&mut b, &conf);
    assert_eq!(a.data, b.data);
    assert!(pixels(&a).iter().all(|p| *p == A1));
}

#[test]
fn row_seed_formula() {
    assert_eq!(row_seed(4, 2), 14u64 ^ 0x123456789abcdef0);
    assert_eq!(row_seed(0, 0), 0x123456789abcdef0);
    assert_eq!(row_seed(100, 7), 307u64 ^ 0x123456789abcdef0);
}

#[test]
fn dithering_is_reproducible_per_row() {
    let mut conf = MilkConfig::new();
    conf.pointism = true;
    let data: Vec<u8> = vec![50; 300 * 4 * 3];
    let mut a = RgbImage::from_raw(300, 4, data.clone()).unwrap();
    let mut b = RgbImage::from_raw(300, 4, data).unwrap();
    apply_filter(&mut a, &conf);
    apply_filter(&mut b, &conf);
    assert_eq!(a.data, b.data);
    let px = pixels(&a);
    assert!(px.iter().all(|p| *p == A0 || *p == A1));
    let dark = px.iter().filter(|p| **p == A0).count();
    assert!(dark > 600 && dark < 1100);
}

#[test]
fn empty_image_filters_to_empty() {
    let conf = MilkConfig::new();
    let mut img = RgbImage::from_raw(0, 3, vec![]).unwrap();
    apply_filter(&mut img, &conf);
    assert!(img.data.is_empty());
}

#[test]
fn override_past_palette_is_last_colour() {
    let mut conf = MilkConfig::new();
    conf.s1 = Some(3);
    conf.s6 = Some(usize::MAX);
    let mut img = gray_row(&[10, 250]);
    apply_filter(&mut img, &conf);
    assert_eq!(pixels(&img), vec![A2, A2]);
    assert_eq!(color_for(&conf, 0, true), A2);
}

#[test]
fn draw_compared_with_chance() {
    assert!(below_chance(u64::MAX, 1, 1));
    assert!(below_chance(0, 7, 10));
    assert!(!below_chance(0, 0, 1));
    // 0.7 * 2^64 = 12912720851596686131.2
    assert!(below_chance(12912720851596686131, 7, 10));
    assert!(!below_chance(12912720851596686132, 7, 10));
}
