use milk_filter::smix64::SplitMix64;

#[test]
fn random_u64() {
    let mut rng = SplitMix64::from_seed(1234567);
    assert_eq!(rng.gen_u64(), 6457827717110365317);
    assert_eq!(rng.gen_u64(), 3203168211198807973);
    assert_eq!(rng.gen_u64(), 9817491932198370423);
    assert_eq!(rng.gen_u64(), 4593380528125082431);
    assert_eq!(rng.gen_u64(), 16408922859458223821);
}

#[test]
fn same_seed_same_stream() {
    let mut a = SplitMix64::from_seed(42);
    let mut b = SplitMix64::from_seed(42);
    for _ in 0..100 {
        assert_eq!(a.gen_u64(), b.gen_u64());
    }
}

#[test]
fn gen_u32_is_upper_half() {
    let mut a = SplitMix64::from_seed(1234567);
    let mut b = SplitMix64::from_seed(1234567);
    assert_eq!(a.gen_u32(), (b.gen_u64() >> 32) as u32);
    assert_eq!(a.gen_u32(), (3203168211198807973u64 >> 32) as u32);
}

#[test]
fn new_starts_from_zero() {
    let mut a = SplitMix64::new();
    let mut b = SplitMix64::from_seed(0);
    assert_eq!(a.gen_u64(), b.gen_u64());
}
