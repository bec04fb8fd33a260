use rand_core::{RngCore, SeedableRng};
use speedtest_fileserver::lehmer64::{Lehmer64, Lehmer64_3, SeedError};

fn seed_123() -> [u8; 24] {
    let mut seed = [0u8; 24];
    seed[7] = 1;
    seed[15] = 2;
    seed[23] = 3;
    seed
}

#[test]
fn three_state_first_words() {
    let mut g = Lehmer64_3::from_seed(seed_123());
    assert_eq!(g.next_u64(), 0);
    assert_eq!(g.next_u64(), 1);
    assert_eq!(g.next_u64(), 2);
    assert_eq!(g.next_u64(), 13447920729462039988);
    assert_eq!(g.next_u64(), 8449097385214528361);
}

#[test]
fn single_state_first_words() {
    let mut g = Lehmer64::from_seed([0, 0, 0, 0, 0, 0, 0, 1]);
    assert_eq!(g.next_u64(), 0);
    assert_eq!(g.next_u64(), 13447920729462039988);
}

#[test]
fn seeded_alike_hand_out_the_same_words() {
    let seed: [u8; 24] = core::array::from_fn(|i| (i * 37 + 5) as u8);
    let mut a = Lehmer64_3::from_seed(seed);
    let mut b = Lehmer64_3::from_seed(seed);
    for _ in 0..1000 {
        assert_eq!(a.next_u64(), b.next_u64());
    }
}

#[test]
fn split_calls_give_the_same_output() {
    let seed: [u8; 24] = core::array::from_fn(|i| (i * 11 + 1) as u8);
    let mut a = Lehmer64_3::from_seed(seed);
    let mut b = Lehmer64_3::from_seed(seed);
    let mut whole = [0u8; 64];
    a.fill_bytes(&mut whole);
    let mut first = [0u8; 24];
    let mut second = [0u8; 40];
    b.fill_bytes(&mut first);
    b.fill_bytes(&mut second);
    assert_eq!(&whole[..24], &first[..]);
    assert_eq!(&whole[24..], &second[..]);
}

#[test]
fn reseeding_resets() {
    let seed: [u8; 24] = core::array::from_fn(|i| (200 - i) as u8);
    let mut a = Lehmer64_3::from_seed(seed);
    for _ in 0..17 {
        a.next_u64();
    }
    let mut b = Lehmer64_3::from_seed(seed);
    let mut c = Lehmer64_3::from_seed(seed);
    for _ in 0..50 {
        assert_eq!(b.next_u64(), c.next_u64());
    }
}

#[test]
fn fill_bytes_is_little_endian_words() {
    let mut a = Lehmer64_3::from_seed(seed_123());
    let mut b = Lehmer64_3::from_seed(seed_123());
    let mut buf = [0u8; 29];
    a.fill_bytes(&mut buf);
    let mut expected = Vec::new();
    for _ in 0..4 {
        expected.extend_from_slice(&b.next_u64().to_le_bytes());
    }
    assert_eq!(&buf[..], &expected[..29]);
    assert_eq!(&buf[24..29], &13447920729462039988u64.to_le_bytes()[..5]);
}

#[test]
fn short_tail_uses_one_word() {
    let mut a = Lehmer64::from_seed([9, 8, 7, 6, 5, 4, 3, 2]);
    let mut b = Lehmer64::from_seed([9, 8, 7, 6, 5, 4, 3, 2]);
    let mut buf = [0u8; 3];
    assert!(a.try_fill_bytes(&mut buf).is_ok());
    let w = b.next_u64();
    assert_eq!(&buf[..], &w.to_le_bytes()[..3]);
    assert_eq!(a.next_u64(), b.next_u64());
}

#[test]
fn next_u32_is_low_half() {
    let mut a = Lehmer64_3::from_seed(seed_123());
    let mut b = Lehmer64_3::from_seed(seed_123());
    for _ in 0..7 {
        assert_eq!(a.next_u32(), b.next_u64() as u32);
    }
}

#[test]
fn seed_length_is_checked() {
    assert_eq!(Lehmer64_3::try_from_bytes(&[0u8; 23]).err(), Some(SeedError::InvalidSeedLength));
    assert_eq!(Lehmer64_3::try_from_bytes(&[]).err(), Some(SeedError::InvalidSeedLength));
    assert_eq!(Lehmer64::try_from_bytes(&[1u8; 9]).err(), Some(SeedError::InvalidSeedLength));
    let mut a = Lehmer64_3::try_from_bytes(&seed_123()).ok().unwrap();
    assert_eq!(a.next_u64(), 0);
    assert_eq!(a.next_u64(), 1);
    let mut b = Lehmer64::try_from_bytes(&[0, 0, 0, 0, 0, 0, 0, 1]).ok().unwrap();
    assert_eq!(b.next_u64(), 0);
    assert_eq!(b.next_u64(), 13447920729462039988);
}

#[test]
fn default_generators_are_zero() {
    let mut a = Lehmer64_3::default();
    let mut b = Lehmer64::default();
    for _ in 0..6 {
        assert_eq!(a.next_u64(), 0);
        assert_eq!(b.next_u64(), 0);
    }
}

#[test]
fn seed_from_u64_is_stable() {
    let mut a = Lehmer64_3::seed_from_u64(0);
    let mut b = Lehmer64_3::seed_from_u64(0);
    let mut c = Lehmer64_3::seed_from_u64(1);
    let wa: Vec<u64> = (0..9).map(|_| a.next_u64()).collect();
    let wb: Vec<u64> = (0..9).map(|_| b.next_u64()).collect();
    let wc: Vec<u64> = (0..9).map(|_| c.next_u64()).collect();
    assert_eq!(wa, wb);
    assert_ne!(wa, wc);
}
