use rom_shuffle::rng::{xs_choice, xs_choice_str, xs_from_seed, xs_shuffle, xs_u32, xorshift, Xs};

fn state(v: u32) -> Xs {
    Xs { x0: v, x1: v, x2: v, x3: v }
}

#[test]
fn xs_test() {
    let xs: &mut Xs = &mut state(42);
    for _ in 0..1000 {
        xs_u32(xs, 1, 0x16C);
    }

    for _ in 0..10 {
        let v = xs_u32(xs, 1, 0x16C);
        assert!(1 <= v && v < 0x16C);
    }
}

#[test]
fn uniform_stays_in_range() {
    let xs = &mut state(0xDEAD_BEEF);
    for _ in 0..500 {
        let v = xs_u32(xs, 10, 20);
        assert!(10 <= v && v < 20);
    }
    let xs2 = &mut xs_from_seed(999);
    for _ in 0..500 {
        let v = xs_u32(xs2, 0, 1);
        assert_eq!(v, 0);
    }
}

#[test]
fn uniform_known_values() {
    let xs = &mut state(42);
    let expect = [322u32, 43, 322, 43, 311];
    for e in expect {
        assert_eq!(xs_u32(xs, 1, 0x16C), e);
    }
}

#[test]
fn raw_output_known_values() {
    let xs = &mut xs_from_seed(1);
    let expect = [0x1u32, 0x1, 0x1, 0x808, 0x1];
    for e in expect {
        assert_eq!(xorshift(xs), e);
    }
}

#[test]
fn seed_splits_into_limbs() {
    let seed: u128 = (4u128 << 96) | (3u128 << 64) | (2u128 << 32) | 1u128;
    let xs = xs_from_seed(seed);
    assert_eq!(xs.x0, 1);
    assert_eq!(xs.x1, 2);
    assert_eq!(xs.x2, 3);
    assert_eq!(xs.x3, 4);
}

#[test]
fn choice_returns_member() {
    let xs = &mut state(77);
    let pool = [3u32, 1, 4, 1, 5, 9, 2, 6];
    for _ in 0..200 {
        let v = xs_choice(xs, &pool);
        assert!(pool.contains(&v));
    }
}

#[test]
fn choice_str_returns_member() {
    let xs = &mut state(78);
    let pool = ["kmr_00", "kmr_04", "mac_00"];
    for _ in 0..100 {
        let v = xs_choice_str(xs, &pool);
        assert!(pool.contains(&v));
    }
}

#[test]
fn shuffle_is_permutation() {
    let xs = &mut state(0x1234_5678);
    let original: Vec<u32> = (0..100).collect();
    let mut v = original.clone();
    xs_shuffle(xs, &mut v);
    let mut sorted = v.clone();
    sorted.sort();
    assert_eq!(sorted, original);
    assert_ne!(v, original);
}

#[test]
fn shuffle_two_elements_is_identity() {
    let xs = &mut state(0xABCD_EF01);
    let mut v = vec![10u32, 20];
    xs_shuffle(xs, &mut v);
    assert_eq!(v, vec![10, 20]);
    assert_eq!(*xs, state(0xABCD_EF01));
}

#[test]
fn equal_seeds_draw_equal_streams() {
    let a = &mut xs_from_seed(123_456_789);
    let b = &mut xs_from_seed(123_456_789);
    for _ in 0..300 {
        assert_eq!(xorshift(a), xorshift(b));
    }
}
