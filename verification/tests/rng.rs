use sketch_induction::rng::{Rng, GAMMA, UNIT};

#[test]
fn first_outputs_from_seed_zero() {
    let mut rng = Rng::new(0);
    assert_eq!(rng.next_u64(), 0xe220a8397b1dcdaf);
    assert_eq!(rng.next_u64(), 0x6e789e6aa1b965f4);
    assert_eq!(rng.next_u64(), 0x06c45d188009454f);
    assert_eq!(rng.next_u64(), 0xf88bb8a8724c81ec);
}

#[test]
fn first_outputs_from_seed_ten() {
    let mut rng = Rng::new(10);
    assert_eq!(rng.next_u64(), 0x088712be8a582fca);
    assert_eq!(rng.next_u64(), 0xbbff7c596e26ce46);
    assert_eq!(rng.next_u64(), 0x21876e7a2aec4a3d);
    assert_eq!(rng.next_u64(), 0xd77e91a249eb9308);
}

#[test]
fn first_outputs_from_a_large_seed() {
    let mut rng = Rng::new(1234567);
    assert_eq!(rng.next_u64(), 0x599ed017fb08fc85);
    assert_eq!(rng.next_u64(), 0x2c73f08458540fa5);
    assert_eq!(rng.next_u64(), 0x883ebce5a3f27c77);
}

#[test]
fn the_state_wraps_around() {
    // From this seed the first state is zero, which scrambles to zero; the
    // second state is the increment itself, as after seed zero.
    let mut rng = Rng::new(0u64.wrapping_sub(GAMMA));
    assert_eq!(rng.next_u64(), 0);
    assert_eq!(rng.next_u64(), 0xe220a8397b1dcdaf);
    let mut rng = Rng::new(u64::MAX);
    let mut same = Rng::new(u64::MAX);
    assert_eq!(rng.next_u64(), same.next_u64());
}

#[test]
fn unit_draws_are_the_top_bits() {
    let mut rng = Rng::new(0);
    assert_eq!(rng.next_unit(), 14819496);
    assert_eq!(rng.next_unit(), 7239838);
    assert_eq!(rng.next_unit(), 443485);
    assert_eq!(rng.next_unit(), 16288696);
    let mut rng = Rng::new(10);
    assert_eq!(rng.next_unit(), 558866);
    assert_eq!(rng.next_unit(), 12320636);
}

#[test]
fn positive_unit_draws_are_one_more() {
    let mut rng = Rng::new(0);
    assert_eq!(rng.next_positive_unit(), 14819497);
    assert_eq!(rng.next_positive_unit(), 7239839);
    let mut rng = Rng::new(1234567);
    assert_eq!(rng.next_positive_unit(), 5873361);
}

#[test]
fn unit_is_two_to_the_twenty_four() {
    assert_eq!(UNIT, 1 << 24);
    // Every numerator over UNIT is a single-precision value, exactly.
    let top = (UNIT - 1) as f32 / UNIT as f32;
    assert!(top < 1.0);
    assert_eq!((top * UNIT as f32) as u32, UNIT - 1);
}

#[test]
fn unit_draws_stay_in_range() {
    let mut rng = Rng::new(42);
    for _ in 0..10_000 {
        assert!(rng.next_unit() < UNIT);
    }
    for _ in 0..10_000 {
        let n = rng.next_positive_unit();
        assert!(0 < n && n <= UNIT);
    }
}

#[test]
fn same_seed_same_sequence() {
    let mut a = Rng::new(987654321);
    let mut b = Rng::new(987654321);
    for _ in 0..1000 {
        assert_eq!(a.next_u64(), b.next_u64());
    }
}

#[test]
fn different_draw_kinds_advance_alike() {
    // Each kind of draw takes one output, so mixing kinds keeps two
    // generators in step.
    let mut a = Rng::new(5);
    let mut b = Rng::new(5);
    a.next_unit();
    a.next_positive_unit();
    b.next_u64();
    b.next_u64();
    assert_eq!(a.next_u64(), b.next_u64());
}

#[test]
fn a_copy_continues_the_same_stream() {
    let mut a = Rng::new(77);
    a.next_u64();
    let mut b = a;
    assert_eq!(a.next_u64(), b.next_u64());
}
