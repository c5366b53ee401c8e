use megumin::units::fixed::{
    ceil_units, floor_units, isqrt, minus, mul_add, muldiv, negate, plus, saturate, ONE,
};
use megumin::units::linear::{Rotor, FULL_SCALE, UNIT_SLACK, V2};

#[test]
fn saturate_clamps_at_both_ends() {
    assert_eq!(saturate(0), 0);
    assert_eq!(saturate(-5), -5);
    assert_eq!(saturate(i64::MAX as i128), i64::MAX);
    assert_eq!(saturate(i64::MAX as i128 + 1), i64::MAX);
    assert_eq!(saturate(i64::MIN as i128 - 1), i64::MIN);
    assert_eq!(saturate(i128::MAX), i64::MAX);
    assert_eq!(saturate(i128::MIN), i64::MIN);
}

#[test]
fn plus_minus_negate_saturate() {
    assert_eq!(plus(2, 3), 5);
    assert_eq!(plus(i64::MAX, 1), i64::MAX);
    assert_eq!(plus(i64::MIN, -1), i64::MIN);
    assert_eq!(minus(2, 3), -1);
    assert_eq!(minus(i64::MIN, 1), i64::MIN);
    assert_eq!(minus(i64::MAX, -1), i64::MAX);
    assert_eq!(negate(7), -7);
    assert_eq!(negate(i64::MIN), i64::MAX);
}

#[test]
fn mul_add_is_exact_until_the_end() {
    assert_eq!(mul_add(10, 3, 4), 22);
    assert_eq!(mul_add(10, -3, 4), -2);
    assert_eq!(mul_add(0, 700_000, 8), 5_600_000);
    // the product alone overflows, the sum does not
    assert_eq!(mul_add(i64::MIN, 1 << 62, 2), 0);
    assert_eq!(mul_add(0, i64::MAX, u64::MAX), i64::MAX);
    assert_eq!(mul_add(0, i64::MIN, u64::MAX), i64::MIN);
    assert_eq!(mul_add(i64::MAX, 1, 1), i64::MAX);
}

#[test]
fn muldiv_rounds_toward_zero() {
    assert_eq!(muldiv(7, 1, 2), 3);
    assert_eq!(muldiv(-7, 1, 2), -3);
    assert_eq!(muldiv(ONE / 2, ONE / 2, ONE as u64), ONE / 4);
    assert_eq!(muldiv(3 * ONE, ONE, 5 * ONE as u64), 600_000_000);
    assert_eq!(muldiv(i64::MAX, i64::MAX, 1), i64::MAX);
    assert_eq!(muldiv(i64::MIN, i64::MAX, 1), i64::MIN);
}

#[test]
fn floor_and_ceil_of_units() {
    assert_eq!(floor_units(0), 0);
    assert_eq!(floor_units(ONE as i128 - 1), 0);
    assert_eq!(floor_units(ONE as i128), 1);
    assert_eq!(floor_units(-1), -1);
    assert_eq!(floor_units(-(ONE as i128)), -1);
    assert_eq!(floor_units(-(ONE as i128) - 1), -2);
    assert_eq!(ceil_units(0), 0);
    assert_eq!(ceil_units(1), 1);
    assert_eq!(ceil_units(ONE as i128), 1);
    assert_eq!(ceil_units(ONE as i128 + 1), 2);
    assert_eq!(ceil_units(-1), 0);
    assert_eq!(ceil_units(-(ONE as i128)), -1);
}

#[test]
fn isqrt_rounds_down() {
    assert_eq!(isqrt(0), 0);
    assert_eq!(isqrt(1), 1);
    assert_eq!(isqrt(3), 1);
    assert_eq!(isqrt(4), 2);
    assert_eq!(isqrt(24), 4);
    assert_eq!(isqrt(25), 5);
    assert_eq!(isqrt(u128::MAX), u64::MAX);
    assert_eq!(isqrt(1 << 126), 1 << 63);
}

#[test]
fn vector_operators() {
    let a = V2::at(3 * ONE, 4 * ONE);
    let b = V2::at(ONE, -2 * ONE);
    assert_eq!(a + b, V2::at(4 * ONE, 2 * ONE));
    assert_eq!(a - b, V2::at(2 * ONE, 6 * ONE));
    assert_eq!(-a, V2::at(-3 * ONE, -4 * ONE));
    assert_eq!(a * (ONE / 2), V2::at(3 * ONE / 2, 2 * ONE));
    assert_eq!(a * b, V2::at(3 * ONE, -8 * ONE));
    assert_eq!(a.dot(b), -5 * ONE);
    assert_eq!(V2::at(i64::MAX, 0) + V2::at(1, 0), V2::at(i64::MAX, 0));
    assert_eq!(-V2::at(i64::MIN, 0), V2::at(i64::MAX, 0));
}

#[test]
fn dot_at_the_far_corner_saturates() {
    let far = V2::at(i64::MIN, i64::MIN);
    assert_eq!(far.dot(far), i64::MAX);
}

#[test]
fn length_of_three_four_is_five() {
    assert_eq!(V2::at(3 * ONE, 4 * ONE).len(), 5 * ONE as u64);
    assert_eq!(V2::at(0, 0).len(), 0);
    assert_eq!(V2::at(1, 1).len(), 1);
    assert_eq!(V2::at(-ONE, 0).len(), ONE as u64);
}

#[test]
fn norm_of_zero_is_zero() {
    assert_eq!(V2::at(0, 0).norm(), V2::at(0, 0));
}

#[test]
fn norm_has_length_one() {
    assert_eq!(V2::at(3 * ONE, 4 * ONE).norm(), V2::at(600_000_000, 800_000_000));
    assert_eq!(V2::at(0, -7).norm(), V2::at(0, -ONE));
    assert_eq!(V2::at(600_000_000, 800_000_000).len(), ONE as u64);
}

#[test]
fn set_len_keeps_direction() {
    let v = V2::at(3 * ONE, 4 * ONE);
    let w = v.set_len(10 * ONE);
    assert_eq!(w, V2::at(6 * ONE, 8 * ONE));
    assert_eq!(w.len(), 10 * ONE as u64);
    assert!(w.dot(v) > 0);
    assert_eq!(v.set_len(0), V2::at(0, 0));
}

#[test]
fn rotor_is_made_only_of_unit_vectors() {
    assert!(Rotor::new(ONE, 0).is_some());
    assert!(Rotor::new(-ONE, 0).is_some());
    assert!(Rotor::new(0, -ONE).is_some());
    assert!(Rotor::new(707_106_781, -707_106_781).is_some());
    assert!(Rotor::new(ONE + 1, 0).is_none());
    assert!(Rotor::new(0, -ONE - 1).is_none());
    assert!(Rotor::new(0, 0).is_none());
    assert!(Rotor::new(-ONE, ONE).is_none());
    assert!(Rotor::new(ONE / 2, ONE / 2).is_none());
    assert!(Rotor::new(i64::MAX, i64::MIN).is_none());
    let r = Rotor::new(600_000_000, 800_000_000).unwrap();
    assert_eq!(r.cosine(), 600_000_000);
    assert_eq!(r.sine(), 800_000_000);
    assert_eq!(r.inverse().sine(), -800_000_000);
    assert_eq!(r.inverse().cosine(), 600_000_000);
    assert_eq!(Rotor::identity().cosine(), ONE);
    assert_eq!(Rotor::identity().sine(), 0);
}

#[test]
fn rotor_may_be_a_millionth_off() {
    assert_eq!(UNIT_SLACK, 2_000_000_000_000);
    // (1 - 1e-6)^2 = 1 - 2e-6 + 1e-12
    assert!(Rotor::new(999_999_000, 0).is_some());
    assert!(Rotor::new(999_998_999, 0).is_none());
    // 1 + y^2 is within the slack up to y^2 = 2e-6
    assert!(Rotor::new(ONE, 1_414_213).is_some());
    assert!(Rotor::new(ONE, 1_414_214).is_none());
}

#[test]
fn scale_up_doubles_to_full_scale() {
    assert_eq!(FULL_SCALE, 1 << 61);
    assert_eq!(V2::at(0, 0).scale_up(), V2::at(0, 0));
    assert_eq!(V2::at(1, 0).scale_up(), V2::at(1 << 61, 0));
    assert_eq!(V2::at(1, -1).scale_up(), V2::at(1 << 61, -(1 << 61)));
    assert_eq!(V2::at(3, 4).scale_up(), V2::at(3 << 59, 4 << 59));
    assert_eq!(V2::at(-5, 2).scale_up(), V2::at(-5 << 59, 2 << 59));
    assert_eq!(V2::at(1 << 61, 7).scale_up(), V2::at(1 << 61, 7));
    assert_eq!(V2::at((1 << 61) - 1, 7).scale_up(), V2::at((1 << 62) - 2, 14));
    assert_eq!(V2::at(i64::MIN, i64::MAX).scale_up(), V2::at(i64::MIN, i64::MAX));
}

#[test]
fn short_vectors_are_rescaled_by_their_true_length() {
    let v = V2::at(1, 1);
    assert_eq!(v.norm(), V2::at(707_106_781, 707_106_781));
    assert_eq!(v.set_len(ONE), V2::at(707_106_781, 707_106_781));
    assert_eq!(v.norm().len(), 999_999_999);
    assert_eq!(V2::at(-1, 2).norm(), V2::at(-447_213_595, 894_427_190));
    assert_eq!(V2::at(0, 1).norm(), V2::at(0, ONE));
    assert_eq!(V2::at(-3, 0).set_len(5), V2::at(-5, 0));
    assert_eq!(V2::at(1, 1).set_len(2), V2::at(1, 1));
    assert_eq!(V2::at(7, -7).set_len(1_000), V2::at(707, -707));
}

#[test]
fn rescaled_length_is_within_two_billionths() {
    let vectors = [
        V2::at(1, 1),
        V2::at(-1, 3),
        V2::at(123, -4567),
        V2::at(400_000, 1),
        V2::at(-ONE, 3 * ONE),
        V2::at(i64::MAX, i64::MIN),
        V2::at(1, i64::MAX),
    ];
    let lengths = [0, 1, 2, 1_000, 700_000, ONE, 1_000_000 * ONE, 1 << 60];
    for v in vectors {
        for t in lengths {
            let w = v.set_len(t);
            let l = w.len() as i64;
            assert!(t - 2 <= l && l <= t, "{:?} to {} gave {:?} of length {}", v, t, w, l);
            assert!(w.x as i128 * v.x as i128 >= 0 && w.y as i128 * v.y as i128 >= 0);
            let cross = w.x as i128 * v.y as i128 - w.y as i128 * v.x as i128;
            assert!(cross.abs() < (v.x as i128).abs() + (v.y as i128).abs());
            if t >= 2 {
                assert!(w.x as i128 * v.x as i128 + w.y as i128 * v.y as i128 > 0);
            }
        }
    }
}

#[test]
fn quarter_turn_is_counter_clockwise() {
    let quarter = Rotor::new(0, ONE).unwrap();
    assert_eq!(V2::at(ONE, 0).rot(quarter), V2::at(0, ONE));
    assert_eq!(V2::at(0, ONE).rot(quarter), V2::at(-ONE, 0));
    assert_eq!(V2::at(5, 7).rot(Rotor::identity()), V2::at(5, 7));
}

#[test]
fn rotation_and_its_inverse_cancel() {
    let r = Rotor::new(600_000_000, 800_000_000).unwrap();
    let v = V2::at(123_456_789, -987_654_321);
    let back = v.rot(r).rot(r.inverse());
    assert!((back.x - v.x).abs() <= 2);
    assert!((back.y - v.y).abs() <= 2);
}

#[test]
fn advance_moves_along_the_velocity() {
    assert_eq!(V2::at(0, 0).advance(V2::at(0, ONE), 1), V2::at(0, ONE));
    assert_eq!(V2::at(ONE, ONE).advance(V2::at(-2, 3), 10), V2::at(ONE - 20, ONE + 30));
}
