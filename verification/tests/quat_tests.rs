use orientation_feed::quat::neg_f32_bits;
use orientation_feed::quat::QuatBits;

#[test]
fn identity_is_unit_w() {
    let q = QuatBits::identity();
    assert_eq!(f32::from_bits(q.x), 0.0);
    assert_eq!(f32::from_bits(q.y), 0.0);
    assert_eq!(f32::from_bits(q.z), 0.0);
    assert_eq!(f32::from_bits(q.w), 1.0);
}

#[test]
fn bit_negation_matches_float_negation() {
    for f in [0.0f32, -0.0, 1.0, -1.0, 0.5, std::f32::consts::PI, f32::MAX, f32::MIN_POSITIVE] {
        assert_eq!(neg_f32_bits(f.to_bits()), (-f).to_bits());
    }
}

#[test]
fn bit_negation_is_an_involution() {
    for bits in [0u32, 0x3F80_0000, 0x8000_0000, 0xFFFF_FFFF, 0x7FC0_0000] {
        assert_eq!(neg_f32_bits(neg_f32_bits(bits)), bits);
    }
}
