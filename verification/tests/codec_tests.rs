use orientation_feed::codec::parse_packet;
use orientation_feed::codec::DecodeError;
use orientation_feed::codec::EulerBits;
use orientation_feed::codec::PACKET_LEN;

/// Compose decoded angles the way the consumer does: intrinsic YXZ order.
fn compose(e: EulerBits) -> glam::Quat {
    glam::Quat::from_euler(
        glam::EulerRot::YXZ,
        f32::from_bits(e.yaw),
        f32::from_bits(e.pitch),
        f32::from_bits(e.roll),
    )
}

/// The 12-byte packet encoding the three angles, big-endian.
fn packet(x: f32, y: f32, z: f32) -> Vec<u8> {
    let mut v = Vec::new();
    v.extend_from_slice(&x.to_be_bytes());
    v.extend_from_slice(&y.to_be_bytes());
    v.extend_from_slice(&z.to_be_bytes());
    v
}

#[test]
fn rejects_every_wrong_length() {
    for len in [0usize, 1, 4, 11, 13, 24, 100] {
        let buf = vec![0u8; len];
        assert_eq!(parse_packet(&buf), Err(DecodeError::MalformedPacket));
    }
}

#[test]
fn accepts_exact_length() {
    let buf = vec![0u8; PACKET_LEN];
    assert!(parse_packet(&buf).is_ok());
}

#[test]
fn words_are_big_endian_and_negated() {
    let buf = packet(1.0, 2.0, -3.5);
    let e = parse_packet(&buf).unwrap();
    assert_eq!(e.yaw, (-1.0f32).to_bits());
    assert_eq!(e.pitch, (-2.0f32).to_bits());
    assert_eq!(e.roll, (3.5f32).to_bits());
}

#[test]
fn determinism_identical_bytes() {
    let buf = packet(0.25, -1.5, 3.0);
    let e1 = parse_packet(&buf).unwrap();
    let e2 = parse_packet(&buf).unwrap();
    assert_eq!(e1, e2);
    let q1 = compose(e1);
    let q2 = compose(e2);
    assert_eq!(q1.x.to_bits(), q2.x.to_bits());
    assert_eq!(q1.y.to_bits(), q2.y.to_bits());
    assert_eq!(q1.z.to_bits(), q2.z.to_bits());
    assert_eq!(q1.w.to_bits(), q2.w.to_bits());
}

#[test]
fn zero_angles_decode_to_identity() {
    let buf = packet(0.0, 0.0, 0.0);
    let q = compose(parse_packet(&buf).unwrap());
    assert_eq!(q.x, 0.0);
    assert_eq!(q.y, 0.0);
    assert_eq!(q.z, 0.0);
    assert_eq!(q.w, 1.0);
}

#[test]
fn half_pi_yaw_decodes_to_pinned_vector() {
    // First float pi/2: a -pi/2 rotation about the Y Euler axis under YXZ.
    let buf = packet(std::f32::consts::FRAC_PI_2, 0.0, 0.0);
    let q = compose(parse_packet(&buf).unwrap());
    let s = (-std::f32::consts::FRAC_PI_4).sin();
    let c = (-std::f32::consts::FRAC_PI_4).cos();
    assert_eq!(q.x, 0.0);
    assert_eq!(q.y, s);
    assert_eq!(q.z, 0.0);
    assert_eq!(q.w, c);
    // Pin the numeric values of the reference oracle as well.
    assert!((q.y + 0.70710678).abs() < 1e-6);
    assert!((q.w - 0.70710678).abs() < 1e-6);
    // And against the oracle composition itself, bit for bit.
    let oracle = glam::Quat::from_euler(
        glam::EulerRot::YXZ,
        -std::f32::consts::FRAC_PI_2,
        -0.0,
        -0.0,
    );
    assert_eq!(q.x.to_bits(), oracle.x.to_bits());
    assert_eq!(q.y.to_bits(), oracle.y.to_bits());
    assert_eq!(q.z.to_bits(), oracle.z.to_bits());
    assert_eq!(q.w.to_bits(), oracle.w.to_bits());
}

#[test]
fn negation_flips_only_the_sign_bit() {
    for f in [0.0f32, -0.0, 1.0, -2.5, std::f32::consts::PI, f32::MIN_POSITIVE] {
        let buf = packet(f, 0.0, 0.0);
        let e = parse_packet(&buf).unwrap();
        assert_eq!(e.yaw, (-f).to_bits());
        assert_eq!(e.yaw, f.to_bits() ^ 0x8000_0000);
    }
}
