use orientation_feed::cell::AtomicQuat;
use orientation_feed::quat::QuatBits;

#[test]
fn new_cell_holds_identity() {
    let c = AtomicQuat::new();
    let q = c.load();
    assert_eq!(q, QuatBits { x: 0, y: 0, z: 0, w: 0x3F80_0000 });
    assert_eq!(q, QuatBits::identity());
    assert_eq!(f32::from_bits(q.x), 0.0);
    assert_eq!(f32::from_bits(q.y), 0.0);
    assert_eq!(f32::from_bits(q.z), 0.0);
    assert_eq!(f32::from_bits(q.w), 1.0);
}

#[test]
fn store_load_round_trip() {
    let mut c = AtomicQuat::new();
    let q = QuatBits {
        x: (0.1f32).to_bits(),
        y: (-0.2f32).to_bits(),
        z: (0.3f32).to_bits(),
        w: (0.9f32).to_bits(),
    };
    c.store(q);
    assert_eq!(c.load(), q);
}

#[test]
fn last_store_wins() {
    let mut c = AtomicQuat::new();
    let q1 = QuatBits { x: 1, y: 2, z: 3, w: 4 };
    let q2 = QuatBits { x: 5, y: 6, z: 7, w: 8 };
    c.store(q1);
    c.store(q2);
    assert_eq!(c.load(), q2);
}

#[test]
fn torn_mix_is_componentwise_from_the_two_stores() {
    // A cell state that a load racing two stores can observe: each slot
    // holds the component of whichever store wrote it last.
    let q1 = QuatBits { x: 1, y: 2, z: 3, w: 4 };
    let q2 = QuatBits { x: 5, y: 6, z: 7, w: 8 };
    let torn = AtomicQuat { x: q1.x, y: q2.y, z: q1.z, w: q2.w };
    let q = torn.load();
    assert!(q.x == q1.x || q.x == q2.x);
    assert!(q.y == q1.y || q.y == q2.y);
    assert!(q.z == q1.z || q.z == q2.z);
    assert!(q.w == q1.w || q.w == q2.w);
    assert_ne!(q, q1);
    assert_ne!(q, q2);
}

#[test]
fn equal_stores_cannot_tear() {
    let q = QuatBits { x: 9, y: 10, z: 11, w: 12 };
    // Any interleaving of two stores of the same value leaves every slot
    // with that value.
    let torn = AtomicQuat { x: q.x, y: q.y, z: q.z, w: q.w };
    assert_eq!(torn.load(), q);
}
