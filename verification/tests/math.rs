use fabrik::constraint::Constraint;
use fabrik::fixed;
use fabrik::quat::QuatFx;
use fabrik::vec3::Vec3Fx;

const S: i64 = 65536;

#[test]
fn isqrt_exact_values() {
    assert_eq!(fabrik::fixed::isqrt(0), 0);
    assert_eq!(fabrik::fixed::isqrt(1), 1);
    assert_eq!(fabrik::fixed::isqrt(10), 3);
    assert_eq!(fabrik::fixed::isqrt(25), 5);
    assert_eq!(fabrik::fixed::isqrt(4294967296), 65536);
    assert_eq!(fabrik::fixed::isqrt(4294967295), 65535);
}

#[test]
fn truncating_division_rounds_toward_zero() {
    assert_eq!(fixed::tdiv_i128(21, 2), 10);
    assert_eq!(fixed::tdiv_i128(-21, 2), -10);
    assert_eq!(fixed::tdiv_i128(20, 2), 10);
    assert_eq!(fixed::tdiv_i128(-1, 3), 0);
    assert_eq!(fixed::mul_div(7, 3, 2), 10);
    assert_eq!(fixed::mul_div(-7, 3, 2), -10);
}

#[test]
fn vector_length_is_floor_of_euclidean_norm() {
    // a 3-4-5 triangle at fixed-point scale
    let v = Vec3Fx { x: 3 * S, y: 4 * S, z: 0 };
    assert_eq!(v.length(), 5 * S);
}

#[test]
fn normalize_unit_of_three_four_zero() {
    let v = Vec3Fx { x: 3 * S, y: 4 * S, z: 0 };
    let u = v.normalize_unit();
    // 3/5 and 4/5 at scale, rounded toward zero
    assert_eq!(u, Vec3Fx { x: 39321, y: 52428, z: 0 });
}

#[test]
fn normalize_unit_degenerate_falls_back_to_y() {
    let v = Vec3Fx { x: 0, y: 0, z: 0 };
    assert_eq!(v.normalize_unit(), Vec3Fx { x: 0, y: S, z: 0 });
}

#[test]
fn quaternion_product_i_times_j_is_k() {
    let i = QuatFx { x: S, y: 0, z: 0, w: 0 };
    let j = QuatFx { x: 0, y: S, z: 0, w: 0 };
    assert_eq!(i.mul(j), QuatFx { x: 0, y: 0, z: S, w: 0 });
}

#[test]
fn quaternion_identity_is_neutral() {
    let q = QuatFx { x: 100, y: -200, z: 300, w: 65000 };
    let id = QuatFx::identity();
    assert_eq!(id.mul(q), q);
    assert_eq!(q.mul(id), q);
}

#[test]
fn decompose_pure_twist_about_forward_axis() {
    // ~90 degrees about z: all rotation is twist, the swing is identity
    let q = QuatFx { x: 0, y: 0, z: 46341, w: 46341 };
    let (twist, swing) = q.decompose();
    assert_eq!(twist, q);
    assert_eq!(swing, QuatFx::identity());
}

#[test]
fn decompose_pure_swing_about_x() {
    // a rotation about x has no component about the forward (z) axis
    let q = QuatFx { x: 46341, y: 0, z: 0, w: 46341 };
    let (twist, swing) = q.decompose();
    assert_eq!(twist, QuatFx::identity());
    assert_eq!(swing, q);
}

#[test]
fn constrain_inside_cone_is_unchanged() {
    let q = QuatFx { x: 100, y: 0, z: 0, w: 65535 };
    assert_eq!(q.constrain(8554), q);
}

#[test]
fn constrain_clamps_vector_part_exactly() {
    // vector magnitude 30000 > limit 8554: clamp to the cone's surface
    let q = QuatFx { x: 30000, y: 0, z: 0, w: 50000 };
    let r = q.constrain(8554);
    assert_eq!(r, QuatFx { x: 8554, y: 0, z: 0, w: 64975 });
    // the clamped vector magnitude respects the limit plus one unit
    let v2 = (r.x as i128) * (r.x as i128) + (r.y as i128) * (r.y as i128) + (r.z as i128)
        * (r.z as i128);
    assert!(v2 <= 8555 * 8555);
}

#[test]
fn constrain_keeps_sign_of_w() {
    let q = QuatFx { x: 30000, y: 0, z: 0, w: -50000 };
    let r = q.constrain(8554);
    assert_eq!(r.w, -64975);
}

#[test]
fn rotation_arc_parallel_is_identity() {
    let y = Vec3Fx { x: 0, y: S, z: 0 };
    let q = QuatFx::from_rotation_arc(y, y);
    assert_eq!(q, QuatFx::identity());
}

#[test]
fn rotation_arc_carries_y_onto_x() {
    let y = Vec3Fx { x: 0, y: S, z: 0 };
    let x = Vec3Fx { x: S, y: 0, z: 0 };
    let q = QuatFx::from_rotation_arc(y, x);
    let r = q.rotate(y);
    // the rotated +Y lands on +X, within a few fixed-point units
    assert!((r.x - S).abs() <= 8, "r.x = {}", r.x);
    assert!(r.y.abs() <= 8);
    assert!(r.z.abs() <= 8);
}

#[test]
fn rotation_arc_antiparallel_is_half_turn() {
    let y = Vec3Fx { x: 0, y: S, z: 0 };
    let ny = Vec3Fx { x: 0, y: -S, z: 0 };
    let q = QuatFx::from_rotation_arc(y, ny);
    // a half-turn: zero scalar part, unit vector part orthogonal to y
    assert_eq!(q.w, 0);
    assert_eq!(q.y, 0);
    let r = q.rotate(y);
    assert!((r.y + S).abs() <= 8, "r.y = {}", r.y);
}

#[test]
fn swing_constraint_applies_to_swing_only() {
    let swing = QuatFx { x: 30000, y: 0, z: 0, w: 50000 };
    let twist = QuatFx { x: 0, y: 0, z: 100, w: 65535 };
    let (s2, t2) = Constraint::Swing(8554).apply(swing, twist);
    assert_eq!(s2, QuatFx { x: 8554, y: 0, z: 0, w: 64975 });
    assert_eq!(t2, twist);
}

#[test]
fn twist_constraint_applies_to_twist_only() {
    let swing = QuatFx { x: 30000, y: 0, z: 0, w: 50000 };
    let twist = QuatFx { x: 0, y: 0, z: 30000, w: 50000 };
    let (s2, t2) = Constraint::Twist(8554).apply(swing, twist);
    assert_eq!(s2, swing);
    assert_eq!(t2, QuatFx { x: 0, y: 0, z: 8554, w: 64975 });
}

#[test]
fn constraint_reports_stored_limit() {
    assert_eq!(Constraint::Swing(1234).get_angle(), 1234);
    assert_eq!(Constraint::Twist(777).get_angle(), 777);
    assert_eq!(fabrik::SwingConstraint(1234).get_angle(), 1234);
    assert_eq!(fabrik::TwistConstraint(777).get_angle(), 777);
    assert_eq!(fabrik::SwingConstraint(5).constraint(), Constraint::Swing(5));
    assert_eq!(fabrik::TwistConstraint(6).constraint(), Constraint::Twist(6));
}
