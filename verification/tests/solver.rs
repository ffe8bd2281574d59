use fabrik::chain::{IkChainError, Joint, LocalPose};
use fabrik::constraint::Constraint;
use fabrik::quat::QuatFx;
use fabrik::vec3::Vec3Fx;
use fabrik::IkChain;

const S: i64 = 65536;

fn v(x: i64, y: i64, z: i64) -> Vec3Fx {
    Vec3Fx { x, y, z }
}

fn id() -> QuatFx {
    QuatFx { x: 0, y: 0, z: 0, w: S }
}

fn seg_len(a: Vec3Fx, b: Vec3Fx) -> i64 {
    let dx = (a.x - b.x) as i128;
    let dy = (a.y - b.y) as i128;
    let dz = (a.z - b.z) as i128;
    fabrik::fixed::isqrt((dx * dx + dy * dy + dz * dz) as u128) as i64
}

fn upright_chain(n: i64, spacing: i64) -> (IkChain, Vec<Joint>, Vec<Vec<Constraint>>) {
    // n joints collinear along +Y, `spacing` apart, tail on top
    let mut chain = IkChain::new(n as usize).unwrap();
    let mut positions: Vec<Vec3Fx> = Vec::new();
    let mut joints: Vec<Joint> = Vec::new();
    let mut cons: Vec<Vec<Constraint>> = Vec::new();
    let mut k: i64 = n - 1;
    while k >= 0 {
        positions.push(v(0, k * spacing, 0));
        joints.push(Joint { pos: v(0, k * spacing, 0), rot: id() });
        cons.push(Vec::new());
        k -= 1;
    }
    chain.initialize(&positions).unwrap();
    (chain, joints, cons)
}

#[test]
fn construction_needs_two_joints() {
    assert!(matches!(IkChain::new(0), Err(IkChainError::TooFewJoints)));
    assert!(matches!(IkChain::new(1), Err(IkChainError::TooFewJoints)));
    assert!(IkChain::new(2).is_ok());
}

#[test]
fn construction_defaults() {
    let c = IkChain::new(3).unwrap();
    assert_eq!(c.enabled, true);
    assert_eq!(c.target, v(0, 0, 0));
    assert_eq!(c.threshold, 4294967);
    assert_eq!(c.max_iterations, 10);
    assert_eq!(c.joint_count(), 3);
    assert_eq!(c.joint_length(0), None);
}

#[test]
fn initialization_records_lengths_and_rest_direction() {
    let (chain, _, _) = upright_chain(2, 2 * S);
    assert_eq!(chain.joint_length(0), Some(2 * S));
    assert_eq!(chain.joint_length(1), None);
    assert_eq!(chain.root_normal(), v(0, S, 0));
}

#[test]
fn initialization_degenerate_normal_falls_back_to_y() {
    let mut chain = IkChain::new(2).unwrap();
    let positions = vec![v(3 * S, 0, 0), v(3 * S, 0, 0)];
    chain.initialize(&positions).unwrap();
    assert_eq!(chain.joint_length(0), Some(0));
    assert_eq!(chain.root_normal(), v(0, S, 0));
}

#[test]
fn malformed_chain_at_init() {
    // five joints declared, but only three ancestors exist above the tail
    let mut chain = IkChain::new(5).unwrap();
    let positions = vec![v(0, 4 * S, 0), v(0, 3 * S, 0), v(0, 2 * S, 0), v(0, S, 0)];
    assert_eq!(chain.initialize(&positions), Err(IkChainError::MalformedChain));
    // the chain is untouched and can be initialized once the graph is whole
    assert_eq!(chain.joint_length(0), None);
}

#[test]
fn reach_two_joints_pins_rest_direction() {
    // root at origin, tail two units up, target two units along +X; the
    // root's outgoing direction is preserved irrespective of the target,
    // so a two-joint chain keeps its tail on the rest axis
    let (mut chain, mut joints, cons) = upright_chain(2, 2 * S);
    chain.target = v(2 * S, 0, 0);
    let out = chain.solve(&mut joints, &cons).unwrap().unwrap();
    assert_eq!(joints[1].pos, v(0, 0, 0));
    assert_eq!(joints[0].pos, v(0, 2 * S, 0));
    assert_eq!(seg_len(joints[0].pos, joints[1].pos), 2 * S);
    assert_eq!(out.len(), 1);
    assert_eq!(out[0].translation, v(0, 2 * S, 0));
    assert_eq!(out[0].rotation, id());
}

#[test]
fn unreachable_target_keeps_root_and_lengths() {
    // four joints, three unit segments, target ten units away on +X
    let (mut chain, mut joints, cons) = upright_chain(4, S);
    chain.target = v(10 * S, 0, 0);
    chain.solve(&mut joints, &cons).unwrap().unwrap();
    // the root has not moved, and the joint adjacent to it sits along the
    // chain's rest direction
    assert_eq!(joints[3].pos, v(0, 0, 0));
    assert_eq!(joints[2].pos, v(0, S, 0));
    // every segment keeps its rest length to within 1e-2 world units
    for i in 0..3 {
        let l = seg_len(joints[i].pos, joints[i + 1].pos);
        assert!((l - S).abs() <= 655, "segment {} has length {}", i, l);
    }
    // the tail stays within the chain's reach of the root and has bent
    // toward the target
    assert!(seg_len(joints[0].pos, joints[3].pos) <= 3 * S + 2000);
    assert!(joints[0].pos.x > 0);
}

#[test]
fn host_setters_update_tuning() {
    let mut c = IkChain::new(2).unwrap();
    c.set_enabled(false);
    assert!(!c.enabled);
    c.set_target(v(S, 0, 0));
    assert_eq!(c.target, v(S, 0, 0));
    c.set_threshold(7);
    assert_eq!(c.threshold, 7);
    c.set_max_iterations(3);
    assert_eq!(c.max_iterations, 3);
    assert_eq!(c.joint_count(), 2);
}

#[test]
fn solver_is_deterministic() {
    let (mut chain1, mut joints1, cons1) = upright_chain(4, S);
    chain1.target = v(10 * S, 0, 0);
    let out1 = chain1.solve(&mut joints1, &cons1).unwrap().unwrap();
    let (mut chain2, mut joints2, cons2) = upright_chain(4, S);
    chain2.target = v(10 * S, 0, 0);
    let out2 = chain2.solve(&mut joints2, &cons2).unwrap().unwrap();
    assert_eq!(joints1, joints2);
    let pairs: Vec<(&LocalPose, &LocalPose)> = out1.iter().zip(out2.iter()).collect();
    assert_eq!(out1.len(), out2.len());
    for (a, b) in pairs {
        assert_eq!(a, b);
    }
}

#[test]
fn swing_constraint_limits_bending() {
    // middle joint constrained to a narrow cone: after one round the chain
    // bends strictly less toward the lateral target than unconstrained.
    // The local forward axis is -Z, so a bend that engages the swing
    // component needs a target out of the XY plane: one in the XY plane is
    // pure twist about the forward axis.
    let (mut free_chain, mut free_joints, free_cons) = upright_chain(4, S);
    free_chain.target = v(0, 0, 5 * S);
    free_chain.max_iterations = 1;
    free_chain.solve(&mut free_joints, &free_cons).unwrap().unwrap();

    let (mut chain, mut joints, mut cons) = upright_chain(4, S);
    chain.target = v(0, 0, 5 * S);
    chain.max_iterations = 1;
    // limit: sin(pi/24) at fixed-point scale, a cone of half-angle pi/12
    cons[2] = vec![Constraint::Swing(8554)];
    chain.solve(&mut joints, &cons).unwrap().unwrap();

    assert_eq!(joints[3].pos, v(0, 0, 0));
    assert!(
        joints[0].pos.z < free_joints[0].pos.z,
        "constrained tail z {} vs free tail z {}",
        joints[0].pos.z,
        free_joints[0].pos.z
    );
}

#[test]
fn twist_constraint_limits_bending() {
    // a bend within the XY plane is a rotation about the forward (-Z)
    // axis, so it is the twist component that a limit must clamp there
    let (mut free_chain, mut free_joints, free_cons) = upright_chain(4, S);
    free_chain.target = v(5 * S, 0, 0);
    free_chain.max_iterations = 1;
    free_chain.solve(&mut free_joints, &free_cons).unwrap().unwrap();

    let (mut chain, mut joints, mut cons) = upright_chain(4, S);
    chain.target = v(5 * S, 0, 0);
    chain.max_iterations = 1;
    cons[2] = vec![Constraint::Twist(8554)];
    chain.solve(&mut joints, &cons).unwrap().unwrap();

    assert_eq!(joints[3].pos, v(0, 0, 0));
    assert!(
        joints[0].pos.x < free_joints[0].pos.x,
        "constrained tail x {} vs free tail x {}",
        joints[0].pos.x,
        free_joints[0].pos.x
    );
}

#[test]
fn target_at_tail_returns_early_without_mutation() {
    let (mut chain, mut joints, cons) = upright_chain(2, 2 * S);
    chain.target = v(0, 2 * S, 0);
    let before = joints.clone();
    let out = chain.solve(&mut joints, &cons);
    assert_eq!(out, Ok(None));
    assert_eq!(joints, before);
}

#[test]
fn disabled_chain_is_never_mutated() {
    let (mut chain, mut joints, cons) = upright_chain(3, S);
    chain.enabled = false;
    chain.target = v(100 * S, -50 * S, 7 * S);
    let before = joints.clone();
    let out = chain.solve(&mut joints, &cons);
    assert_eq!(out, Ok(None));
    assert_eq!(joints, before);
}

#[test]
fn mismatched_frames_are_a_query_failure() {
    let (mut chain, mut joints, mut cons) = upright_chain(2, S);
    chain.target = v(2 * S, 0, 0);
    joints.push(Joint { pos: v(0, 0, 0), rot: id() });
    cons.push(Vec::new());
    let before = joints.clone();
    assert_eq!(chain.solve(&mut joints, &cons), Err(IkChainError::QueryFailure));
    assert_eq!(joints, before);
}

#[test]
fn solving_twice_near_target_is_idempotent() {
    // a target within the threshold of the tail: the solve is skipped and
    // the frames are untouched, so a second call changes nothing either
    let (mut chain, mut joints, cons) = upright_chain(2, 2 * S);
    chain.target = v(10, 2 * S, 0);
    let first = chain.solve(&mut joints, &cons);
    assert_eq!(first, Ok(None));
    let before = joints.clone();
    let again = chain.solve(&mut joints, &cons);
    assert_eq!(again, Ok(None));
    assert_eq!(joints, before);
}
