//! The IK chain descriptor and the FABRIK solver.
//!
//! A chain is attached to an end-effector (the tail); the solver works on
//! an array of joint frames indexed so that entry 0 is the tail and the
//! last entry is the root. The host gathers those world frames (tail
//! first, walking parent links), hands them to `solve`, and writes the
//! returned parent-relative local poses back into its scene graph.
//!
//! Every pass is specified exactly: the spec functions in this module are
//! the mathematical mirror of the loops, so the solver's output is pinned
//! to a function of its inputs — the solver is deterministic, the root
//! never moves, and a chain already within its threshold is untouched.

use vstd::prelude::*;
use crate::constraint::{apply_all, spec_apply_all, Constraint};
use crate::fixed;
use crate::fixed::{COORD_MAX, LEN_MAX, MAX_JOINTS, POS_BOUND, SCALE};
use crate::quat::QuatFx;
use crate::vec3::{lemma_sq_range, Vec3Fx};

verus! {

/// Default squared-distance threshold: 0.001 in squared world units,
/// that is `0.001 * SCALE * SCALE` in fixed-point squared units.
pub const DEFAULT_SQ_THRESHOLD: i64 = 4294967;

/// Default iteration cap per solve.
pub const DEFAULT_MAX_ITERATIONS: usize = 10;

/// Failures surfaced by the chain.
#[derive(Clone, Copy, PartialEq, Eq, Structural, Debug)]
pub enum IkChainError {
    /// A chain must have at least two joints; rejected at construction.
    TooFewJoints,
    /// The initialization walk ran out of ancestors or transforms.
    MalformedChain,
    /// A joint frame or constraint list expected by the solver is missing
    /// or inconsistent; the tick is skipped with no write-back.
    QueryFailure,
}

/// One joint's world frame: position and rotation, both fixed-point.
#[derive(Clone, Copy, PartialEq, Eq, Structural, Debug)]
pub struct Joint {
    pub pos: Vec3Fx,
    pub rot: QuatFx,
}

/// A solved local transform, relative to the joint's parent.
#[derive(Clone, Copy, PartialEq, Eq, Structural, Debug)]
pub struct LocalPose {
    pub translation: Vec3Fx,
    pub rotation: QuatFx,
}

/// The chain descriptor. The host may set the public fields each frame;
/// the private ones are fixed by construction and initialization.
#[derive(Clone, Debug)]
pub struct IkChain {
    /// If false, the chain is not solved.
    pub enabled: bool,
    /// The world-space target the tail reaches for.
    pub target: Vec3Fx,
    /// Squared fixed-point distance below which the chain is "at" the
    /// target.
    pub threshold: i64,
    /// Iteration cap per solve.
    pub max_iterations: usize,
    joint_count: usize,
    joint_lengths: Vec<i64>,
    root_normal: Vec3Fx,
}

impl IkChain {
    /// The fields that construction and initialization fix are the same in
    /// both chains (a host setter changes tuning only).
    pub closed spec fn unchanged_structure(a: IkChain, b: IkChain) -> bool {
        a.joint_count == b.joint_count && a.joint_lengths@ == b.joint_lengths@ && a.root_normal
            == b.root_normal
    }

    pub closed spec fn spec_enabled(self) -> bool {
        self.enabled
    }

    pub closed spec fn spec_target(self) -> Vec3Fx {
        self.target
    }

    pub closed spec fn spec_threshold(self) -> int {
        self.threshold as int
    }

    pub closed spec fn spec_max_iterations(self) -> nat {
        self.max_iterations as nat
    }

    pub closed spec fn spec_joint_count(self) -> int {
        self.joint_count as int
    }

    pub closed spec fn spec_lengths(self) -> Seq<i64> {
        self.joint_lengths@
    }

    pub closed spec fn spec_root_normal(self) -> Vec3Fx {
        self.root_normal
    }

    /// Holds from construction on: the joint count is in range.
    pub closed spec fn constructed(self) -> bool {
        2 <= self.joint_count <= MAX_JOINTS
    }

    /// Holds after initialization: segment lengths are recorded, one per
    /// segment, nonnegative and in range, and the root's outgoing
    /// direction is unit-scaled.
    pub closed spec fn ready(self) -> bool {
        &&& self.constructed()
        &&& self.joint_lengths@.len() == self.joint_count - 1
        &&& (forall|i: int|
            0 <= i < self.joint_lengths@.len() ==> 0 <= #[trigger] self.joint_lengths@[i]
                <= LEN_MAX)
        &&& self.root_normal.bounded(SCALE as int)
    }

    /// Create a chain descriptor with default tuning; a chain must span at
    /// least two joints.
    pub fn new(joint_count: usize) -> (r: Result<IkChain, IkChainError>)
        requires
            joint_count <= MAX_JOINTS,
        ensures
            joint_count < 2 <==> r == Result::<IkChain, IkChainError>::Err(
                IkChainError::TooFewJoints,
            ),
            joint_count >= 2 ==> (r matches Ok(c) && c.spec_enabled() == true && c.spec_target()
                == (Vec3Fx { x: 0, y: 0, z: 0 }) && c.spec_threshold() == DEFAULT_SQ_THRESHOLD
                && c.spec_max_iterations() == DEFAULT_MAX_ITERATIONS && c.spec_joint_count()
                == joint_count && c.spec_lengths().len() == 0 && c.spec_root_normal()
                == Vec3Fx::spec_unit_y() && c.constructed()),
    {
        if joint_count < 2 {
            Err(IkChainError::TooFewJoints)
        } else {
            Ok(
                IkChain {
                    enabled: true,
                    target: Vec3Fx { x: 0, y: 0, z: 0 },
                    threshold: DEFAULT_SQ_THRESHOLD,
                    max_iterations: DEFAULT_MAX_ITERATIONS,
                    joint_count,
                    joint_lengths: Vec::new(),
                    root_normal: Vec3Fx::unit_y(),
                },
            )
        }
    }

    /// Enable or disable solving; the other fields keep their values.
    pub fn set_enabled(&mut self, enabled: bool)
        ensures
            final(self).spec_enabled() == enabled,
            final(self).spec_target() == old(self).spec_target(),
            final(self).spec_threshold() == old(self).spec_threshold(),
            final(self).spec_max_iterations() == old(self).spec_max_iterations(),
            IkChain::unchanged_structure(*old(self), *final(self)),
            final(self).ready() == old(self).ready(),
            final(self).constructed() == old(self).constructed(),
    {
        self.enabled = enabled;
    }

    /// Aim the chain at a new world-space target.
    pub fn set_target(&mut self, target: Vec3Fx)
        ensures
            final(self).spec_target() == target,
            final(self).spec_enabled() == old(self).spec_enabled(),
            final(self).spec_threshold() == old(self).spec_threshold(),
            final(self).spec_max_iterations() == old(self).spec_max_iterations(),
            IkChain::unchanged_structure(*old(self), *final(self)),
            final(self).ready() == old(self).ready(),
            final(self).constructed() == old(self).constructed(),
    {
        self.target = target;
    }

    /// Change the squared-distance threshold.
    pub fn set_threshold(&mut self, threshold: i64)
        ensures
            final(self).spec_threshold() == threshold,
            final(self).spec_enabled() == old(self).spec_enabled(),
            final(self).spec_target() == old(self).spec_target(),
            final(self).spec_max_iterations() == old(self).spec_max_iterations(),
            IkChain::unchanged_structure(*old(self), *final(self)),
            final(self).ready() == old(self).ready(),
            final(self).constructed() == old(self).constructed(),
    {
        self.threshold = threshold;
    }

    /// Change the iteration cap.
    pub fn set_max_iterations(&mut self, max_iterations: usize)
        ensures
            final(self).spec_max_iterations() == max_iterations,
            final(self).spec_enabled() == old(self).spec_enabled(),
            final(self).spec_target() == old(self).spec_target(),
            final(self).spec_threshold() == old(self).spec_threshold(),
            IkChain::unchanged_structure(*old(self), *final(self)),
            final(self).ready() == old(self).ready(),
            final(self).constructed() == old(self).constructed(),
    {
        self.max_iterations = max_iterations;
    }

    pub fn joint_count(&self) -> (r: usize)
        ensures
            r == self.spec_joint_count(),
    {
        self.joint_count
    }

    pub fn joint_length(&self, i: usize) -> (r: Option<i64>)
        ensures
            i < self.spec_lengths().len() ==> r == Some(self.spec_lengths()[i as int]),
            i >= self.spec_lengths().len() ==> r is None,
    {
        if i < self.joint_lengths.len() {
            Some(self.joint_lengths[i])
        } else {
            None
        }
    }

    pub fn root_normal(&self) -> (r: Vec3Fx)
        ensures
            r == self.spec_root_normal(),
    {
        self.root_normal
    }

    /// Record the chain's segment lengths and root direction from the
    /// world positions of the tail and its ancestors (tail first). The
    /// walk needs `joint_count` positions; fewer mean the scene graph is
    /// missing a parent link or a transform, and the chain is left
    /// untouched. The last tail-to-parent difference seeds the root's
    /// outgoing direction, falling back to world +Y when degenerate.
    pub fn initialize(&mut self, positions: &Vec<Vec3Fx>) -> (r: Result<(), IkChainError>)
        requires
            old(self).constructed(),
            forall|i: int|
                0 <= i < positions@.len() ==> (#[trigger] positions@[i]).bounded(COORD_MAX as int),
        ensures
            positions@.len() < old(self).spec_joint_count() ==> r == Result::<
                (),
                IkChainError,
            >::Err(IkChainError::MalformedChain) && *final(self) == *old(self),
            positions@.len() >= old(self).spec_joint_count() ==> r == Result::<
                (),
                IkChainError,
            >::Ok(()) && final(self).ready() && final(self).spec_lengths().len() == old(
                self,
            ).spec_joint_count() - 1 && (forall|k: int|
                0 <= k < final(self).spec_lengths().len()
                    ==> #[trigger] final(self).spec_lengths()[k] as int == positions@[k].spec_sub(
                    positions@[k + 1],
                ).spec_length()) && final(self).spec_root_normal() == positions@[old(
                self,
            ).spec_joint_count() - 2].spec_sub(
                positions@[old(self).spec_joint_count() - 1],
            ).spec_normalize(),
            final(self).spec_enabled() == old(self).spec_enabled(),
            final(self).spec_target() == old(self).spec_target(),
            final(self).spec_threshold() == old(self).spec_threshold(),
            final(self).spec_max_iterations() == old(self).spec_max_iterations(),
            final(self).spec_joint_count() == old(self).spec_joint_count(),
    {
        if positions.len() < self.joint_count {
            return Err(IkChainError::MalformedChain);
        }
        let mut lengths: Vec<i64> = Vec::new();
        let mut k: usize = 0;
        while k < self.joint_count - 1
            invariant
                *self == *old(self),
                self.constructed(),
                positions@.len() >= self.spec_joint_count(),
                forall|i: int|
                    0 <= i < positions@.len() ==> (#[trigger] positions@[i]).bounded(
                        COORD_MAX as int,
                    ),
                k <= self.spec_joint_count() - 1,
                lengths@.len() == k,
                forall|j: int|
                    0 <= j < k ==> #[trigger] lengths@[j] as int == positions@[j].spec_sub(
                        positions@[j + 1],
                    ).spec_length(),
                forall|j: int| 0 <= j < k ==> 0 <= #[trigger] lengths@[j] <= LEN_MAX,
            decreases self.spec_joint_count() - 1 - k,
        {
            let d = positions[k].sub(positions[k + 1]);
            let len = d.length();
            proof {
                lemma_sq_range(d.x as int, 0x80_0000);
                lemma_sq_range(d.y as int, 0x80_0000);
                lemma_sq_range(d.z as int, 0x80_0000);
                fixed::lemma_abs_le_of_sq_lt(len as int, LEN_MAX as int);
            }
            lengths.push(len);
            k = k + 1;
        }
        let normal = positions[self.joint_count - 2].sub(
            positions[self.joint_count - 1],
        ).normalize_unit();
        self.joint_lengths = lengths;
        self.root_normal = normal;
        Ok(())
    }

    /// Backward pass: pull the tail onto the target and every joint to
    /// segment distance from its already-moved child; restore the root.
    fn backward_pass(&self, joints: &mut Vec<Joint>)
        requires
            self.ready(),
            old(joints)@.len() == self.spec_joint_count(),
            joints_wf(old(joints)@),
            self.spec_target().bounded(COORD_MAX as int),
        ensures
            final(joints)@ == spec_backward(old(joints)@, self.spec_lengths(), self.spec_target()),
            joints_wf(final(joints)@),
            final(joints)@.len() == old(joints)@.len(),
            final(joints)@[final(joints)@.len() - 1] == old(joints)@[old(joints)@.len() - 1],
    {
        let ghost orig = joints@;
        let n = joints.len();
        let origin = joints[n - 1].pos;
        joints[0] = Joint { pos: self.target, rot: joints[0].rot };
        let mut i: usize = 1;
        while i < n
            invariant
                self.ready(),
                self.spec_target().bounded(COORD_MAX as int),
                joints_wf(orig),
                joints@.len() == n == orig.len(),
                n == self.spec_joint_count(),
                1 <= i <= n,
                forall|k: int|
                    0 <= k < i ==> joints@[k] == (Joint {
                        pos: bw_pos(orig, self.spec_lengths(), self.spec_target(), k),
                        rot: orig[k].rot,
                    }),
                forall|k: int| i <= k < n ==> joints@[k] == orig[k],
                forall|k: int|
                    i <= k < n ==> (#[trigger] joints@[k]).pos.bounded(POS_BOUND as int),
                forall|k: int|
                    0 <= k < i ==> (#[trigger] joints@[k]).pos.bounded(
                        COORD_MAX as int + 32 * LEN_MAX * k,
                    ),
            decreases n - i,
        {
            let d = joints[i].pos.sub(joints[i - 1].pos);
            let dir = d.normalize_unit();
            let off = dir.scale_dir(self.joint_lengths[i - 1]);
            let newpos = joints[i - 1].pos.add(off);
            joints[i] = Joint { pos: newpos, rot: joints[i].rot };
            i = i + 1;
        }
        joints[n - 1] = Joint { pos: origin, rot: joints[n - 1].rot };
        proof {
            assert(joints@ =~= spec_backward(orig, self.spec_lengths(), self.spec_target()));
        }
    }

    /// Forward pass: re-anchor the joint adjacent to the root along the
    /// chain's rest direction, then walk root to tail, reorienting each
    /// joint toward its child under the joint's constraints.
    fn forward_pass(&self, joints: &mut Vec<Joint>, constraints: &Vec<Vec<Constraint>>)
        requires
            self.ready(),
            old(joints)@.len() == self.spec_joint_count(),
            joints_wf(old(joints)@),
            old(joints)@[old(joints)@.len() - 1].pos.bounded(COORD_MAX as int),
            constraints@.len() == self.spec_joint_count(),
            cons_wf(constraints@),
        ensures
            final(joints)@ == spec_forward(
                old(joints)@,
                constraints@,
                self.spec_lengths(),
                self.spec_root_normal(),
            ),
            joints_wf(final(joints)@),
            final(joints)@.len() == old(joints)@.len(),
            final(joints)@[final(joints)@.len() - 1] == old(joints)@[old(joints)@.len() - 1],
    {
        let n = joints.len();
        let r = n - 2;
        let off0 = self.root_normal.scale_dir(self.joint_lengths[r]);
        joints[r] = Joint { pos: joints[n - 1].pos.add(off0), rot: joints[r].rot };
        let ghost placed = joints@;
        proof {
            assert(self.spec_lengths()[r as int] <= LEN_MAX);
            assert(off0.bounded(32 * (LEN_MAX as int)));
            assert(placed[r as int].pos.bounded(COORD_MAX as int + 32 * LEN_MAX));
        }
        let mut i: usize = r;
        while i > 0
            invariant
                self.ready(),
                joints@.len() == n == placed.len(),
                n == self.spec_joint_count(),
                r == n - 2,
                constraints@.len() == n,
                cons_wf(constraints@),
                0 <= i <= r,
                joints@ == spec_forward_from(
                    placed,
                    constraints@,
                    self.spec_lengths(),
                    self.spec_root_normal(),
                    i as int,
                    r as int,
                ),
                forall|k: int| 0 <= k < i ==> joints@[k] == placed[k],
                forall|k: int| r < k < n ==> joints@[k] == placed[k],
                forall|k: int| 0 <= k < n ==> (#[trigger] joints@[k]).rot.bounded(SCALE as int),
                forall|k: int| 0 <= k < i ==> (#[trigger] joints@[k]).pos.bounded(POS_BOUND as int),
                forall|k: int|
                    i <= k <= r ==> (#[trigger] joints@[k]).pos.bounded(
                        COORD_MAX as int + 32 * LEN_MAX * (r - k + 1),
                    ),
                joints@[n - 1].pos.bounded(COORD_MAX as int),
            decreases i,
        {
            let j = i - 1;
            let dirv = joints[j].pos.sub(joints[j + 1].pos);
            let dir = dirv.normalize_unit();
            let arc = QuatFx::from_rotation_arc(self.root_normal, dir);
            let pc = joints[j + 1].rot.conjugate();
            proof {
                assert(pc.bounded(SCALE as int));
            }
            let delta = pc.mul(arc);
            proof {
                crate::quat::lemma_spec_mul_bound(pc, arc, SCALE as int, SCALE as int);
            }
            let tw_sw = delta.decompose();
            let applied = apply_all(&constraints[j + 1], tw_sw.1, tw_sw.0);
            let m1 = joints[j + 1].rot.mul(applied.0);
            proof {
                crate::quat::lemma_spec_mul_bound(
                    joints@[j as int + 1].rot,
                    applied.0,
                    SCALE as int,
                    0x10_0000,
                );
            }
            let newrot = m1.mul(applied.1).normalize();
            let up = newrot.rotate(self.root_normal);
            proof {
                crate::quat::lemma_rotate_unit_bound(newrot, self.spec_root_normal());
            }
            let off = up.scale_dir(self.joint_lengths[j + 1]);
            let newpos = joints[j + 1].pos.add(off);
            joints[j + 1] = Joint { pos: joints[j + 1].pos, rot: newrot };
            joints[j] = Joint { pos: newpos, rot: joints[j].rot };
            proof {
                assert(joints@ =~= fw_step(
                    spec_forward_from(
                        placed,
                        constraints@,
                        self.spec_lengths(),
                        self.spec_root_normal(),
                        i as int,
                        r as int,
                    ),
                    constraints@,
                    self.spec_lengths(),
                    self.spec_root_normal(),
                    j as int,
                ));
            }
            i = j;
        }
        proof {
            assert(joints@ == spec_forward(
                old(joints)@,
                constraints@,
                self.spec_lengths(),
                self.spec_root_normal(),
            ));
            assert(placed[n - 1] == old(joints)@[n - 1]);
            assert(joints@[n - 1] == placed[n - 1]);
        }
    }

    /// Solve the chain against the gathered joint frames (tail first, root
    /// last) and per-joint constraint lists, and return the local poses to
    /// write back, one per joint below the root.
    ///
    /// A disabled chain, or one whose tail is already within the squared
    /// threshold of the target, is skipped: `Ok(None)` with the frames
    /// untouched. Mismatched frame or constraint counts mean the scene
    /// changed under the solver: `Err(QueryFailure)`, frames untouched.
    /// Otherwise the frames are iterated to exactly
    /// `spec_iterate(..., max_iterations)` — the same inputs always give
    /// the same output — and the root's frame is never moved.
    pub fn solve(&self, joints: &mut Vec<Joint>, constraints: &Vec<Vec<Constraint>>) -> (r: Result<
        Option<Vec<LocalPose>>,
        IkChainError,
    >)
        requires
            self.spec_enabled() ==> self.ready(),
            self.spec_target().bounded(COORD_MAX as int),
            forall|i: int|
                0 <= i < old(joints)@.len() ==> (#[trigger] old(joints)@[i]).pos.bounded(
                    COORD_MAX as int,
                ) && old(joints)@[i].rot.bounded(SCALE as int),
            cons_wf(constraints@),
        ensures
            !self.spec_enabled() ==> r == Result::<Option<Vec<LocalPose>>, IkChainError>::Ok(None)
                && final(joints)@ == old(joints)@,
            self.spec_enabled() && (old(joints)@.len() != self.spec_joint_count()
                || constraints@.len() != self.spec_joint_count()) ==> r == Result::<
                Option<Vec<LocalPose>>,
                IkChainError,
            >::Err(IkChainError::QueryFailure) && final(joints)@ == old(joints)@,
            self.spec_enabled() && old(joints)@.len() == self.spec_joint_count()
                && constraints@.len() == self.spec_joint_count() && old(
                joints,
            )@[0].pos.spec_dist_sq(self.spec_target()) < self.spec_threshold() ==> r == Result::<
                Option<Vec<LocalPose>>,
                IkChainError,
            >::Ok(None) && final(joints)@ == old(joints)@,
            self.spec_enabled() && old(joints)@.len() == self.spec_joint_count()
                && constraints@.len() == self.spec_joint_count() && old(
                joints,
            )@[0].pos.spec_dist_sq(self.spec_target()) >= self.spec_threshold() ==> final(joints)@
                == spec_iterate(
                old(joints)@,
                constraints@,
                self.spec_lengths(),
                self.spec_root_normal(),
                self.spec_target(),
                self.spec_threshold(),
                self.spec_max_iterations(),
            ) && (r matches Ok(ps) && ps matches Some(ps) && ps@ == spec_writeback(final(joints)@))
                && final(joints)@[self.spec_joint_count() - 1] == old(
                joints,
            )@[self.spec_joint_count() - 1] && final(joints)@.len() == self.spec_joint_count()
                && joints_wf(final(joints)@),
    {
        if !self.enabled {
            return Ok(None);
        }
        if joints.len() != self.joint_count || constraints.len() != self.joint_count {
            return Err(IkChainError::QueryFailure);
        }
        let d0 = joints[0].pos.dist_sq(self.target);
        if d0 < self.threshold as i128 {
            return Ok(None);
        }
        let ghost orig = joints@;
        let n = joints.len();
        let mut it: usize = 0;
        let mut done = false;
        while it < self.max_iterations && !done
            invariant
                self.ready(),
                self.spec_target().bounded(COORD_MAX as int),
                cons_wf(constraints@),
                constraints@.len() == self.spec_joint_count(),
                n == self.spec_joint_count(),
                joints@.len() == n == orig.len(),
                joints_wf(joints@),
                joints@[n - 1] == orig[n - 1],
                orig[n - 1].pos.bounded(COORD_MAX as int),
                it <= self.spec_max_iterations(),
                joints@ == spec_iterate(
                    orig,
                    constraints@,
                    self.spec_lengths(),
                    self.spec_root_normal(),
                    self.spec_target(),
                    self.spec_threshold(),
                    it as nat,
                ),
                done ==> joints@ == spec_iterate(
                    orig,
                    constraints@,
                    self.spec_lengths(),
                    self.spec_root_normal(),
                    self.spec_target(),
                    self.spec_threshold(),
                    self.spec_max_iterations(),
                ),
            decreases self.spec_max_iterations() - it, (if done { 0int } else { 1int }),
        {
            let dcur = joints[0].pos.dist_sq(self.target);
            if dcur < self.threshold as i128 {
                proof {
                    lemma_iterate_add(
                        orig,
                        constraints@,
                        self.spec_lengths(),
                        self.spec_root_normal(),
                        self.spec_target(),
                        self.spec_threshold(),
                        it as nat,
                        (self.spec_max_iterations() - it) as nat,
                    );
                    lemma_iterate_stable(
                        joints@,
                        constraints@,
                        self.spec_lengths(),
                        self.spec_root_normal(),
                        self.spec_target(),
                        self.spec_threshold(),
                        (self.spec_max_iterations() - it) as nat,
                    );
                }
                done = true;
            } else {
                let ghost before = joints@;
                self.backward_pass(joints);
                self.forward_pass(joints, constraints);
                proof {
                    lemma_iterate_add(
                        orig,
                        constraints@,
                        self.spec_lengths(),
                        self.spec_root_normal(),
                        self.spec_target(),
                        self.spec_threshold(),
                        it as nat,
                        1,
                    );
                    assert(spec_iterate(
                        spec_round(
                            before,
                            constraints@,
                            self.spec_lengths(),
                            self.spec_root_normal(),
                            self.spec_target(),
                        ),
                        constraints@,
                        self.spec_lengths(),
                        self.spec_root_normal(),
                        self.spec_target(),
                        self.spec_threshold(),
                        0,
                    ) == spec_round(
                        before,
                        constraints@,
                        self.spec_lengths(),
                        self.spec_root_normal(),
                        self.spec_target(),
                    ));
                    assert(spec_iterate(
                        before,
                        constraints@,
                        self.spec_lengths(),
                        self.spec_root_normal(),
                        self.spec_target(),
                        self.spec_threshold(),
                        1,
                    ) == spec_round(
                        before,
                        constraints@,
                        self.spec_lengths(),
                        self.spec_root_normal(),
                        self.spec_target(),
                    ));
                }
                it = it + 1;
            }
        }
        let mut locals: Vec<LocalPose> = Vec::new();
        let mut i: usize = 0;
        while i < n - 1
            invariant
                joints@.len() == n,
                2 <= n,
                joints_wf(joints@),
                0 <= i <= n - 1,
                locals@.len() == i,
                forall|k: int|
                    0 <= k < i ==> locals@[k] == spec_reparent(joints@[k], joints@[k + 1]),
            decreases n - 1 - i,
        {
            let lp = reparent(joints[i], joints[i + 1]);
            locals.push(lp);
            i = i + 1;
        }
        proof {
            assert(locals@ =~= spec_writeback(joints@));
        }
        Ok(Some(locals))
    }
}

/// Every joint frame within the solver's working bounds: positions inside
/// `POS_BOUND`, rotations unit-scaled.
pub open spec fn joints_wf(js: Seq<Joint>) -> bool {
    forall|i: int|
        0 <= i < js.len() ==> (#[trigger] js[i]).pos.bounded(POS_BOUND as int) && js[i].rot.bounded(
            SCALE as int,
        )
}

/// Every constraint of every joint carries a limit in range.
pub open spec fn cons_wf(cs: Seq<Vec<Constraint>>) -> bool {
    forall|i: int, k: int|
        0 <= i < cs.len() && 0 <= k < (#[trigger] cs[i])@.len() ==> (#[trigger] cs[i]@[k]).valid()
}

/// Position of joint `i` after the backward pass, before the root is
/// restored: the tail sits on the target and each joint is pulled to
/// segment distance from its already-moved child, along the direction
/// toward its old position.
pub open spec fn bw_pos(js: Seq<Joint>, lengths: Seq<i64>, target: Vec3Fx, i: int) -> Vec3Fx
    decreases i,
{
    if i <= 0 {
        target
    } else {
        let prev = bw_pos(js, lengths, target, i - 1);
        prev.spec_add(step_offset(js[i].pos.spec_sub(prev), lengths[i - 1]))
    }
}

/// The backward pass: translations only; the root keeps its place.
pub open spec fn spec_backward(js: Seq<Joint>, lengths: Seq<i64>, target: Vec3Fx) -> Seq<Joint> {
    Seq::new(
        js.len(),
        |i: int|
            if i == js.len() - 1 {
                js[i]
            } else {
                Joint { pos: bw_pos(js, lengths, target, i), rot: js[i].rot }
            },
    )
}

/// One forward-pass step at index `i`: reorient joint `i + 1` toward its
/// child's backward position, clamp the reorientation by the joint's
/// constraints, and reposition joint `i` along the joint's rotated
/// outgoing axis.
pub open spec fn fw_step(
    js: Seq<Joint>,
    cs: Seq<Vec<Constraint>>,
    lengths: Seq<i64>,
    normal: Vec3Fx,
    i: int,
) -> Seq<Joint> {
    let dir = js[i].pos.spec_sub(js[i + 1].pos).spec_normalize();
    let arc = QuatFx::spec_rotation_arc(normal, dir);
    let delta = QuatFx::spec_mul(js[i + 1].rot.spec_conj(), arc);
    let tw_sw = delta.spec_decompose();
    let applied = spec_apply_all(cs[i + 1]@, tw_sw.1, tw_sw.0);
    let newrot = QuatFx::spec_mul(
        QuatFx::spec_mul(js[i + 1].rot, applied.0),
        applied.1,
    ).spec_normalize();
    let up = newrot.spec_rotate(normal);
    let newpos = js[i + 1].pos.spec_add(up.spec_scale_dir(lengths[i + 1]));
    js.update(i + 1, Joint { pos: js[i + 1].pos, rot: newrot }).update(
        i,
        Joint { pos: newpos, rot: js[i].rot },
    )
}

/// The forward pass from index `r - 1` down to `i` (the exec loop walks
/// root to tail, so later indices are already done).
pub open spec fn spec_forward_from(
    js: Seq<Joint>,
    cs: Seq<Vec<Constraint>>,
    lengths: Seq<i64>,
    normal: Vec3Fx,
    i: int,
    r: int,
) -> Seq<Joint>
    decreases r - i,
{
    if i >= r {
        js
    } else {
        fw_step(spec_forward_from(js, cs, lengths, normal, i + 1, r), cs, lengths, normal, i)
    }
}

/// The whole forward pass: re-anchor the joint adjacent to the root along
/// the chain's rest direction, then walk toward the tail.
pub open spec fn spec_forward(
    js: Seq<Joint>,
    cs: Seq<Vec<Constraint>>,
    lengths: Seq<i64>,
    normal: Vec3Fx,
) -> Seq<Joint> {
    let r = js.len() - 2;
    let placed = js.update(
        r,
        Joint { pos: js[js.len() - 1].pos.spec_add(normal.spec_scale_dir(lengths[r])), rot: js[r].rot },
    );
    spec_forward_from(placed, cs, lengths, normal, 0, r)
}

/// One solver round: backward pass then forward pass.
pub open spec fn spec_round(
    js: Seq<Joint>,
    cs: Seq<Vec<Constraint>>,
    lengths: Seq<i64>,
    normal: Vec3Fx,
    target: Vec3Fx,
) -> Seq<Joint> {
    spec_forward(spec_backward(js, lengths, target), cs, lengths, normal)
}

/// Up to `k` solver rounds, stopping early once the tail is within the
/// squared threshold of the target.
pub open spec fn spec_iterate(
    js: Seq<Joint>,
    cs: Seq<Vec<Constraint>>,
    lengths: Seq<i64>,
    normal: Vec3Fx,
    target: Vec3Fx,
    threshold: int,
    k: nat,
) -> Seq<Joint>
    decreases k,
{
    if k == 0 {
        js
    } else if js[0].pos.spec_dist_sq(target) < threshold {
        js
    } else {
        spec_iterate(
            spec_round(js, cs, lengths, normal, target),
            cs,
            lengths,
            normal,
            target,
            threshold,
            (k - 1) as nat,
        )
    }
}

/// A chain already within its threshold is left exactly as it is, however
/// many rounds remain.
pub proof fn lemma_iterate_stable(
    js: Seq<Joint>,
    cs: Seq<Vec<Constraint>>,
    lengths: Seq<i64>,
    normal: Vec3Fx,
    target: Vec3Fx,
    threshold: int,
    k: nat,
)
    requires
        js[0].pos.spec_dist_sq(target) < threshold,
    ensures
        spec_iterate(js, cs, lengths, normal, target, threshold, k) == js,
{
}

/// Rounds compose: running `a + b` rounds is running `b` rounds from the
/// state `a` rounds reach.
pub proof fn lemma_iterate_add(
    js: Seq<Joint>,
    cs: Seq<Vec<Constraint>>,
    lengths: Seq<i64>,
    normal: Vec3Fx,
    target: Vec3Fx,
    threshold: int,
    a: nat,
    b: nat,
)
    ensures
        spec_iterate(js, cs, lengths, normal, target, threshold, (a + b) as nat) == spec_iterate(
            spec_iterate(js, cs, lengths, normal, target, threshold, a),
            cs,
            lengths,
            normal,
            target,
            threshold,
            b,
        ),
    decreases a,
{
    if a == 0 {
    } else if js[0].pos.spec_dist_sq(target) < threshold {
        lemma_iterate_stable(js, cs, lengths, normal, target, threshold, (a + b) as nat);
        lemma_iterate_stable(js, cs, lengths, normal, target, threshold, a);
        lemma_iterate_stable(js, cs, lengths, normal, target, threshold, b);
    } else {
        lemma_iterate_add(
            spec_round(js, cs, lengths, normal, target),
            cs,
            lengths,
            normal,
            target,
            threshold,
            (a - 1) as nat,
            b,
        );
    }
}

/// A joint's world frame expressed relative to its parent's frame:
/// `parent^-1 * child`, scale untouched.
pub open spec fn spec_reparent(child: Joint, parent: Joint) -> LocalPose {
    LocalPose {
        translation: parent.rot.spec_conj().spec_rotate(child.pos.spec_sub(parent.pos)),
        rotation: QuatFx::spec_mul(parent.rot.spec_conj(), child.rot).spec_normalize(),
    }
}

/// The solved local poses: every joint but the root, reparented to the
/// joint above it.
pub open spec fn spec_writeback(js: Seq<Joint>) -> Seq<LocalPose> {
    Seq::new((js.len() - 1) as nat, |i: int| spec_reparent(js[i], js[i + 1]))
}

/// The offset one repositioning step adds to its anchor: the normalized
/// difference vector stretched to segment length.
pub open spec fn step_offset(diff: Vec3Fx, len: i64) -> Vec3Fx {
    diff.spec_normalize().spec_scale_dir(len)
}

/// One component of a step offset is close to the ideal length-preserving
/// one: scaled up by `SCALE * n`, the computed component `o` lies within
/// `n * (SCALE + len)` of the exact `d * len / n` (similarly scaled).
/// Dividing back down: the error per component is below `1 + len / SCALE`
/// fixed-point units.
pub open spec fn off_component_close(o: int, d: int, n: int, len: int) -> bool {
    -(n * ((SCALE as int) + len)) < (SCALE as int) * (n * o) - (SCALE as int) * (len * d) < n * (
    (SCALE as int) + len)
}

/// Length preservation up to rounding: every repositioning step of the
/// backward pass places a joint at `step_offset(diff, len)` from its
/// anchor, and each component of that offset differs from the ideal
/// `diff * len / |diff|` (which preserves the segment length exactly) by
/// less than one unit plus `len / SCALE`. Degenerate segments (`|diff| <
/// 1`) fall back to the +Y direction and are excluded.
pub proof fn lemma_step_length_bound(diff: Vec3Fx, len: i64)
    requires
        0 <= len <= LEN_MAX,
        diff.spec_length() >= 1,
    ensures
        off_component_close(
            step_offset(diff, len).x as int,
            diff.x as int,
            diff.spec_length(),
            len as int,
        ),
        off_component_close(
            step_offset(diff, len).y as int,
            diff.y as int,
            diff.spec_length(),
            len as int,
        ),
        off_component_close(
            step_offset(diff, len).z as int,
            diff.z as int,
            diff.spec_length(),
            len as int,
        ),
{
    let n = diff.spec_length();
    proof_sq_nonneg(diff);
    fixed::lemma_sqrt_floor_props(diff.norm_sq());
    fixed::lemma_abs_le_of_sq_lt(diff.x as int, n);
    fixed::lemma_abs_le_of_sq_lt(diff.y as int, n);
    fixed::lemma_abs_le_of_sq_lt(diff.z as int, n);
    lemma_step_component(diff.x as int, n, len as int);
    lemma_step_component(diff.y as int, n, len as int);
    lemma_step_component(diff.z as int, n, len as int);
}

/// Squares of the components are nonnegative, so the squared norm is too.
proof fn proof_sq_nonneg(v: Vec3Fx)
    by (nonlinear_arith)
    ensures
        0 <= v.norm_sq(),
        (v.x as int) * (v.x as int) <= v.norm_sq(),
        (v.y as int) * (v.y as int) <= v.norm_sq(),
        (v.z as int) * (v.z as int) <= v.norm_sq(),
{
}

/// The per-component rounding argument behind `lemma_step_length_bound`.
proof fn lemma_step_component(d: int, n: int, len: int)
    requires
        1 <= n,
        0 <= len <= LEN_MAX,
        -n <= d <= n,
    ensures
        off_component_close(
            (fixed::tdiv(
                ((fixed::tdiv(d * (SCALE as int), n) as i64) as int) * len,
                SCALE as int,
            ) as i64) as int,
            d,
            n,
            len,
        ),
{
    let s = SCALE as int;
    fixed::lemma_tdiv_mul_le(d * s, n, s);
    let u = fixed::tdiv(d * s, n);
    assert(((u as i64) as int) == u);
    crate::vec3::lemma_prod_le(u, len, s);
    fixed::lemma_tdiv_mul_le(u * len, s, len);
    let o = fixed::tdiv(u * len, s);
    assert(((o as i64) as int) == o);
    fixed::lemma_tdiv_close(d * s, n);
    fixed::lemma_tdiv_close(u * len, s);
    assert(-(n * s) < n * (s * o) - n * (u * len) < n * s) by (nonlinear_arith)
        requires
            1 <= n,
            -s < s * o - u * len < s;
    assert(-(n * len) <= len * (n * u) - len * (d * s) <= n * len) by (nonlinear_arith)
        requires
            0 <= len,
            -n < n * u - d * s < n;
    assert(-(n * (s + len)) < s * (n * o) - s * (len * d) < n * (s + len)) by (nonlinear_arith)
        requires
            -(n * s) < n * (s * o) - n * (u * len) < n * s,
            -(n * len) <= len * (n * u) - len * (d * s) <= n * len;
}

/// A square expands within slack: `|u - c| < e` and `|c| <= m` bound
/// `u * u` between `c * c - 2 * e * m` and `c * c + 2 * e * m + e * e`.
proof fn lemma_sq_expand(u: int, c: int, e: int, m: int)
    by (nonlinear_arith)
    requires
        -e < u - c < e,
        -m <= c <= m,
        0 <= e,
        0 <= m,
    ensures
        u * u < c * c + 2 * (e * m) + e * e,
        u * u >= c * c - 2 * (e * m),
{
}

/// Length preservation at the norm level: the squared length of a step
/// offset, scaled up by `(SCALE * n)^2`, lies within rounding slack of
/// `(SCALE * len * n)^2`. Reading the slack back down, the offset's length
/// is `len` to within about `1 + len / SCALE` fixed-point units per
/// component plus the sub-unit the floor of `|diff|` contributes — the
/// epsilon of one backward-pass repositioning. Degenerate segments
/// (`|diff| < 1`) fall back to the +Y direction and are excluded.
#[verifier::rlimit(60)]
pub proof fn lemma_step_norm_bound(diff: Vec3Fx, len: i64)
    requires
        0 <= len <= LEN_MAX,
        diff.spec_length() >= 1,
    ensures
        ({
            let n = diff.spec_length();
            let s = SCALE as int;
            let w = s * n;
            let v = s * (len as int);
            let e = n * (s + len);
            let m = v * n;
            let o = step_offset(diff, len);
            (w * w) * o.norm_sq() < (v * v) * ((n + 1) * (n + 1)) + 6 * (e * m) + 3 * (e * e)
        }),
        ({
            let n = diff.spec_length();
            let s = SCALE as int;
            let w = s * n;
            let v = s * (len as int);
            let e = n * (s + len);
            let m = v * n;
            let o = step_offset(diff, len);
            (w * w) * o.norm_sq() >= m * m - 6 * (e * m)
        }),
{
    let n = diff.spec_length();
    let s = SCALE as int;
    let li = len as int;
    let w = s * n;
    let v = s * li;
    let e = n * (s + li);
    let m = v * n;
    let o = step_offset(diff, len);
    let dx = diff.x as int;
    let dy = diff.y as int;
    let dz = diff.z as int;
    let ox = o.x as int;
    let oy = o.y as int;
    let oz = o.z as int;
    lemma_step_length_bound(diff, len);
    proof_sq_nonneg(diff);
    fixed::lemma_sqrt_floor_props(diff.norm_sq());
    fixed::lemma_abs_le_of_sq_lt(dx, n);
    fixed::lemma_abs_le_of_sq_lt(dy, n);
    fixed::lemma_abs_le_of_sq_lt(dz, n);
    assert(0 <= e) by (nonlinear_arith)
        requires
            e == n * (s + li),
            1 <= n,
            0 <= li,
            0 < s;
    assert(0 <= v && 0 <= m) by (nonlinear_arith)
        requires
            v == s * li,
            m == v * n,
            1 <= n,
            0 <= li,
            0 < s;
    // tie the atoms to the per-component closeness facts
    assert(w * ox == s * (n * ox) && w * oy == s * (n * oy) && w * oz == s * (n * oz))
        by (nonlinear_arith)
        requires
            w == s * n;
    assert(v * dx == s * (li * dx) && v * dy == s * (li * dy) && v * dz == s * (li * dz))
        by (nonlinear_arith)
        requires
            v == s * li;
    assert(-m <= v * dx <= m && -m <= v * dy <= m && -m <= v * dz <= m) by (nonlinear_arith)
        requires
            m == v * n,
            0 <= v,
            -n <= dx <= n,
            -n <= dy <= n,
            -n <= dz <= n;
    lemma_sq_expand(w * ox, v * dx, e, m);
    lemma_sq_expand(w * oy, v * dy, e, m);
    lemma_sq_expand(w * oz, v * dz, e, m);
    // gather the three components into the squared norms
    assert((w * ox) * (w * ox) + (w * oy) * (w * oy) + (w * oz) * (w * oz) == (w * w)
        * o.norm_sq()) by (nonlinear_arith)
        requires
            o.norm_sq() == ox * ox + oy * oy + oz * oz;
    assert((v * dx) * (v * dx) + (v * dy) * (v * dy) + (v * dz) * (v * dz) == (v * v)
        * diff.norm_sq()) by (nonlinear_arith)
        requires
            diff.norm_sq() == dx * dx + dy * dy + dz * dz;
    // the exact offset's squared norm sits between n^2 and (n + 1)^2 scaled
    assert((v * v) * diff.norm_sq() <= (v * v) * ((n + 1) * (n + 1))) by (nonlinear_arith)
        requires
            0 <= v,
            0 <= diff.norm_sq(),
            diff.norm_sq() < (n + 1) * (n + 1);
    assert((v * v) * diff.norm_sq() >= m * m) by (nonlinear_arith)
        requires
            m == v * n,
            0 <= v,
            1 <= n,
            n * n <= diff.norm_sq();
}

/// Determinism: the solver's iteration is a pure function of the joint
/// frames, constraints, segment lengths, root direction, target and
/// tuning — identical inputs give identical outputs.
pub proof fn lemma_solve_deterministic(
    js1: Seq<Joint>,
    js2: Seq<Joint>,
    cs1: Seq<Vec<Constraint>>,
    cs2: Seq<Vec<Constraint>>,
    lengths1: Seq<i64>,
    lengths2: Seq<i64>,
    normal1: Vec3Fx,
    normal2: Vec3Fx,
    target1: Vec3Fx,
    target2: Vec3Fx,
    threshold1: int,
    threshold2: int,
    k1: nat,
    k2: nat,
)
    requires
        js1 == js2,
        cs1 == cs2,
        lengths1 == lengths2,
        normal1 == normal2,
        target1 == target2,
        threshold1 == threshold2,
        k1 == k2,
    ensures
        spec_iterate(js1, cs1, lengths1, normal1, target1, threshold1, k1) == spec_iterate(
            js2,
            cs2,
            lengths2,
            normal2,
            target2,
            threshold2,
            k2,
        ),
{
}

/// Executable reparenting of one joint to its parent.
fn reparent(child: Joint, parent: Joint) -> (r: LocalPose)
    requires
        child.pos.bounded(POS_BOUND as int),
        parent.pos.bounded(POS_BOUND as int),
        child.rot.bounded(SCALE as int),
        parent.rot.bounded(SCALE as int),
    ensures
        r == spec_reparent(child, parent),
{
    let pc = parent.rot.conjugate();
    proof {
        assert(pc.bounded(SCALE as int));
    }
    let rot = pc.mul(child.rot).normalize();
    let diff = child.pos.sub(parent.pos);
    let tr = pc.rotate(diff);
    LocalPose { translation: tr, rotation: rot }
}

} // verus!
