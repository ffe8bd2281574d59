//! Per-joint angular limits: a tagged constraint that clamps either the
//! swing or the twist component of a joint rotation.
//!
//! A limit is stored as a fixed-point magnitude `m`, the sine of half the
//! allowed angle times `SCALE`, the radius of the sphere the rotation's
//! vector part is clamped to. A host working in radians converts once when
//! attaching the constraint. A joint's ordered constraint list is applied
//! in sequence, so composed limits compound in insertion order.

use vstd::prelude::*;
use crate::fixed::SCALE;
use crate::quat::QuatFx;

verus! {

/// An angular limit on one component of a joint rotation.
#[derive(Clone, Copy, PartialEq, Eq, Structural, Debug)]
pub enum Constraint {
    /// Limit the off-axis (swing) component to the stored magnitude.
    Swing(i64),
    /// Limit the rotation about the forward axis (twist) likewise.
    Twist(i64),
}

impl Constraint {
    /// The stored half-angle sine magnitude.
    pub open spec fn spec_limit(self) -> i64 {
        match self {
            Constraint::Swing(m) => m,
            Constraint::Twist(m) => m,
        }
    }

    /// A limit is valid when it lies within `[0, SCALE]`, the range of a
    /// sine at fixed-point scale.
    pub open spec fn valid(self) -> bool {
        0 <= self.spec_limit() <= SCALE as int
    }

    /// Constrain a `(swing, twist)` pair: the `Swing` variant clamps the
    /// swing component only, the `Twist` variant the twist component only.
    pub open spec fn spec_apply(self, swing: QuatFx, twist: QuatFx) -> (QuatFx, QuatFx) {
        match self {
            Constraint::Swing(m) => (swing.spec_constrain(m), twist),
            Constraint::Twist(m) => (swing, twist.spec_constrain(m)),
        }
    }

    pub fn get_angle(self) -> (r: i64)
        ensures
            r == self.spec_limit(),
    {
        match self {
            Constraint::Swing(m) => m,
            Constraint::Twist(m) => m,
        }
    }

    pub fn apply(self, swing: QuatFx, twist: QuatFx) -> (r: (QuatFx, QuatFx))
        requires
            self.valid(),
            swing.bounded(0x2000_0000_0000_0000),
            twist.bounded(0x2000_0000_0000_0000),
        ensures
            r == self.spec_apply(swing, twist),
            swing.bounded(0x10_0000) ==> r.0.bounded(0x10_0000),
            twist.bounded(SCALE as int) ==> r.1.bounded(SCALE as int),
    {
        match self {
            Constraint::Swing(m) => (swing.constrain(m), twist),
            Constraint::Twist(m) => (swing, twist.constrain(m)),
        }
    }
}

/// Attachable swing limit: the host-facing form of `Constraint::Swing`,
/// holding the same half-angle sine magnitude.
#[derive(Clone, Copy, PartialEq, Eq, Structural, Debug)]
pub struct SwingConstraint(pub i64);

impl SwingConstraint {
    pub fn constraint(self) -> (r: Constraint)
        ensures
            r == Constraint::Swing(self.0),
    {
        Constraint::Swing(self.0)
    }

    pub fn get_angle(self) -> (r: i64)
        ensures
            r == self.0,
    {
        self.0
    }

    pub fn apply(self, swing: QuatFx, twist: QuatFx) -> (r: (QuatFx, QuatFx))
        requires
            Constraint::Swing(self.0).valid(),
            swing.bounded(0x2000_0000_0000_0000),
            twist.bounded(0x2000_0000_0000_0000),
        ensures
            r == Constraint::Swing(self.0).spec_apply(swing, twist),
    {
        Constraint::Swing(self.0).apply(swing, twist)
    }
}

/// Attachable twist limit: the host-facing form of `Constraint::Twist`.
#[derive(Clone, Copy, PartialEq, Eq, Structural, Debug)]
pub struct TwistConstraint(pub i64);

impl TwistConstraint {
    pub fn constraint(self) -> (r: Constraint)
        ensures
            r == Constraint::Twist(self.0),
    {
        Constraint::Twist(self.0)
    }

    pub fn get_angle(self) -> (r: i64)
        ensures
            r == self.0,
    {
        self.0
    }

    pub fn apply(self, swing: QuatFx, twist: QuatFx) -> (r: (QuatFx, QuatFx))
        requires
            Constraint::Twist(self.0).valid(),
            swing.bounded(0x2000_0000_0000_0000),
            twist.bounded(0x2000_0000_0000_0000),
        ensures
            r == Constraint::Twist(self.0).spec_apply(swing, twist),
    {
        Constraint::Twist(self.0).apply(swing, twist)
    }
}

/// The fold of a joint's ordered constraint list over a `(swing, twist)`
/// pair, first constraint first.
pub open spec fn spec_apply_all(cs: Seq<Constraint>, swing: QuatFx, twist: QuatFx) -> (
    QuatFx,
    QuatFx,
)
    decreases cs.len(),
{
    if cs.len() == 0 {
        (swing, twist)
    } else {
        let prev = spec_apply_all(cs.drop_last(), swing, twist);
        cs.last().spec_apply(prev.0, prev.1)
    }
}

/// Apply every constraint of a joint, in insertion order.
pub fn apply_all(cs: &Vec<Constraint>, swing: QuatFx, twist: QuatFx) -> (r: (QuatFx, QuatFx))
    requires
        forall|k: int| 0 <= k < cs@.len() ==> (#[trigger] cs@[k]).valid(),
        swing.bounded(0x10_0000),
        twist.bounded(SCALE as int),
    ensures
        r == spec_apply_all(cs@, swing, twist),
        r.0.bounded(0x10_0000),
        r.1.bounded(SCALE as int),
{
    let mut s = swing;
    let mut t = twist;
    let mut i: usize = 0;
    while i < cs.len()
        invariant
            0 <= i <= cs@.len(),
            forall|k: int| 0 <= k < cs@.len() ==> (#[trigger] cs@[k]).valid(),
            (s, t) == spec_apply_all(cs@.take(i as int), swing, twist),
            s.bounded(0x10_0000),
            t.bounded(SCALE as int),
        decreases cs@.len() - i,
    {
        let c = cs[i];
        let applied = c.apply(s, t);
        proof {
            assert(cs@.take(i as int + 1).drop_last() =~= cs@.take(i as int));
            assert(cs@.take(i as int + 1).last() == cs@[i as int]);
        }
        s = applied.0;
        t = applied.1;
        i = i + 1;
    }
    proof {
        assert(cs@.take(cs@.len() as int) =~= cs@);
    }
    (s, t)
}

} // verus!
