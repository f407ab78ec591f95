//! How an inertial sensor is mounted relative to the body frame.

use crate::drivers::axes;
use crate::drivers::axes::Vector;
use vstd::prelude::*;

verus! {

/// How a chip is mounted. A board with two chips has one rolled over and the
/// other pitched over; averaged samples are already in the body frame.
#[derive(Clone, Copy, Debug, PartialEq, Eq, Structural)]
pub enum Orientation {
    Roll180,
    Pitch180,
    Identity,
}

impl Orientation {
    /// A sensor-frame vector in the body frame.
    pub open spec fn rotated(self, v: Vector) -> Vector {
        let Vector { x, y, z } = v;
        match self {
            Orientation::Roll180 => Vector { x, y: -y, z: -z },
            Orientation::Pitch180 => Vector { x: -x, y, z: -z },
            Orientation::Identity => Vector { x, y, z },
        }
    }

    /// Rotates a sensor-frame vector into the body frame.
    pub fn apply(self, v: [i32; 3]) -> (w: [i32; 3])
        requires
            v@[0] > i32::MIN,
            v@[1] > i32::MIN,
            v@[2] > i32::MIN,
        ensures
            axes::vector(w@) == self.rotated(axes::vector(v@)),
    {
        match self {
            Orientation::Roll180 => [v[0], -v[1], -v[2]],
            Orientation::Pitch180 => [-v[0], v[1], -v[2]],
            Orientation::Identity => [v[0], v[1], v[2]],
        }
    }
}

// ---- Laws ----

/// Every mounting is a proper rotation and never a mirror.
pub proof fn law_mountings_are_proper_rotations(o: Orientation)
    ensures
        axes::volume(
            o.rotated(Vector { x: 1, y: 0, z: 0 }),
            o.rotated(Vector { x: 0, y: 1, z: 0 }),
            o.rotated(Vector { x: 0, y: 0, z: 1 }),
        ) == 1,
{
    let a = o.rotated(Vector { x: 1, y: 0, z: 0 });
    let b = o.rotated(Vector { x: 0, y: 1, z: 0 });
    let c = o.rotated(Vector { x: 0, y: 0, z: 1 });
    axes::lemma_upright_volume(a, b, c);
    assert((a.x * b.y - a.y * b.x) * c.z == 1) by (nonlinear_arith)
        requires
            a.y == 0,
            b.x == 0,
            (a.x == 1 && b.y == 1 && c.z == 1) || (a.x == 1 && b.y == -1 && c.z == -1) || (a.x
                == -1 && b.y == 1 && c.z == -1),
    ;
}

/// Every mounting undoes itself.
pub proof fn law_mountings_are_half_turns(o: Orientation, v: Vector)
    ensures
        o.rotated(o.rotated(v)) == v,
{
}

/// A roll keeps X and a pitch keeps Y, each turning the other two axes over.
pub proof fn law_mountings_turn_the_axes(v: Vector)
    ensures
        Orientation::Identity.rotated(v) == v,
        Orientation::Roll180.rotated(v) == (Vector { x: v.x, y: -v.y, z: -v.z }),
        Orientation::Pitch180.rotated(v) == (Vector { x: -v.x, y: v.y, z: -v.z }),
{
}

} // verus!
