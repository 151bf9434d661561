//! The world axis that a camera treats as "up".

use vstd::prelude::*;

verus! {

/// One of the three world axes.
#[derive(Clone, Copy, Debug, PartialEq, Eq, Structural)]
pub enum Direction {
    X,
    Y,
    Z,
}

/// The axis as a vector of integer components: one component is 1, the
/// other two are 0.
pub open spec fn unit_vector(dir: Direction) -> (int, int, int) {
    match dir {
        Direction::X => (1, 0, 0),
        Direction::Y => (0, 1, 0),
        Direction::Z => (0, 0, 1),
    }
}

/// Returns the unit vector of the axis `dir`, as integer components.
pub fn get_unit_vector(dir: Direction) -> (v: [i32; 3])
    ensures
        (v[0] as int, v[1] as int, v[2] as int) == unit_vector(dir),
{
    match dir {
        Direction::X => [1, 0, 0],
        Direction::Y => [0, 1, 0],
        Direction::Z => [0, 0, 1],
    }
}

} // verus!
