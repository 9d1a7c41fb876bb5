//! Keyboard steering of the reflector: the held keys give a direction on
//! the grid of unit steps.
use vstd::prelude::*;

verus! {

/// Which of the four steering keys are held in this frame
/// (A: left, D: right, W: up, S: down).
#[derive(Clone, Copy, Debug, PartialEq, Eq, Structural)]
pub struct SteeringKeys {
    pub left: bool,
    pub right: bool,
    pub up: bool,
    pub down: bool,
}

/// One step for a key that is held, none for one that is not.
pub open spec fn step(held: bool) -> int {
    if held { 1 } else { 0 }
}

/// The input direction before normalisation: each axis is the step towards
/// its positive key minus the step towards its negative key, so that two
/// opposite keys cancel out.
pub fn input_direction(keys: SteeringKeys) -> (direction: (i8, i8))
    ensures
        direction.0 == step(keys.right) - step(keys.left),
        direction.1 == step(keys.up) - step(keys.down),
        -1 <= direction.0 <= 1,
        -1 <= direction.1 <= 1,
{
    let mut x: i8 = 0;
    let mut y: i8 = 0;
    if keys.left {
        x = x - 1;
    }
    if keys.right {
        x = x + 1;
    }
    if keys.up {
        y = y + 1;
    }
    if keys.down {
        y = y - 1;
    }
    (x, y)
}

} // verus!
