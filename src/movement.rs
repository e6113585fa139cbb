//! Driving a body with the movement keys.

use vstd::prelude::*;

verus! {

/// The movement keys held on this tick.
#[derive(Clone, Copy, Debug, PartialEq, Eq, Structural)]
pub struct MovementKeys {
    /// W: away from the player.
    pub forward: bool,
    /// A: to the left.
    pub left: bool,
    /// S: towards the player.
    pub back: bool,
    /// D: to the right.
    pub right: bool,
    /// Left shift: down.
    pub down: bool,
    /// Space: up.
    pub up: bool,
}

/// An impulse, in thousandths of the physics engine's unit.
#[derive(Clone, Copy, Debug, PartialEq, Eq, Structural)]
pub struct Impulse {
    pub x: i64,
    pub y: i64,
    pub z: i64,
}

/// Impulse per millisecond of a held key, in thousandths.
pub const MOVE_SPEED: i64 = 10;

/// The push along one axis: `d` towards the positive side, `-d` towards the
/// negative side, nothing when both keys or neither are held.
pub open spec fn axis(negative: bool, positive: bool, d: int) -> int {
    (if positive { d } else { 0 }) - (if negative { d } else { 0 })
}

pub open spec fn any_held(k: MovementKeys) -> bool {
    k.forward || k.left || k.back || k.right || k.down || k.up
}

/// The impulse that the held keys give the driven body over a tick of `dt`
/// milliseconds, or `None` when no movement key is held (the body's impulse
/// is left as it is).
pub fn movement_impulse(keys: MovementKeys, dt: u32) -> (r: Option<Impulse>)
    ensures
        r == if any_held(keys) {
            Some(
                Impulse {
                    x: axis(keys.left, keys.right, MOVE_SPEED * dt) as i64,
                    y: axis(keys.down, keys.up, MOVE_SPEED * dt) as i64,
                    z: axis(keys.forward, keys.back, MOVE_SPEED * dt) as i64,
                },
            )
        } else {
            None
        },
{
    if !(keys.forward || keys.left || keys.back || keys.right || keys.down || keys.up) {
        return None;
    }
    let d = MOVE_SPEED * (dt as i64);
    let mut x: i64 = 0;
    let mut y: i64 = 0;
    let mut z: i64 = 0;
    if keys.forward {
        z = z - d;
    }
    if keys.back {
        z = z + d;
    }
    if keys.left {
        x = x - d;
    }
    if keys.right {
        x = x + d;
    }
    if keys.down {
        y = y - d;
    }
    if keys.up {
        y = y + d;
    }
    Some(Impulse { x, y, z })
}

/// The body driven after the switch key, among `count` drivable bodies: the
/// next one, or the first after the last.
pub fn next_target(index: usize, count: usize) -> (r: usize)
    ensures
        r == if index + 1 < count {
            index + 1
        } else {
            0
        },
{
    if count > 0 && index < count - 1 {
        index + 1
    } else {
        0
    }
}

} // verus!
