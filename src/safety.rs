//! Remembering where a character last stood firmly, and bringing it back
//! there when it falls out of the level.

use crate::contact::ContactDetection;
use crate::movement::{Velocity, MILLI};
use vstd::prelude::*;

verus! {

/// Height, in world units, below which a character is out of the level.
pub const OUT_OF_LEVEL_Y: i64 = -80;

/// A position in the world, in thousandths of a world unit.
#[derive(Clone, Copy, Debug, PartialEq, Eq, Structural)]
pub struct Position {
    pub x: i64,
    pub y: i64,
    pub z: i64,
}

/// The last position at which a character stood stable.
#[derive(Clone, Copy, Debug, PartialEq, Eq, Structural)]
pub struct LastSafeSpot {
    pub position: Position,
}

impl LastSafeSpot {
    /// A safe spot at the world origin, for a character that has not stood
    /// anywhere yet.
    pub fn new() -> (s: LastSafeSpot)
        ensures
            s.position == (Position { x: 0, y: 0, z: 0 }),
    {
        LastSafeSpot { position: Position { x: 0, y: 0, z: 0 } }
    }
}

impl Default for LastSafeSpot {
    /// A safe spot at the world origin.
    fn default() -> (s: LastSafeSpot)
        ensures
            s.position == (Position { x: 0, y: 0, z: 0 }),
    {
        LastSafeSpot::new()
    }
}

/// Records `position` as the safe spot when the character stands stable, and
/// leaves the spot as it is otherwise.
pub fn update_safe_spot(detection: &ContactDetection, spot: &mut LastSafeSpot, position: Position)
    ensures
        final(spot).position == if detection.is_stable { position } else { old(spot).position },
{
    if detection.is_stable {
        spot.position = position;
    }
}

/// When the character is below `OUT_OF_LEVEL_Y`, puts it back on its safe
/// spot at rest and returns true; otherwise changes nothing and returns
/// false.
pub fn check_out_of_level(position: &mut Position, velocity: &mut Velocity, spot: &LastSafeSpot) -> (reset: bool)
    ensures
        reset == (old(position).y < OUT_OF_LEVEL_Y * MILLI),
        reset ==> *final(position) == spot.position && *final(velocity) == (Velocity { x: 0, y: 0 }),
        !reset ==> *final(position) == *old(position) && *final(velocity) == *old(velocity),
{
    if position.y < OUT_OF_LEVEL_Y * MILLI {
        *position = spot.position;
        *velocity = Velocity { x: 0, y: 0 };
        true
    } else {
        false
    }
}

} // verus!
