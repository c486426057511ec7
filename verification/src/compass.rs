//! The four directions, quarter turns and grid coordinates of `aglet`, with
//! what the rest of the library needs to know about them.

use aglet::{Coord, Direction4, Rotation};
use vstd::prelude::*;

verus! {

/// `aglet::Coord`. Verus reads the definition itself: two public `u32`
/// fields, `x` and `y`.
#[verifier::external_type_specification]
pub struct ExCoord(Coord);

/// `aglet::Direction4`. Verus reads the definition itself: the four variants
/// `North`, `East`, `South`, `West`, none of which carries data.
#[verifier::external_type_specification]
pub struct ExDirection4(Direction4);

/// `aglet::Rotation`. Verus reads the definition itself: the two variants
/// `Clockwise` and `CounterClockwise`.
#[verifier::external_type_specification]
pub struct ExRotation(Rotation);

/// Where a direction stands when the four are counted clockwise from north.
pub open spec fn ordinal(dir: Direction4) -> int {
    match dir {
        Direction4::North => 0,
        Direction4::East => 1,
        Direction4::South => 2,
        Direction4::West => 3,
    }
}

/// The direction with the given ordinal; west for anything that is not 0, 1 or 2.
pub open spec fn direction_at(index: int) -> Direction4 {
    if index == 0 {
        Direction4::North
    } else if index == 1 {
        Direction4::East
    } else if index == 2 {
        Direction4::South
    } else {
        Direction4::West
    }
}

/// `dir` after `steps` quarter turns clockwise; a negative `steps` turns
/// counter-clockwise.
pub open spec fn turned(dir: Direction4, steps: int) -> Direction4 {
    direction_at((ordinal(dir) + steps) % 4)
}

/// The direction that faces `dir`.
pub open spec fn opposite(dir: Direction4) -> Direction4 {
    match dir {
        Direction4::North => Direction4::South,
        Direction4::East => Direction4::West,
        Direction4::South => Direction4::North,
        Direction4::West => Direction4::East,
    }
}

/// The quarter turns clockwise that a rotation stands for.
pub open spec fn quarter_turns(rotation: Rotation) -> int {
    match rotation {
        Rotation::Clockwise => 1,
        Rotation::CounterClockwise => -1,
    }
}

/// The coordinate one step from `from` in direction `dir`, where north is
/// towards smaller `y` and west towards smaller `x`. There is none where the
/// step would leave the quadrant of non-negative coordinates.
pub open spec fn step(from: Coord, dir: Direction4) -> Option<Coord> {
    match dir {
        Direction4::North => if from.y > 0 {
            Some(Coord { x: from.x, y: (from.y - 1) as u32 })
        } else {
            None
        },
        Direction4::East => Some(Coord { x: (from.x + 1) as u32, y: from.y }),
        Direction4::South => Some(Coord { x: from.x, y: (from.y + 1) as u32 }),
        Direction4::West => if from.x > 0 {
            Some(Coord { x: (from.x - 1) as u32, y: from.y })
        } else {
            None
        },
    }
}

/// `Direction4::rotate_by` adds the steps to the direction's ordinal as an
/// `i32` and takes the sum modulo 4, rounding towards negative infinity. The
/// sum must not overflow.
pub assume_specification[ Direction4::rotate_by ](dir: Direction4, steps_clockwise: i32) -> (r:
    Direction4)
    requires
        ordinal(dir) + steps_clockwise <= i32::MAX,
    ensures
        r == turned(dir, steps_clockwise as int),
;

/// `Direction4::flip` is a rotation by two steps: north and south change
/// places, and so do east and west.
pub assume_specification[ Direction4::flip ](dir: Direction4) -> (r: Direction4)
    ensures
        r == opposite(dir),
;

/// `Rotation::steps_clockwise` is 1 for `Clockwise` and -1 for
/// `CounterClockwise`.
pub assume_specification[ Rotation::steps_clockwise ](rotation: &Rotation) -> (steps: i32)
    ensures
        steps == quarter_turns(*rotation),
;

/// `Coord::offset4` adds the direction's unit step to the coordinate as
/// `i32` values and gives `None` where a sum is negative. Both parts of the
/// coordinate must lie below `i32::MAX`, so that the sums do not overflow.
pub assume_specification[ Coord::offset4 ](from: Coord, offset: Direction4) -> (r: Option<Coord>)
    requires
        from.x < i32::MAX,
        from.y < i32::MAX,
    ensures
        r == step(from, offset),
;

/// The four directions, counted clockwise from north.
pub fn direction(index: usize) -> (dir: Direction4)
    requires
        index < 4,
    ensures
        dir == direction_at(index as int),
        ordinal(dir) == index,
{
    if index == 0 {
        Direction4::North
    } else if index == 1 {
        Direction4::East
    } else if index == 2 {
        Direction4::South
    } else {
        Direction4::West
    }
}

/// Turning by `a` and then by `b` is turning by `a + b`.
pub proof fn lemma_turn_compose(dir: Direction4, a: int, b: int)
    ensures
        turned(turned(dir, a), b) == turned(dir, a + b),
{
}

/// Turning by a multiple of four steps changes nothing.
pub proof fn lemma_turn_full_circle(dir: Direction4, rounds: int)
    ensures
        turned(dir, 4 * rounds) == dir,
{
}

/// Turning there and back changes nothing.
pub proof fn lemma_turn_back(dir: Direction4, steps: int)
    ensures
        turned(turned(dir, steps), -steps) == dir,
        turned(turned(dir, -steps), steps) == dir,
{
    lemma_turn_compose(dir, steps, -steps);
    lemma_turn_compose(dir, -steps, steps);
}

/// The opposite direction is half a turn away, and its own opposite is the
/// direction again.
pub proof fn lemma_opposite_is_half_turn(dir: Direction4)
    ensures
        opposite(dir) == turned(dir, 2),
        opposite(opposite(dir)) == dir,
        opposite(dir) != dir,
{
}

/// A step that lands somewhere is undone by a step in the opposite direction.
pub proof fn lemma_step_back(from: Coord, dir: Direction4)
    requires
        from.x < u32::MAX,
        from.y < u32::MAX,
    ensures
        step(from, dir) matches Some(to) ==> step(to, opposite(dir)) == Some(from),
{
}

} // verus!
