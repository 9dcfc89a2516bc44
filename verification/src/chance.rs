//! The game's one decision left to chance: whether a poop scares a baby.
use vstd::prelude::*;

verus! {

/// Calls `macroquad::rand::rand` (`quad_rand::rand`): the next value of the
/// global pseudo-random generator, which may be any `u32`.  Nothing is
/// claimed of the value.
#[verifier::external_body]
fn random_u32() -> (r: u32) {
    macroquad::rand::rand()
}

/// Whether a roll of the random generator scares a baby: every roll that is
/// not a multiple of 4, three rolls in four.
pub fn roll_scares(roll: u32) -> (scared: bool)
    ensures
        scared == (roll % 4 != 0),
{
    !roll.is_multiple_of(4)
}

/// Whether a baby flees from a poop.  Only a baby near a poop on its own
/// platform (`near_poop`) may flee; the generator is rolled only for such a
/// baby, and the roll decides as [`roll_scares`] says.
pub fn baby_flees(near_poop: bool) -> (flees: bool)
    ensures
        !near_poop ==> !flees,
{
    if near_poop {
        let roll = random_u32();
        roll_scares(roll)
    } else {
        false
    }
}

} // verus!
