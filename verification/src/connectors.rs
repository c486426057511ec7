//! Sets of directions: the `Direction4Set` of `aglet`, which is a
//! `BitFlags<Direction4>` of `enumflags2`, and the mathematics of turning one.

use crate::compass::{lemma_turn_compose, lemma_turn_full_circle, turned};
use aglet::{BitFlags, Direction4, Direction4Set};
use vstd::prelude::*;

verus! {

/// `enumflags2::BitFlags`, which `aglet` hands on. Nothing inside it is
/// visible here: what a set of directions holds is `connector_set`.
#[verifier::external_type_specification]
#[verifier::external_body]
#[verifier::reject_recursive_types(T)]
#[verifier::reject_recursive_types(N)]
pub struct ExBitFlags<T, N>(BitFlags<T, N>);

/// The directions whose flag is set in `set`.
pub uninterp spec fn connector_set(set: Direction4Set) -> Set<Direction4>;

/// The set of all four directions.
pub open spec fn all_directions() -> Set<Direction4> {
    Set::new(|dir: Direction4| true)
}

/// `set` with each of its directions turned by `steps` quarter turns
/// clockwise: `dir` is in the result where the direction that turns into
/// `dir` is in `set`.
#[verifier::opaque]
pub open spec fn turned_set(set: Set<Direction4>, steps: int) -> Set<Direction4> {
    Set::new(|dir: Direction4| set.contains(turned(dir, -steps)))
}

/// The number whose four lowest bits say which directions `set` holds: 1 for
/// north, 2 for east, 4 for south, 8 for west.
pub open spec fn mask_of(set: Set<Direction4>) -> int {
    (if set.contains(Direction4::North) { 1int } else { 0 })
    + (if set.contains(Direction4::East) { 2int } else { 0 })
    + (if set.contains(Direction4::South) { 4int } else { 0 })
    + (if set.contains(Direction4::West) { 8int } else { 0 })
}

/// `BitFlags::empty`: the set with no flag set.
#[verifier::external_body]
pub(crate) fn no_connectors() -> (set: Direction4Set)
    ensures
        connector_set(set) == Set::<Direction4>::empty(),
{
    Direction4Set::empty()
}

/// `BitFlags::from_flag`: the set that holds the one direction.
#[verifier::external_body]
pub(crate) fn only(dir: Direction4) -> (set: Direction4Set)
    ensures
        connector_set(set) == Set::<Direction4>::empty().insert(dir),
{
    Direction4Set::from_flag(dir)
}

/// `BitFlags::contains`: whether every flag of `other` is set in `set`.
#[verifier::external_body]
pub(crate) fn holds_all(set: Direction4Set, other: Direction4Set) -> (all: bool)
    ensures
        all == connector_set(other).subset_of(connector_set(set)),
{
    set.contains(other)
}

/// `|` on two `BitFlags`: the flags that are set in either.
#[verifier::external_body]
pub(crate) fn joined(set: Direction4Set, other: Direction4Set) -> (both: Direction4Set)
    ensures
        connector_set(both) == connector_set(set).union(connector_set(other)),
{
    set | other
}

/// `BitFlags::bits`: the underlying `u8`, in which `enumflags2` gives the
/// variants of `Direction4` the bits 1, 2, 4 and 8 in the order in which
/// they are declared.
#[verifier::external_body]
pub(crate) fn mask(set: Direction4Set) -> (bits: u8)
    ensures
        bits == mask_of(connector_set(set)),
{
    set.bits()
}

/// Whether `dir` is one of the directions of `set`.
pub fn exposes(set: Direction4Set, dir: Direction4) -> (lit: bool)
    ensures
        lit == connector_set(set).contains(dir),
{
    let single = only(dir);
    let lit = holds_all(set, single);
    proof {
        let one = connector_set(single);
        assert(one.contains(dir));
        assert(lit ==> connector_set(set).contains(dir));
        assert(connector_set(set).contains(dir) ==> one.subset_of(connector_set(set)));
    }
    lit
}

/// A set is told by its mask.
pub proof fn lemma_mask_tells_set(a: Set<Direction4>, b: Set<Direction4>)
    ensures
        0 <= mask_of(a) < 16,
        mask_of(a) == mask_of(b) <==> a == b,
{
    if mask_of(a) == mask_of(b) {
        assert forall|dir: Direction4| a.contains(dir) == b.contains(dir) by {
            match dir {
                Direction4::North => {},
                Direction4::East => {},
                Direction4::South => {},
                Direction4::West => {},
            }
        }
        assert(a =~= b);
    }
}

/// Turning by no steps changes nothing.
pub proof fn lemma_turned_set_zero(set: Set<Direction4>)
    ensures
        turned_set(set, 0) == set,
{
    reveal(turned_set);
    assert forall|dir: Direction4| turned_set(set, 0).contains(dir) == set.contains(dir) by {
        lemma_turn_full_circle(dir, 0);
    }
    assert(turned_set(set, 0) =~= set);
}

/// Turning by `a` and then by `b` is turning by `a + b`.
pub proof fn lemma_turned_set_compose(set: Set<Direction4>, a: int, b: int)
    ensures
        turned_set(turned_set(set, a), b) == turned_set(set, a + b),
{
    reveal(turned_set);
    assert forall|dir: Direction4|
        turned_set(turned_set(set, a), b).contains(dir) == turned_set(set, a + b).contains(
            dir,
        ) by {
        lemma_turn_compose(dir, -b, -a);
    }
    assert(turned_set(turned_set(set, a), b) =~= turned_set(set, a + b));
}

/// Quarter turns act on a set of directions as a group of order four: any
/// turns that add up to a multiple of four bring the set back.
pub proof fn lemma_turned_set_full_circle(set: Set<Direction4>, rounds: int)
    ensures
        turned_set(set, 4 * rounds) == set,
{
    reveal(turned_set);
    assert forall|dir: Direction4|
        turned_set(set, 4 * rounds).contains(dir) == set.contains(dir) by {
        lemma_turn_full_circle(dir, -rounds);
    }
    assert(turned_set(set, 4 * rounds) =~= set);
}

/// Turning by `steps` and then by `-steps` is the identity, in either order.
pub proof fn lemma_turned_set_back(set: Set<Direction4>, steps: int)
    ensures
        turned_set(turned_set(set, steps), -steps) == set,
        turned_set(turned_set(set, -steps), steps) == set,
{
    lemma_turned_set_zero(set);
    lemma_turned_set_compose(set, steps, -steps);
    lemma_turned_set_compose(set, -steps, steps);
}

/// Only the steps modulo four matter.
pub proof fn lemma_turned_set_modulo(set: Set<Direction4>, steps: int)
    ensures
        turned_set(set, steps % 4) == turned_set(set, steps),
{
    reveal(turned_set);
    assert forall|dir: Direction4|
        turned_set(set, steps % 4).contains(dir) == turned_set(set, steps).contains(dir) by {
        assert(turned(dir, -(steps % 4)) == turned(dir, -steps));
    }
    assert(turned_set(set, steps % 4) =~= turned_set(set, steps));
}

} // verus!
