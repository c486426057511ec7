//! The random draws of the generator, made with `fastrand`.
//!
//! A generator of `fastrand` is its 64-bit state and nothing else:
//! `Rng::with_seed` makes the generator that holds a given state, each draw
//! moves the state on, and `Rng::get_seed` reads it back. So a draw is a
//! function from a state to what was drawn and the state after it, and the
//! library carries the state as a `u64`.

use fastrand::Rng;
use vstd::prelude::*;

verus! {

/// What `Rng::bool` gives on a generator in the given state, and the state
/// that the generator is left in.
pub uninterp spec fn coin(state: u64) -> (bool, u64);

/// What `Rng::i32` gives for the range `0..4` on a generator in the given
/// state, and the state that the generator is left in.
pub uninterp spec fn quarter(state: u64) -> (i32, u64);

/// One `Rng::bool` on the generator that `Rng::with_seed` makes of `state`,
/// with the state that `Rng::get_seed` reads back after the draw.
#[verifier::external_body]
pub(crate) fn toss(state: u64) -> (drawn: (bool, u64))
    ensures
        drawn == coin(state),
{
    let mut rng = Rng::with_seed(state);
    let lit = rng.bool();
    (lit, rng.get_seed())
}

/// One `Rng::i32` for the range `0..4` on the generator that
/// `Rng::with_seed` makes of `state`, with the state that `Rng::get_seed`
/// reads back after the draw. The number drawn lies in the range.
#[verifier::external_body]
pub(crate) fn roll(state: u64) -> (drawn: (i32, u64))
    ensures
        drawn == quarter(state),
        0 <= drawn.0 < 4,
{
    let mut rng = Rng::with_seed(state);
    let turns = rng.i32(0..4);
    (turns, rng.get_seed())
}

/// The state of a generator after `count` draws of `Rng::bool`.
pub open spec fn after_coins(state: u64, count: nat) -> u64
    decreases count,
{
    if count == 0 {
        state
    } else {
        coin(after_coins(state, (count - 1) as nat)).1
    }
}

/// The first `count` draws of `Rng::bool` from a generator.
pub open spec fn coins(state: u64, count: nat) -> Seq<bool> {
    Seq::new(count, |i: int| coin(after_coins(state, i as nat)).0)
}

/// The state of a generator after `count` draws of `Rng::i32` for `0..4`.
pub open spec fn after_quarters(state: u64, count: nat) -> u64
    decreases count,
{
    if count == 0 {
        state
    } else {
        quarter(after_quarters(state, (count - 1) as nat)).1
    }
}

/// The first `count` draws of `Rng::i32` for `0..4` from a generator.
pub open spec fn quarters(state: u64, count: nat) -> Seq<i32> {
    Seq::new(count, |i: int| quarter(after_quarters(state, i as nat)).0)
}

} // verus!
