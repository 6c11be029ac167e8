//! The game's random number generator.
//!
//! The generator is `rand_pcg::Pcg32`, and the draws are made by the `rand`
//! crate. What this module says about a draw is taken from the
//! documentation and the source of these crates; it is not proved here.
//! Nothing is said about which of the possible outcomes a draw has.

use vstd::prelude::*;
use rand::Rng;
use rand::seq::{IteratorRandom, SliceRandom};
use crate::spawn::MonsterKind;

verus! {

/// Makes `rand_pcg::Lcg64Xsh32`, which `rand_pcg::Pcg32` is another name
/// of, known as a type. Nothing is said about what a value of it holds.
#[verifier::external_type_specification]
#[verifier::external_body]
pub struct ExPcg32(rand_pcg::Lcg64Xsh32);

/// The single generator that every random choice of the game draws from.
pub struct RuggleRng(pub rand_pcg::Pcg32);

/// Calls `rand::Rng::gen_ratio`, which answers `true` with a chance of
/// `numerator` in `denominator`.
///
/// The call panics on a zero denominator and on a numerator above the
/// denominator, which the requirements rule out. Its answer is certain only
/// at the two ends of the scale: always `true` where the two are equal,
/// always `false` where the numerator is zero.
#[verifier::external_body]
pub(crate) fn gen_ratio(rng: &mut RuggleRng, numerator: u32, denominator: u32) -> (r: bool)
    requires
        denominator > 0,
        numerator <= denominator,
    ensures
        numerator == denominator ==> r,
        numerator == 0 ==> !r,
{
    rng.0.gen_ratio(numerator, denominator)
}

/// Calls `rand::Rng::gen_range`, which draws a number from `low` up to, but
/// not including, `high`.
///
/// The call panics unless `low` is below `high`, which the requirement
/// rules out.
#[verifier::external_body]
pub(crate) fn gen_range(rng: &mut RuggleRng, low: i32, high: i32) -> (r: i32)
    requires
        low < high,
    ensures
        low <= r < high,
{
    rng.0.gen_range(low, high)
}

/// Calls `rand::seq::SliceRandom::choose`, which picks one of `kinds`, and
/// nothing exactly if there is none to pick from.
#[verifier::external_body]
pub(crate) fn choose_kind(rng: &mut RuggleRng, kinds: &Vec<MonsterKind>) -> (r: Option<
    MonsterKind,
>)
    ensures
        r.is_none() <==> kinds.len() == 0,
        r.is_some() ==> kinds@.contains(r.unwrap()),
{
    kinds.choose(&mut rng.0).copied()
}

/// Calls `rand::seq::IteratorRandom::choose_multiple`, which picks `amount`
/// of the `tiles`, or all of them if there are fewer. Each pick is another
/// of the tiles: a tile comes out no more often than it went in.
///
/// The call reserves room for `amount` tiles at once; the requirement keeps
/// that within what can be reserved.
#[verifier::external_body]
pub(crate) fn choose_tiles(rng: &mut RuggleRng, tiles: Vec<(i32, i32)>, amount: usize) -> (r: Vec<
    (i32, i32),
>)
    requires
        amount <= 0xffff,
    ensures
        r.len() == (if amount <= tiles.len() {
            amount
        } else {
            tiles.len()
        }),
        forall|k: int| 0 <= k < r.len() ==> tiles@.contains(#[trigger] r[k]),
        r@.to_multiset().subset_of(tiles@.to_multiset()),
{
    tiles.into_iter().choose_multiple(&mut rng.0, amount)
}

} // verus!
