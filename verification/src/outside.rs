//! The library's contact points with the outside crates: the bevy types that it
//! carries through unread, and the random numbers of `rand` / `rand_chacha`.
//! Everything in this file is trusted: Verus believes the contracts below.

use bevy::ecs::entity::Entity;
use bevy::math::Vec2;
use rand::Rng;
use rand::SeedableRng;
use rand_chacha::ChaCha8Rng;
use vstd::prelude::*;

verus! {

/// bevy's entity handle (`bevy::ecs::entity::Entity`). The library stores it and
/// hands it back; it never looks inside.
#[verifier::external_type_specification]
#[verifier::external_body]
pub struct ExEntity(Entity);

/// bevy's two-component vector (`bevy::math::Vec2`, glam's `Vec2`). The library
/// stores it and hands it back; it never looks inside.
#[verifier::external_type_specification]
#[verifier::external_body]
pub struct ExVec2(Vec2);

/// `Entity::PLACEHOLDER`, the handle bevy reserves for "no entity yet".
/// Nothing is stated of it: the library only stores it.
#[verifier::external_body]
pub(crate) fn placeholder_entity() -> Entity {
    Entity::PLACEHOLDER
}

/// `Vec2::ZERO`. Nothing is stated of it: the library only stores it.
#[verifier::external_body]
pub(crate) fn zero_vec2() -> Vec2 {
    Vec2::ZERO
}

/// The `count` values that a ChaCha8 generator seeded with
/// `ChaCha8Rng::seed_from_u64(seed)` yields, one after the other, from
/// `gen_range(low..high)` on `i32`. A function of its arguments alone: the
/// generator is seeded by them and by nothing else.
pub uninterp spec fn chacha8_draws(seed: u64, count: nat, low: int, high: int) -> Seq<i32>;

/// Seeds `ChaCha8Rng` with `seed_from_u64(seed)` and draws `count` values with
/// `gen_range(low..high)`. Claimed: there are `count` of them, each in
/// `low..high` (rand documents `gen_range` as sampling from the half-open
/// range), and they are the named sequence `chacha8_draws`. `gen_range`
/// panics on an empty range, so `low < high` is required.
#[verifier::external_body]
pub(crate) fn seeded_draws(seed: u64, count: usize, low: i32, high: i32) -> (r: Vec<i32>)
    requires
        low < high,
    ensures
        r@ == chacha8_draws(seed, count as nat, low as int, high as int),
        r@.len() == count,
        forall|i: int| 0 <= i < count ==> low <= #[trigger] r@[i] < high,
{
    let mut rng = ChaCha8Rng::seed_from_u64(seed);
    (0..count).map(|_| rng.gen_range(low..high)).collect()
}

/// `rand::random::<u64>()`, a value from the thread-local generator. Nothing
/// is stated of it: any `u64` may come back.
#[verifier::external_body]
pub(crate) fn random_u64() -> u64 {
    rand::random::<u64>()
}

/// `rand::thread_rng().gen_range(0..bound)`. Claimed: the value lies in
/// `0..bound`; which one is left to chance. The range must not be empty.
#[verifier::external_body]
pub(crate) fn random_below(bound: usize) -> (r: usize)
    requires
        bound > 0,
    ensures
        r < bound,
{
    rand::thread_rng().gen_range(0..bound)
}


} // verus!
