//! Asteroids: their size and hit points, the outline drawn from their seed,
//! the index lists of their meshes, and what a hit does to them.

use vstd::prelude::*;
use crate::outside::{chacha8_draws, random_u64, seeded_draws};
use crate::world::MapConfig;

verus! {

/// The size class for a roll in 0..16: 1 for 0..=6, 2 for 7..=14, 3 for 15 and 16.
pub open spec fn size_for_roll(roll: int) -> u8 {
    if 0 <= roll <= 6 {
        1
    } else if 7 <= roll <= 14 {
        2
    } else if 15 <= roll <= 16 {
        3
    } else {
        1
    }
}

/// The size class of the asteroid grown from `seed`: the first roll in 0..16
/// of a ChaCha8 generator seeded with it.
pub open spec fn asteroid_size_of(seed: u64) -> u8 {
    size_for_roll(chacha8_draws(seed, 1, 0, 16)[0] as int)
}

/// The size class (1, 2 or 3) of the asteroid grown from `seed`.
pub fn get_asteroid_size(seed: u64) -> (r: u8)
    ensures
        r == asteroid_size_of(seed),
        1 <= r <= 3,
{
    let draws = seeded_draws(seed, 1, 0, 16);
    let roll = draws[0];
    if 0 <= roll && roll <= 6 {
        1
    } else if 7 <= roll && roll <= 14 {
        2
    } else if 15 <= roll && roll <= 16 {
        3
    } else {
        1
    }
}

impl MapConfig {
    /// The hits the asteroid grown from `seed` takes: the configured value for
    /// its size class, read as a `u8`.
    pub fn get_asteroid_hp(&mut self, seed: u64) -> (r: u8)
        ensures
            *final(self) == *old(self),
            r == old(self).asteroid_hp@[asteroid_size_of(seed) - 1] as u8,
    {
        let size = get_asteroid_size(seed);
        let hp = self.asteroid_hp[(size - 1) as usize];
        hp as u8
    }
}

/// The corner `side` of the round sixteen-corner outline every asteroid
/// starts from (before jitter and scaling), going round from the bottom.
pub open spec fn base_corner(side: int) -> (i32, i32) {
    if side <= 2 {
        ((-1 + side) as i32, -3i32)
    } else if side == 3 {
        (2i32, -2i32)
    } else if side <= 6 {
        (3i32, (-1 + (side - 4)) as i32)
    } else if side == 7 {
        (2i32, 2i32)
    } else if side <= 10 {
        ((1 - (side - 8)) as i32, 3i32)
    } else if side == 11 {
        (-2i32, 2i32)
    } else if side <= 14 {
        (-3i32, (1 - (side - 12)) as i32)
    } else {
        (-2i32, -2i32)
    }
}

/// What an asteroid's outline is made of. Corner `i` lies at
/// `(2 * base[i] + jitter[i] / 100) * size` on each axis; the game does that
/// arithmetic in floating point.
pub struct AsteroidOutline {
    pub size: u8,
    /// The sixteen base corners.
    pub base: Vec<(i32, i32)>,
    /// Per corner, the jitter in hundredths on the x and y axis, each in -100..=100.
    pub jitter: Vec<(i32, i32)>,
    /// Line-list indices closing the outline: i to i + 1, 15 to 0.
    pub indices: Vec<u32>,
}

/// The jitter of the corners of the asteroid grown from `seed`: the generator
/// draws three values in -100..101 per corner (x, y, and one that the flat
/// outline drops).
pub open spec fn jitter_of(seed: u64, side: int) -> (i32, i32) {
    let d = chacha8_draws(seed, 48, -100, 101);
    (d[3 * side], d[3 * side + 1])
}

pub open spec fn ring_indices(n: int) -> Seq<u32> {
    Seq::new((2 * n) as nat, |j: int| (if j % 2 == 0 { j / 2 } else { (j / 2 + 1) % n }) as u32)
}

/// The outline of the asteroid grown from `seed` (what `generate_asteroid_vertices`
/// computes, up to the final floating-point arithmetic).
pub fn generate_asteroid_vertices(seed: u64) -> (r: AsteroidOutline)
    ensures
        r.size == asteroid_size_of(seed),
        r.base@ == Seq::new(16, |i: int| base_corner(i)),
        r.jitter@ == Seq::new(16, |i: int| jitter_of(seed, i)),
        r.indices@ == ring_indices(16),
{
    let size = get_asteroid_size(seed);
    let draws = seeded_draws(seed, 48, -100, 101);
    let mut base: Vec<(i32, i32)> = Vec::new();
    let mut jitter: Vec<(i32, i32)> = Vec::new();
    let mut indices: Vec<u32> = Vec::new();
    let sides: u32 = 16;
    let mut side: u32 = 0;
    while side < sides
        invariant
            side <= sides,
            sides == 16,
            draws@ == chacha8_draws(seed, 48, -100, 101),
            draws@.len() == 48,
            base@ == Seq::new(side as nat, |i: int| base_corner(i)),
            jitter@ == Seq::new(side as nat, |i: int| jitter_of(seed, i)),
            indices@ == ring_indices(16).take(2 * side),
        decreases sides - side,
    {
        let corner: (i32, i32) = if side <= 2 {
            (-1 + side as i32, -3)
        } else if side == 3 {
            (2, -2)
        } else if side <= 6 {
            (3, -1 + (side as i32 - 4))
        } else if side == 7 {
            (2, 2)
        } else if side <= 10 {
            (1 - (side as i32 - 8), 3)
        } else if side == 11 {
            (-2, 2)
        } else if side <= 14 {
            (-3, 1 - (side as i32 - 12))
        } else {
            (-2, -2)
        };
        base.push(corner);
        let k = (3 * side) as usize;
        jitter.push((draws[k], draws[k + 1]));
        indices.push(side);
        indices.push((side + 1) % sides);
        assert(base@ =~= Seq::new((side + 1) as nat, |i: int| base_corner(i)));
        assert(jitter@ =~= Seq::new((side + 1) as nat, |i: int| jitter_of(seed, i)));
        assert(indices@ =~= ring_indices(16).take(2 * (side + 1)));
        side = side + 1;
    }
    assert(ring_indices(16).take(32) =~= ring_indices(16));
    AsteroidOutline { size, base, jitter, indices }
}

/// Consecutive pairs of an index list, the way the collider takes them;
/// an odd last index is dropped.
pub open spec fn index_pairs(ind: Seq<u32>) -> Seq<(u32, u32)> {
    Seq::new(ind.len() / 2, |i: int| (ind[2 * i], ind[2 * i + 1]))
}

/// The segments of a line-list index list (the pairing `prepate_for_polyline`
/// does; its conversion of the points is floating-point work left to the game).
pub fn prepate_for_polyline(ind: &Vec<u32>) -> (r: Vec<(u32, u32)>)
    ensures
        r@ == index_pairs(ind@),
{
    let mut indexes: Vec<(u32, u32)> = Vec::new();
    let mut i: usize = 0;
    while i < ind.len()
        invariant
            indexes@ == index_pairs(ind@).take(i as int),
            i <= index_pairs(ind@).len(),
        ensures
            i == index_pairs(ind@).len(),
            indexes@ == index_pairs(ind@).take(i as int),
        decreases ind.len() - i,
    {
        if i * 2 + 1 >= ind.len() {
            break;
        }
        indexes.push((ind[i * 2], ind[i * 2 + 1]));
        assert(indexes@ =~= index_pairs(ind@).take(i + 1));
        i = i + 1;
    }
    assert(index_pairs(ind@).take(i as int) =~= index_pairs(ind@));
    indexes
}

/// The triangles of a fan around a centre point put in front of the outline's
/// points: each segment (a, b) of the line list becomes (0, 1 + a, 1 + b).
pub open spec fn fan_triangles(ind: Seq<u32>) -> Seq<(u32, u32, u32)> {
    Seq::new(ind.len() / 2, |i: int| (0u32, (1 + ind[2 * i]) as u32, (1 + ind[2 * i + 1]) as u32))
}

/// The triangle indices of a solid asteroid mesh whose centre point comes
/// first (the index part of `_prepate_for_trimesh`; moving the points one
/// place up is floating-point work left to the game). Indices must leave
/// room for the shift.
pub fn _prepate_for_trimesh(ind: &Vec<u32>) -> (r: Vec<(u32, u32, u32)>)
    requires
        forall|i: int| 0 <= i < 2 * (ind@.len() / 2) ==> #[trigger] ind@[i] < u32::MAX,
    ensures
        r@ == fan_triangles(ind@),
{
    let mut indexes: Vec<(u32, u32, u32)> = Vec::new();
    let mut i: usize = 0;
    while i < ind.len()
        invariant
            indexes@ == fan_triangles(ind@).take(i as int),
            i <= fan_triangles(ind@).len(),
            forall|j: int| 0 <= j < 2 * (ind@.len() / 2) ==> #[trigger] ind@[j] < u32::MAX,
        ensures
            i == fan_triangles(ind@).len(),
            indexes@ == fan_triangles(ind@).take(i as int),
        decreases ind.len() - i,
    {
        if i * 2 + 1 >= ind.len() {
            break;
        }
        let a = ind[i * 2];
        let b = ind[i * 2 + 1];
        indexes.push((0, 1 + a, 1 + b));
        assert(indexes@ =~= fan_triangles(ind@).take(i + 1));
        i = i + 1;
    }
    assert(fan_triangles(ind@).take(i as int) =~= fan_triangles(ind@));
    indexes
}

/// The triangle-list indices of an asteroid's shadow: after every second
/// index of the outline, the index `center` of the centre point.
pub open spec fn shadow_of(ind: Seq<u32>, center: u32, n: int) -> Seq<u32>
    decreases n,
{
    if n <= 0 {
        Seq::empty()
    } else {
        let prev = shadow_of(ind, center, n - 1).push(ind[n - 1]);
        if n % 2 == 0 {
            prev.push(center)
        } else {
            prev
        }
    }
}

/// The shadow mesh indices of an outline with line-list indices `ind`
/// whose centre point has index `center` (the shadow part of `spawn_asteroid`).
pub fn shadow_indices(ind: &Vec<u32>, center: u32) -> (r: Vec<u32>)
    ensures
        r@ == shadow_of(ind@, center, ind@.len() as int),
{
    let mut out: Vec<u32> = Vec::new();
    let mut i: usize = 0;
    while i < ind.len()
        invariant
            i <= ind.len(),
            out@ == shadow_of(ind@, center, i as int),
        decreases ind.len() - i,
    {
        out.push(ind[i]);
        if (i + 1) % 2 == 0 {
            out.push(center);
        }
        i = i + 1;
    }
    out
}

/// What a bullet does to an asteroid with `hp` hits left: one hit less (never
/// below zero), and whether it breaks.
pub fn asteroid_after_hit(hp: u8) -> (r: (u8, bool))
    ensures
        r.0 == if hp == 0 { 0 } else { hp - 1 },
        r.1 == (r.0 == 0),
{
    let mut hp = hp;
    if hp != 0 {
        hp = hp - 1;
    }
    (hp, hp <= 0)
}

/// The size of the two pieces a broken asteroid of size `size` splits into;
/// the smallest asteroids do not split. Sizes start at 1.
pub fn split_size(size: u8) -> (r: Option<u8>)
    requires
        size >= 1,
    ensures
        r == if size == 1 { None::<u8> } else { Some((size - 1) as u8) },
{
    if size != 1 {
        Some(size - 1)
    } else {
        None
    }
}

/// Draws random seeds until one grows into an asteroid of size `target`
/// (how the pieces of a broken asteroid get their seeds). Gives up with
/// `None` only after `u64::MAX` draws that all missed; as no asteroid has a
/// size outside 1..=3, such a target always gives `None`.
pub fn seed_for_size(target: u8) -> (r: Option<u64>)
    ensures
        r matches Some(seed) ==> asteroid_size_of(seed) == target,
        !(1 <= target <= 3) ==> r is None,
{
    let mut attempts_left: u64 = u64::MAX;
    while attempts_left > 0
        decreases attempts_left,
    {
        let seed = random_u64();
        if get_asteroid_size(seed) == target {
            return Some(seed);
        }
        attempts_left = attempts_left - 1;
    }
    None
}

} // verus!
