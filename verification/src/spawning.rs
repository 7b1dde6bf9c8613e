//! Where to put something new: the server counts the objects of each real
//! chunk every frame, and a new asteroid or ship goes into the emptiest chunk,
//! preferring chunks away from players.

use bevy::math::Vec2;
use vstd::prelude::*;
use crate::maps::{BevyMap, chunk_tallies};
use crate::outside::random_below;

verus! {

/// A chunk of the map as the tally sees it: column, row.
pub type Cell = (u32, u32);

/// The tally of one chunk: object count, whether a player is among them,
/// and their positions.
pub type Tally = (u32, bool, Vec<Vec2>);

/// The objects on the map, chunk by chunk, as counted in the last frame.
pub struct ObjectsDistribution {
    data: BevyMap<Cell, Tally>,
}

impl View for ObjectsDistribution {
    type V = Map<Cell, Tally>;

    closed spec fn view(&self) -> Map<Cell, Tally> {
        chunk_tallies(self.data)
    }
}

/// Objects counted in chunk `c` (0 when the chunk was never counted).
pub open spec fn count_in(m: Map<Cell, Tally>, c: Cell) -> int {
    if m.dom().contains(c) {
        m[c].0 as int
    } else {
        0
    }
}

/// Whether a player's ship was counted in chunk `c`.
pub open spec fn player_in(m: Map<Cell, Tally>, c: Cell) -> bool {
    m.dom().contains(c) && m[c].1
}

/// Every counted chunk holds at least one object, and one position per object.
pub open spec fn tally_wf(m: Map<Cell, Tally>) -> bool {
    forall|c: Cell| #[trigger] m.dom().contains(c) ==> m[c].0 >= 1 && m[c].2@.len() == m[c].0
}

impl ObjectsDistribution {
    #[verifier::type_invariant]
    closed spec fn counts_match(self) -> bool {
        tally_wf(self@)
    }

    /// Nothing counted yet.
    pub fn new() -> (r: Self)
        ensures
            r@ == Map::<Cell, Tally>::empty(),
            tally_wf(r@),
    {
        let r = ObjectsDistribution { data: BevyMap::new_tallies() };
        assert(r@ =~= Map::empty());
        r
    }

    /// Counts one object at `pos` in chunk `key`; `is_player` tells whether
    /// it is a ship.
    pub fn record(&mut self, key: Cell, is_player: bool, pos: Vec2)
        requires
            count_in(old(self)@, key) < u32::MAX,
        ensures
            final(self)@.dom() == old(self)@.dom().insert(key),
            count_in(final(self)@, key) == count_in(old(self)@, key) + 1,
            player_in(final(self)@, key) == (player_in(old(self)@, key) || is_player),
            final(self)@[key].2@ == if old(self)@.dom().contains(key) {
                old(self)@[key].2@.push(pos)
            } else {
                seq![pos]
            },
            forall|c: Cell| c != key ==> #[trigger] final(self)@.dom().contains(c) ==> final(self)@[c]
                == old(self)@[c],
            tally_wf(final(self)@),
    {
        proof {
            use_type_invariant(&*self);
        }
        let mut data = BevyMap::new_tallies();
        std::mem::swap(&mut data, &mut self.data);
        let ghost before = chunk_tallies(data);
        assert(before == old(self)@);
        let previous = data.remove_tally(key);
        match previous {
            Some(t) => {
                let (n, has_player, mut positions) = t;
                positions.push(pos);
                data.insert_tally(key, (n + 1, is_player || has_player, positions));
            },
            None => {
                let positions = vec![pos];
                data.insert_tally(key, (1, is_player, positions));
            },
        }
        assert(tally_wf(chunk_tallies(data))) by {
            assert forall|c: Cell| #[trigger] chunk_tallies(data).dom().contains(c) implies chunk_tallies(
                data,
            )[c].0 >= 1 && chunk_tallies(data)[c].2@.len() == chunk_tallies(data)[c].0 by {
                if c != key {
                    assert(before.dom().contains(c));
                }
            }
        }
        std::mem::swap(&mut data, &mut self.data);
    }

    /// The tally of chunk `key`, if it was counted.
    pub fn tally(&self, key: Cell) -> (r: Option<&Tally>)
        ensures
            r.is_some() == self@.dom().contains(key),
            r.is_some() ==> *r.unwrap() == self@[key],
    {
        self.data.get_tally(key)
    }
}

/// The chunk `c - (dx, dy)`, wrapped onto the map.
pub open spec fn wrap_cell(c: Cell, dx: int, dy: int, size: (u32, u32)) -> Cell {
    (((c.0 - dx) % size.0 as int) as u32, ((c.1 - dy) % size.1 as int) as u32)
}

/// Whether chunk `c` is one of the eight chunks around a chunk (other than
/// `c` itself) where a player was counted.
pub open spec fn near_player(m: Map<Cell, Tally>, size: (u32, u32), c: Cell) -> bool {
    exists|dx: int, dy: int|
        -1 <= dx <= 1 && -1 <= dy <= 1 && wrap_cell(c, dx, dy, size) != c && #[trigger] player_in(
            m,
            wrap_cell(c, dx, dy, size),
        )
}

/// Spawn preference class of a chunk: 0 away from players, 1 next to a
/// player, 2 with a player in it.
pub open spec fn class_of(m: Map<Cell, Tally>, size: (u32, u32), c: Cell) -> u8 {
    if player_in(m, c) {
        2
    } else if near_player(m, size, c) {
        1
    } else {
        0
    }
}

pub open spec fn in_scope(m: Map<Cell, Tally>, size: (u32, u32), scope: Option<u8>, c: Cell) -> bool {
    match scope {
        None => true,
        Some(k) => class_of(m, size, c) == k,
    }
}

/// The `k`-th chunk of the map, column by column.
pub open spec fn grid_cell(size: (u32, u32), k: int) -> Cell {
    ((k / size.1 as int) as u32, (k % size.1 as int) as u32)
}

pub open spec fn cell_total(size: (u32, u32)) -> int {
    size.0 as int * size.1 as int
}

/// The smallest count among the first `k` chunks in `scope`, if there is one.
pub open spec fn scoped_min(m: Map<Cell, Tally>, size: (u32, u32), scope: Option<u8>, k: int) -> Option<int>
    decreases k,
{
    if k <= 0 {
        None
    } else {
        let prev = scoped_min(m, size, scope, k - 1);
        let c = grid_cell(size, k - 1);
        if !in_scope(m, size, scope, c) {
            prev
        } else {
            match prev {
                None => Some(count_in(m, c)),
                Some(v) => Some(if count_in(m, c) < v { count_in(m, c) } else { v }),
            }
        }
    }
}

/// The chunks among the first `k` that are in `scope` and hold `target` objects, in grid order.
pub open spec fn picked_cells(
    m: Map<Cell, Tally>,
    size: (u32, u32),
    scope: Option<u8>,
    target: int,
    k: int,
) -> Seq<Cell>
    decreases k,
{
    if k <= 0 {
        Seq::empty()
    } else {
        let prev = picked_cells(m, size, scope, target, k - 1);
        let c = grid_cell(size, k - 1);
        if in_scope(m, size, scope, c) && count_in(m, c) == target {
            prev.push(c)
        } else {
            prev
        }
    }
}

/// The class the spawn goes to: the first of "away", "next to a player",
/// "with a player" that has any chunk.
pub open spec fn chosen_class(m: Map<Cell, Tally>, size: (u32, u32)) -> u8 {
    if scoped_min(m, size, Some(0u8), cell_total(size)) is Some {
        0
    } else if scoped_min(m, size, Some(1u8), cell_total(size)) is Some {
        1
    } else {
        2
    }
}

/// The chunks a spawn may go to, and whether they are empty. When some chunk
/// of the map holds nothing, those chunks; otherwise the chunks of the
/// chosen class that hold the fewest objects of that class.
pub open spec fn spawn_candidates_of(m: Map<Cell, Tally>, size: (u32, u32)) -> (Seq<Cell>, bool) {
    let n = cell_total(size);
    if scoped_min(m, size, None, n) == Some(0int) {
        (picked_cells(m, size, None, 0, n), true)
    } else {
        let class = chosen_class(m, size);
        let fewest = scoped_min(m, size, Some(class), n)->0;
        (picked_cells(m, size, Some(class), fewest, n), false)
    }
}

proof fn lemma_grid_cell(size: (u32, u32), x: int, y: int)
    requires
        size.1 > 0,
        0 <= x < size.0,
        0 <= y < size.1,
    ensures
        0 <= x * size.1 + y < cell_total(size),
        grid_cell(size, x * size.1 + y) == (x as u32, y as u32),
{
    let h = size.1 as int;
    let k = x * h + y;
    assert(k / h == x && k % h == y) by (nonlinear_arith)
        requires
            k == x * h + y,
            0 <= y < h,
            0 <= x,
    ;
    assert(0 <= k < size.0 as int * h) by (nonlinear_arith)
        requires
            k == x * h + y,
            0 <= y < h,
            0 <= x < size.0,
    ;
}

fn count_at(dist: &ObjectsDistribution, c: Cell) -> (r: u32)
    ensures
        r as int == count_in(dist@, c),
{
    match dist.tally(c) {
        Some(t) => t.0,
        None => 0,
    }
}

fn player_at(dist: &ObjectsDistribution, c: Cell) -> (r: bool)
    ensures
        r == player_in(dist@, c),
{
    match dist.tally(c) {
        Some(t) => t.1,
        None => false,
    }
}

fn shifted(c: u32, d: i64, n: u32) -> (r: u32)
    requires
        n > 0,
        c < n,
        -1 <= d <= 1,
    ensures
        r as int == (c - d) % n as int,
{
    crate::world::wrap_chunk(c as i64 - d, n) as u32
}

fn player_around(dist: &ObjectsDistribution, size: (u32, u32), c: Cell, dx: i64, dy: i64) -> (r: bool)
    requires
        size.0 > 0 && size.1 > 0,
        c.0 < size.0 && c.1 < size.1,
        -1 <= dx <= 1 && -1 <= dy <= 1,
    ensures
        r == (wrap_cell(c, dx as int, dy as int, size) != c && player_in(
            dist@,
            wrap_cell(c, dx as int, dy as int, size),
        )),
{
    let p = (shifted(c.0, dx, size.0), shifted(c.1, dy, size.1));
    assert(p == wrap_cell(c, dx as int, dy as int, size));
    !(p.0 == c.0 && p.1 == c.1) && player_at(dist, p)
}

fn near_player_at(dist: &ObjectsDistribution, size: (u32, u32), c: Cell) -> (r: bool)
    requires
        size.0 > 0 && size.1 > 0,
        c.0 < size.0 && c.1 < size.1,
    ensures
        r == near_player(dist@, size, c),
{
    let mut dx: i64 = -1;
    while dx <= 1
        invariant
            -1 <= dx <= 2,
            size.0 > 0 && size.1 > 0,
            c.0 < size.0 && c.1 < size.1,
            forall|ex: int, ey: int|
                -1 <= ex < dx && -1 <= ey <= 1 ==> !(wrap_cell(c, ex, ey, size) != c && #[trigger] player_in(
                    dist@,
                    wrap_cell(c, ex, ey, size),
                )),
        decreases 2 - dx,
    {
        let mut dy: i64 = -1;
        while dy <= 1
            invariant
                -1 <= dx <= 1,
                -1 <= dy <= 2,
                size.0 > 0 && size.1 > 0,
                c.0 < size.0 && c.1 < size.1,
                forall|ex: int, ey: int|
                    (-1 <= ex < dx && -1 <= ey <= 1) || (ex == dx && -1 <= ey < dy) ==> !(wrap_cell(
                        c,
                        ex,
                        ey,
                        size,
                    ) != c && #[trigger] player_in(dist@, wrap_cell(c, ex, ey, size))),
            decreases 2 - dy,
        {
            if player_around(dist, size, c, dx, dy) {
                return true;
            }
            dy = dy + 1;
        }
        dx = dx + 1;
    }
    false
}

fn class_at(dist: &ObjectsDistribution, size: (u32, u32), c: Cell) -> (r: u8)
    requires
        size.0 > 0 && size.1 > 0,
        c.0 < size.0 && c.1 < size.1,
    ensures
        r == class_of(dist@, size, c),
{
    if player_at(dist, c) {
        2
    } else if near_player_at(dist, size, c) {
        1
    } else {
        0
    }
}

fn in_scope_at(dist: &ObjectsDistribution, size: (u32, u32), scope: Option<u8>, c: Cell) -> (r: bool)
    requires
        size.0 > 0 && size.1 > 0,
        c.0 < size.0 && c.1 < size.1,
    ensures
        r == in_scope(dist@, size, scope, c),
{
    match scope {
        None => true,
        Some(k) => class_at(dist, size, c) == k,
    }
}

fn min_in_scope(dist: &ObjectsDistribution, size: (u32, u32), scope: Option<u8>) -> (r: Option<u32>)
    requires
        size.0 > 0 && size.1 > 0,
    ensures
        match r {
            Some(v) => scoped_min(dist@, size, scope, cell_total(size)) == Some(v as int),
            None => scoped_min(dist@, size, scope, cell_total(size)) is None,
        },
{
    let mut best: Option<u32> = None;
    let mut x: u32 = 0;
    while x < size.0
        invariant
            x <= size.0,
            size.0 > 0 && size.1 > 0,
            match best {
                Some(v) => scoped_min(dist@, size, scope, x * size.1) == Some(v as int),
                None => scoped_min(dist@, size, scope, x * size.1) is None,
            },
        decreases size.0 - x,
    {
        let mut y: u32 = 0;
        while y < size.1
            invariant
                x < size.0,
                y <= size.1,
                size.0 > 0 && size.1 > 0,
                match best {
                    Some(v) => scoped_min(dist@, size, scope, x * size.1 + y) == Some(v as int),
                    None => scoped_min(dist@, size, scope, x * size.1 + y) is None,
                },
            decreases size.1 - y,
        {
            proof {
                lemma_grid_cell(size, x as int, y as int);
            }
            let c = (x, y);
            if in_scope_at(dist, size, scope, c) {
                let n = count_at(dist, c);
                best = match best {
                    None => Some(n),
                    Some(v) => Some(if n < v { n } else { v }),
                };
            }
            y = y + 1;
        }
        assert(x * size.1 + size.1 == (x + 1) * size.1) by (nonlinear_arith);
        x = x + 1;
    }
    best
}

fn pick_in_scope(dist: &ObjectsDistribution, size: (u32, u32), scope: Option<u8>, target: u32) -> (r: Vec<Cell>)
    requires
        size.0 > 0 && size.1 > 0,
    ensures
        r@ == picked_cells(dist@, size, scope, target as int, cell_total(size)),
{
    let mut out: Vec<Cell> = Vec::new();
    let mut x: u32 = 0;
    while x < size.0
        invariant
            x <= size.0,
            size.0 > 0 && size.1 > 0,
            out@ == picked_cells(dist@, size, scope, target as int, x * size.1),
        decreases size.0 - x,
    {
        let mut y: u32 = 0;
        while y < size.1
            invariant
                x < size.0,
                y <= size.1,
                size.0 > 0 && size.1 > 0,
                out@ == picked_cells(dist@, size, scope, target as int, x * size.1 + y),
            decreases size.1 - y,
        {
            proof {
                lemma_grid_cell(size, x as int, y as int);
            }
            let c = (x, y);
            if in_scope_at(dist, size, scope, c) && count_at(dist, c) == target {
                out.push(c);
            }
            y = y + 1;
        }
        assert(x * size.1 + size.1 == (x + 1) * size.1) by (nonlinear_arith);
        x = x + 1;
    }
    out
}

proof fn lemma_min_is_picked(m: Map<Cell, Tally>, size: (u32, u32), scope: Option<u8>, k: int)
    requires
        scoped_min(m, size, scope, k) is Some,
    ensures
        picked_cells(m, size, scope, scoped_min(m, size, scope, k)->0, k).len() > 0,
    decreases k,
{
    let v = scoped_min(m, size, scope, k)->0;
    let prev = scoped_min(m, size, scope, k - 1);
    let c = grid_cell(size, k - 1);
    if in_scope(m, size, scope, c) && count_in(m, c) == v {
    } else {
        assert(prev == Some(v));
        lemma_min_is_picked(m, size, scope, k - 1);
        lemma_picked_grows(m, size, scope, v, k - 1);
    }
}

proof fn lemma_picked_grows(m: Map<Cell, Tally>, size: (u32, u32), scope: Option<u8>, target: int, k: int)
    ensures
        picked_cells(m, size, scope, target, k).len() <= picked_cells(m, size, scope, target, k + 1).len(),
{
}

/// The chunks a new object may go to (the choice `get_pos_to_spawn` makes
/// before it picks a point), and whether they are empty chunks. There is
/// always at least one.
pub fn spawn_candidates(dist: &ObjectsDistribution, size: (u32, u32)) -> (r: (Vec<Cell>, bool))
    requires
        size.0 > 0 && size.1 > 0,
    ensures
        (r.0@, r.1) == spawn_candidates_of(dist@, size),
        r.0@.len() > 0,
        forall|t: int| 0 <= t < r.0@.len() ==> on_grid(#[trigger] r.0@[t], size),
        r.1 ==> forall|t: int| 0 <= t < r.0@.len() ==> !dist@.dom().contains(#[trigger] r.0@[t]),
        forall|t: int|
            0 <= t < r.0@.len() && player_in(dist@, #[trigger] r.0@[t]) ==> forall|d: Cell|
                on_grid(d, size) ==> #[trigger] player_in(dist@, d),
{
    proof {
        use_type_invariant(dist);
    }
    let r = spawn_candidates_exact(dist, size);
    proof {
        assert forall|t: int| 0 <= t < r.0@.len() && player_in(dist@, #[trigger] r.0@[t]) implies forall|d: Cell|
            on_grid(d, size) ==> #[trigger] player_in(dist@, d) by {
            assert(spawn_candidates_of(dist@, size).0.contains(r.0@[t]));
            law_players_chunks_come_last(dist@, size, r.0@[t]);
        }
        assert forall|t: int| 0 <= t < r.0@.len() implies on_grid(#[trigger] r.0@[t], size) && (r.1
            ==> !dist@.dom().contains(r.0@[t])) by {
            assert(spawn_candidates_of(dist@, size).0.contains(r.0@[t]));
            law_spawn_goes_to_fewest(dist@, size, r.0@[t]);
        }
    }
    r
}

fn spawn_candidates_exact(dist: &ObjectsDistribution, size: (u32, u32)) -> (r: (Vec<Cell>, bool))
    requires
        size.0 > 0 && size.1 > 0,
    ensures
        (r.0@, r.1) == spawn_candidates_of(dist@, size),
        r.0@.len() > 0,
{
    let all = min_in_scope(dist, size, None);
    proof {
        lemma_grid_cell(size, 0, 0);
    }
    let overall = all.unwrap();
    if overall == 0 {
        proof {
            lemma_min_is_picked(dist@, size, None, cell_total(size));
        }
        return (pick_in_scope(dist, size, None, 0), true);
    }
    let away = min_in_scope(dist, size, Some(0));
    let near = min_in_scope(dist, size, Some(1));
    let with = min_in_scope(dist, size, Some(2));
    let class: u8 = if away.is_some() {
        0
    } else if near.is_some() {
        1
    } else {
        2
    };
    assert(class == chosen_class(dist@, size));
    let fewest = if class == 0 {
        away
    } else if class == 1 {
        near
    } else {
        with
    };
    proof {
        if fewest is None {
            lemma_some_class_nonempty(dist@, size, cell_total(size));
        }
    }
    let target = fewest.unwrap();
    proof {
        lemma_min_is_picked(dist@, size, Some(class), cell_total(size));
    }
    (pick_in_scope(dist, size, Some(class), target), false)
}

proof fn lemma_some_class_nonempty(m: Map<Cell, Tally>, size: (u32, u32), k: int)
    requires
        scoped_min(m, size, None, k) is Some,
    ensures
        scoped_min(m, size, Some(0u8), k) is Some || scoped_min(m, size, Some(1u8), k) is Some
            || scoped_min(m, size, Some(2u8), k) is Some,
    decreases k,
{
    let c = grid_cell(size, k - 1);
    if scoped_min(m, size, None, k - 1) is Some {
        lemma_some_class_nonempty(m, size, k - 1);
    }
    assert(class_of(m, size, c) == 0 || class_of(m, size, c) == 1 || class_of(m, size, c) == 2);
}

/// Picks the chunk a new object goes to: one of `spawn_candidates`, chosen
/// at random. Which one is left to chance.
pub fn choose_spawn_chunk(dist: &ObjectsDistribution, size: (u32, u32)) -> (r: (Cell, bool))
    requires
        size.0 > 0 && size.1 > 0,
    ensures
        spawn_candidates_of(dist@, size).0.contains(r.0),
        r.1 == spawn_candidates_of(dist@, size).1,
        on_grid(r.0, size),
        r.1 ==> !dist@.dom().contains(r.0),
{
    let (cells, empty) = spawn_candidates(dist, size);
    let i = random_below(cells.len());
    (cells[i], empty)
}

/// Whether chunk `c` lies on a map of `size` chunks.
pub open spec fn on_grid(c: Cell, size: (u32, u32)) -> bool {
    c.0 < size.0 && c.1 < size.1
}

proof fn lemma_grid_cell_on_map(size: (u32, u32), j: int)
    requires
        size.0 > 0 && size.1 > 0,
        0 <= j < cell_total(size),
    ensures
        on_grid(grid_cell(size, j), size),
        grid_cell(size, j).0 as int == j / size.1 as int,
        grid_cell(size, j).1 as int == j % size.1 as int,
{
    let h = size.1 as int;
    let w = size.0 as int;
    assert(0 <= j / h < w && 0 <= j % h < h) by (nonlinear_arith)
        requires
            0 <= j < w * h,
            h > 0,
            w > 0,
    ;
}

proof fn lemma_scoped_min_bounds(m: Map<Cell, Tally>, size: (u32, u32), scope: Option<u8>, k: int)
    ensures
        match scoped_min(m, size, scope, k) {
            Some(v) => {
                &&& forall|j: int|
                    0 <= j < k && in_scope(m, size, scope, #[trigger] grid_cell(size, j)) ==> v
                        <= count_in(m, grid_cell(size, j))
                &&& exists|j: int|
                    0 <= j < k && in_scope(m, size, scope, #[trigger] grid_cell(size, j)) && v
                        == count_in(m, grid_cell(size, j))
            },
            None => forall|j: int|
                0 <= j < k ==> !in_scope(m, size, scope, #[trigger] grid_cell(size, j)),
        },
    decreases k,
{
    if k > 0 {
        lemma_scoped_min_bounds(m, size, scope, k - 1);
        let c = grid_cell(size, k - 1);
        let prev = scoped_min(m, size, scope, k - 1);
        if in_scope(m, size, scope, c) {
            match prev {
                Some(v) => {
                    let j0 = choose|j: int|
                        0 <= j < k - 1 && in_scope(m, size, scope, #[trigger] grid_cell(size, j)) && v
                            == count_in(m, grid_cell(size, j));
                    if count_in(m, c) < v {
                        assert(in_scope(m, size, scope, grid_cell(size, k - 1)));
                    } else {
                        assert(in_scope(m, size, scope, grid_cell(size, j0)));
                    }
                },
                None => {
                    assert(in_scope(m, size, scope, grid_cell(size, k - 1)));
                },
            }
        }
    }
}

proof fn lemma_picked_cells_facts(
    m: Map<Cell, Tally>,
    size: (u32, u32),
    scope: Option<u8>,
    target: int,
    k: int,
    c: Cell,
)
    requires
        picked_cells(m, size, scope, target, k).contains(c),
    ensures
        exists|j: int| 0 <= j < k && #[trigger] grid_cell(size, j) == c,
        in_scope(m, size, scope, c),
        count_in(m, c) == target,
    decreases k,
{
    let prev = picked_cells(m, size, scope, target, k - 1);
    let g = grid_cell(size, k - 1);
    if in_scope(m, size, scope, g) && count_in(m, g) == target {
        let i = choose|i: int| 0 <= i < prev.push(g).len() && #[trigger] prev.push(g)[i] == c;
        if i < prev.len() {
            assert(prev[i] == c);
            lemma_picked_cells_facts(m, size, scope, target, k - 1, c);
        } else {
            assert(grid_cell(size, k - 1) == c);
        }
    } else {
        lemma_picked_cells_facts(m, size, scope, target, k - 1, c);
    }
}

/// A new object goes where the fewest objects are. When some chunk of the
/// map is empty, it goes to an empty chunk (and the flag says so exactly
/// then); with a tally that counts at least one object in every chunk it
/// holds, as the library's tallies do, that is a chunk never counted. Otherwise the preferred class of chunks is the first of "away from
/// players", "next to a player", "with a player" that has any chunk, and it
/// goes to a chunk of that class holding no more objects than any other chunk
/// of that class.
pub proof fn law_spawn_goes_to_fewest(m: Map<Cell, Tally>, size: (u32, u32), c: Cell)
    requires
        size.0 > 0 && size.1 > 0,
        spawn_candidates_of(m, size).0.contains(c),
    ensures
        on_grid(c, size),
        spawn_candidates_of(m, size).1 <==> exists|d: Cell|
            on_grid(d, size) && #[trigger] count_in(m, d) == 0,
        spawn_candidates_of(m, size).1 ==> count_in(m, c) == 0,
        spawn_candidates_of(m, size).1 && tally_wf(m) ==> !m.dom().contains(c),
        !spawn_candidates_of(m, size).1 ==> {
            &&& class_of(m, size, c) == chosen_class(m, size)
            &&& forall|d: Cell|
                on_grid(d, size) ==> class_of(m, size, d) >= chosen_class(m, size)
            &&& forall|d: Cell|
                on_grid(d, size) && class_of(m, size, d) == class_of(m, size, c) ==> count_in(m, c)
                    <= #[trigger] count_in(m, d)
        },
{
    let n = cell_total(size);
    lemma_scoped_min_bounds(m, size, None, n);
    lemma_scoped_min_bounds(m, size, Some(0u8), n);
    lemma_scoped_min_bounds(m, size, Some(1u8), n);
    lemma_scoped_min_bounds(m, size, Some(2u8), n);
    assert forall|d: Cell| on_grid(d, size) implies grid_cell(size, d.0 * size.1 + d.1) == d
        && 0 <= d.0 * size.1 + d.1 < n by {
        lemma_grid_cell(size, d.0 as int, d.1 as int);
    }
    let empty = scoped_min(m, size, None, n) == Some(0int);
    if empty {
        lemma_picked_cells_facts(m, size, None, 0, n, c);
        let j = choose|j: int| 0 <= j < n && #[trigger] grid_cell(size, j) == c;
        lemma_grid_cell_on_map(size, j);
    } else {
        let class = chosen_class(m, size);
        let fewest = scoped_min(m, size, Some(class), n)->0;
        lemma_picked_cells_facts(m, size, Some(class), fewest, n, c);
        let j = choose|j: int| 0 <= j < n && #[trigger] grid_cell(size, j) == c;
        lemma_grid_cell_on_map(size, j);
        assert forall|d: Cell| on_grid(d, size) implies #[trigger] count_in(m, d) != 0 by {
            let jd = d.0 * size.1 + d.1;
            assert(grid_cell(size, jd) == d);
            assert(in_scope(m, size, None, grid_cell(size, jd)));
            match scoped_min(m, size, None, n) {
                Some(v) => {
                    let j0 = choose|j: int|
                        0 <= j < n && in_scope(m, size, None, #[trigger] grid_cell(size, j)) && v
                            == count_in(m, grid_cell(size, j));
                    assert(v >= 0);
                },
                None => {},
            }
        }
        assert forall|d: Cell| on_grid(d, size) implies class_of(m, size, d) >= chosen_class(m, size) by {
            let jd = d.0 * size.1 + d.1;
            assert(grid_cell(size, jd) == d);
            let k = class_of(m, size, d);
            assert(in_scope(m, size, Some(k), grid_cell(size, jd)));
        }
        assert forall|d: Cell|
            on_grid(d, size) && class_of(m, size, d) == class_of(m, size, c) implies count_in(m, c)
            <= #[trigger] count_in(m, d) by {
            let jd = d.0 * size.1 + d.1;
            assert(grid_cell(size, jd) == d);
            assert(in_scope(m, size, Some(class), grid_cell(size, jd)));
        }
    }
}

/// Chunks with a player are the last choice: a spawn goes to a chunk where a
/// player was counted only when a player was counted in every chunk of the
/// map. Among chunks that are not empty, it goes next to a player only when
/// every chunk of the map holds a player or lies next to one.
pub proof fn law_players_chunks_come_last(m: Map<Cell, Tally>, size: (u32, u32), c: Cell)
    requires
        size.0 > 0 && size.1 > 0,
        tally_wf(m),
        spawn_candidates_of(m, size).0.contains(c),
    ensures
        player_in(m, c) ==> forall|d: Cell| on_grid(d, size) ==> #[trigger] player_in(m, d),
        !spawn_candidates_of(m, size).1 && near_player(m, size, c) ==> forall|d: Cell|
            on_grid(d, size) ==> #[trigger] player_in(m, d) || near_player(m, size, d),
{
    law_spawn_goes_to_fewest(m, size, c);
    if spawn_candidates_of(m, size).1 {
        assert(!m.dom().contains(c));
    } else {
        assert forall|d: Cell| on_grid(d, size) implies class_of(m, size, d) >= chosen_class(m, size) by {}
        if player_in(m, c) {
            assert(chosen_class(m, size) == 2);
            assert forall|d: Cell| on_grid(d, size) implies #[trigger] player_in(m, d) by {
                assert(class_of(m, size, d) >= 2);
            }
        }
        if near_player(m, size, c) {
            assert(chosen_class(m, size) >= 1);
            assert forall|d: Cell| on_grid(d, size) implies #[trigger] player_in(m, d) || near_player(
                m,
                size,
                d,
            ) by {
                assert(class_of(m, size, d) >= 1);
            }
        }
    }
}

} // verus!
