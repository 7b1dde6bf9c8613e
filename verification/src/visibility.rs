//! What the server tells each client: the objects of the real chunks around
//! the client's ship.

use vstd::prelude::*;
use crate::spawning::Cell;
use crate::world::{ChunkPos, real_chunk, valid_size};

verus! {

/// The real chunks of the 3 x 3 chunks centred on `center`, column by column.
pub open spec fn neighbourhood(center: ChunkPos, size: (u32, u32)) -> Seq<Cell> {
    Seq::new(
        9,
        |k: int|
            {
                let c = real_chunk(
                    ((center.0 + k / 3 - 1) as i64, (center.1 + k % 3 - 1) as i64),
                    size,
                );
                (c.0 as u32, c.1 as u32)
            },
    )
}

/// The first `n` entries of `s`, each kept only at its first occurrence.
pub open spec fn first_occurrences(s: Seq<Cell>, n: int) -> Seq<Cell>
    decreases n,
{
    if n <= 0 {
        Seq::empty()
    } else {
        let prev = first_occurrences(s, n - 1);
        if prev.contains(s[n - 1]) {
            prev
        } else {
            prev.push(s[n - 1])
        }
    }
}

fn has_cell(v: &Vec<Cell>, c: Cell) -> (r: bool)
    ensures
        r == v@.contains(c),
{
    let mut k: usize = 0;
    while k < v.len()
        invariant
            k <= v.len(),
            forall|j: int| 0 <= j < k ==> v@[j] != c,
        decreases v.len() - k,
    {
        if v[k].0 == c.0 && v[k].1 == c.1 {
            assert(v@[k as int] == c);
            return true;
        }
        k = k + 1;
    }
    false
}

/// The real chunks whose objects go to a client whose ship is in chunk
/// `center`: the 3 x 3 chunks around it, wrapped onto the map, each once
/// (on a small map several of them wrap onto the same chunk).
pub fn visible_real_chunks(center: ChunkPos, size: (u32, u32)) -> (r: Vec<Cell>)
    requires
        valid_size(size),
        i64::MIN < center.0 < i64::MAX,
        i64::MIN < center.1 < i64::MAX,
    ensures
        r@ == first_occurrences(neighbourhood(center, size), 9),
        r@.no_duplicates(),
        forall|dx: int, dy: int|
            -1 <= dx <= 1 && -1 <= dy <= 1 ==> r@.contains(#[trigger] around_cell(center, dx, dy, size)),
        forall|c: Cell|
            #[trigger] r@.contains(c) ==> exists|dx: int, dy: int|
                -1 <= dx <= 1 && -1 <= dy <= 1 && c == #[trigger] around_cell(center, dx, dy, size),
{
    proof {
        law_sends_the_chunks_around_the_ship(center, size);
        law_visible_chunks_exact(center, size);
    }
    let mut out: Vec<Cell> = Vec::new();
    let mut dx: i64 = -1;
    while dx < 2
        invariant
            -1 <= dx <= 2,
            valid_size(size),
            i64::MIN < center.0 < i64::MAX,
            i64::MIN < center.1 < i64::MAX,
            out@ == first_occurrences(neighbourhood(center, size), 3 * (dx + 1)),
        decreases 2 - dx,
    {
        let mut dy: i64 = -1;
        while dy < 2
            invariant
                -1 <= dx < 2,
                -1 <= dy <= 2,
                valid_size(size),
                i64::MIN < center.0 < i64::MAX,
                i64::MIN < center.1 < i64::MAX,
                out@ == first_occurrences(neighbourhood(center, size), 3 * (dx + 1) + (dy + 1)),
            decreases 2 - dy,
        {
            let x = crate::world::wrap_chunk(center.0 + dx, size.0);
            let y = crate::world::wrap_chunk(center.1 + dy, size.1);
            let c = (x as u32, y as u32);
            let ghost k = 3 * (dx + 1) + (dy + 1);
            assert(k / 3 == dx + 1 && k % 3 == dy + 1);
            assert(neighbourhood(center, size)[k] == c);
            if !has_cell(&out, c) {
                out.push(c);
            }
            dy = dy + 1;
        }
        dx = dx + 1;
    }
    out
}

/// Whether an object goes to the client: everything but the ships of dead
/// players, except that a player always gets their own ship.
pub fn should_send(is_ship: bool, ship_dead: bool, is_receivers_ship: bool) -> (r: bool)
    ensures
        r == (!is_ship || !ship_dead || is_receivers_ship),
{
    if is_ship {
        !ship_dead || is_receivers_ship
    } else {
        true
    }
}

proof fn lemma_take_contains(s: Seq<Cell>, n: int, c: Cell)
    requires
        0 < n <= s.len(),
    ensures
        s.take(n).contains(c) <==> (s.take(n - 1).contains(c) || s[n - 1] == c),
{
    if s.take(n).contains(c) {
        let j = choose|j: int| 0 <= j < n && #[trigger] s.take(n)[j] == c;
        if j < n - 1 {
            assert(s.take(n - 1)[j] == c);
        }
    }
    if s.take(n - 1).contains(c) {
        let j = choose|j: int| 0 <= j < n - 1 && #[trigger] s.take(n - 1)[j] == c;
        assert(s.take(n)[j] == c);
    }
    if s[n - 1] == c {
        assert(s.take(n)[n - 1] == c);
    }
}

proof fn lemma_push_contains(p: Seq<Cell>, x: Cell, c: Cell)
    ensures
        p.push(x).contains(c) <==> (p.contains(c) || x == c),
{
    if p.push(x).contains(c) {
        let j = choose|j: int| 0 <= j < p.len() + 1 && #[trigger] p.push(x)[j] == c;
        if j < p.len() {
            assert(p[j] == c);
        }
    }
    if p.contains(c) {
        let j = choose|j: int| 0 <= j < p.len() && #[trigger] p[j] == c;
        assert(p.push(x)[j] == c);
    }
    if x == c {
        assert(p.push(x)[p.len() as int] == c);
    }
}

proof fn lemma_first_occurrences(s: Seq<Cell>, n: int)
    requires
        0 <= n <= s.len(),
    ensures
        first_occurrences(s, n).no_duplicates(),
        forall|c: Cell| first_occurrences(s, n).contains(c) <==> s.take(n).contains(c),
    decreases n,
{
    if n > 0 {
        lemma_first_occurrences(s, n - 1);
        let prev = first_occurrences(s, n - 1);
        let x = s[n - 1];
        assert forall|c: Cell| first_occurrences(s, n).contains(c) <==> s.take(n).contains(c) by {
            lemma_take_contains(s, n, c);
            lemma_push_contains(prev, x, c);
        }
        if !prev.contains(x) {
            assert forall|i: int, j: int|
                0 <= i < j < prev.push(x).len() implies prev.push(x)[i] != prev.push(x)[j] by {
                if j == prev.len() {
                    assert(prev[i] == prev.push(x)[i]);
                }
            }
        }
    } else {
        assert(s.take(0) =~= Seq::<Cell>::empty());
    }
}

/// A client gets every real chunk around its ship exactly once, and no other.
pub proof fn law_visible_chunks_exact(center: ChunkPos, size: (u32, u32))
    ensures
        first_occurrences(neighbourhood(center, size), 9).no_duplicates(),
        forall|c: Cell|
            first_occurrences(neighbourhood(center, size), 9).contains(c)
                <==> neighbourhood(center, size).contains(c),
{
    lemma_first_occurrences(neighbourhood(center, size), 9);
    assert(neighbourhood(center, size).take(9) =~= neighbourhood(center, size));
}

/// The real chunk, as a tally cell, of the chunk `(dx, dy)` away from `center`.
pub open spec fn around_cell(center: ChunkPos, dx: int, dy: int, size: (u32, u32)) -> Cell {
    let r = real_chunk(((center.0 + dx) as i64, (center.1 + dy) as i64), size);
    (r.0 as u32, r.1 as u32)
}

/// A client is sent the real chunk of its ship's chunk and of each of the
/// eight chunks around it, and no other chunk.
pub proof fn law_sends_the_chunks_around_the_ship(center: ChunkPos, size: (u32, u32))
    ensures
        forall|dx: int, dy: int|
            -1 <= dx <= 1 && -1 <= dy <= 1 ==> first_occurrences(neighbourhood(center, size), 9).contains(
                #[trigger] around_cell(center, dx, dy, size),
            ),
        forall|c: Cell|
            #[trigger] first_occurrences(neighbourhood(center, size), 9).contains(c) ==> exists|dx: int, dy: int|
                -1 <= dx <= 1 && -1 <= dy <= 1 && c == #[trigger] around_cell(center, dx, dy, size),
{
    let nb = neighbourhood(center, size);
    law_visible_chunks_exact(center, size);
    assert forall|dx: int, dy: int| -1 <= dx <= 1 && -1 <= dy <= 1 implies first_occurrences(nb, 9).contains(
        #[trigger] around_cell(center, dx, dy, size),
    ) by {
        let k = 3 * (dx + 1) + (dy + 1);
        assert(k / 3 == dx + 1 && k % 3 == dy + 1);
        assert(nb[k] == around_cell(center, dx, dy, size));
        assert(nb.contains(nb[k]));
    }
    assert forall|c: Cell| #[trigger] first_occurrences(nb, 9).contains(c) implies exists|dx: int, dy: int|
        -1 <= dx <= 1 && -1 <= dy <= 1 && c == #[trigger] around_cell(center, dx, dy, size) by {
        assert(nb.contains(c));
        let k = choose|k: int| 0 <= k < nb.len() && nb[k] == c;
        let dx = k / 3 - 1;
        let dy = k % 3 - 1;
        assert(c == around_cell(center, dx, dy, size));
    }
}

} // verus!
