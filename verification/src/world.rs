//! The map: a torus of `map_size_chunks` chunks. Positions outside the map
//! belong to "shadow" chunks, which show the real chunk they wrap onto; the
//! objects there are puppets, copies of the real objects.
//!
//! Chunk coordinates are whole numbers; the game turns positions into chunk
//! coordinates (a floor of a division) before it asks anything of this module.

use vstd::prelude::*;

verus! {

/// The integer part of the game's configuration: object ids and the map.
pub struct MapConfig {
    /// The last object id handed out; 0 means none yet, and 0 is never an id.
    pub last_id: u64,
    /// Width and height of the map, in chunks.
    pub map_size_chunks: (u32, u32),
    /// Hits an asteroid takes, by asteroid size 1, 2, 3.
    pub asteroid_hp: [i8; 3],
    pub debug_render: bool,
}

/// A chunk coordinate.
pub type ChunkPos = (i64, i64);

/// The real chunk that chunk `c` shows on a map of `size` chunks.
pub open spec fn real_chunk(c: ChunkPos, size: (u32, u32)) -> ChunkPos {
    ((c.0 as int % size.0 as int) as i64, (c.1 as int % size.1 as int) as i64)
}

pub open spec fn on_map(c: ChunkPos, size: (u32, u32)) -> bool {
    0 <= c.0 < size.0 && 0 <= c.1 < size.1
}

pub open spec fn valid_size(size: (u32, u32)) -> bool {
    size.0 > 0 && size.1 > 0
}

pub(crate) fn wrap_chunk(c: i64, n: u32) -> (r: i64)
    requires
        n > 0,
    ensures
        r as int == c as int % n as int,
{
    if c >= 0 {
        (c as u64 % n as u64) as i64
    } else {
        let a = (-(c + 1)) as u64;
        let r = a % n as u64;
        proof {
            lemma_negative_mod(a as int, n as int);
        }
        (n as u64 - 1 - r) as i64
    }
}

proof fn lemma_negative_mod(a: int, n: int)
    requires
        a >= 0,
        n > 0,
    ensures
        (-a - 1) % n == n - 1 - a % n,
{
    let q = a / n;
    let r = a % n;
    vstd::arithmetic::div_mod::lemma_fundamental_div_mod(a, n);
    assert(0 <= r < n);
    assert(-a - 1 == n * (-q - 1) + (n - 1 - r)) by (nonlinear_arith)
        requires
            a == n * q + r,
    ;
    vstd::arithmetic::div_mod::lemma_mod_multiples_vanish(-q - 1, n - 1 - r, n);
    vstd::arithmetic::div_mod::lemma_small_mod((n - 1 - r) as nat, n as nat);
}

impl Default for MapConfig {
    fn default() -> (r: Self)
        ensures
            r.last_id == 0,
            r.map_size_chunks == (5u32, 5u32),
            r.asteroid_hp@ == seq![1i8, 1i8, 1i8],
            !r.debug_render,
    {
        MapConfig { last_id: 0, map_size_chunks: (5, 5), asteroid_hp: [1, 1, 1], debug_render: false }
    }
}

impl MapConfig {
    /// Hands out the next object id. Ids start at 1; 0 stays free for "none".
    pub fn new_id(&mut self) -> (id: u64)
        requires
            old(self).last_id < u64::MAX,
        ensures
            id == old(self).last_id + 1,
            final(self).last_id == id,
            final(self).map_size_chunks == old(self).map_size_chunks,
            final(self).asteroid_hp == old(self).asteroid_hp,
            final(self).debug_render == old(self).debug_render,
    {
        self.last_id = self.last_id + 1;
        self.last_id
    }

    /// The real chunk that chunk `chunk` shows (Euclidean remainder on each axis).
    pub fn chunk_to_real_chunk_v2(&self, chunk: ChunkPos) -> (r: ChunkPos)
        requires
            valid_size(self.map_size_chunks),
        ensures
            r == real_chunk(chunk, self.map_size_chunks),
    {
        (wrap_chunk(chunk.0, self.map_size_chunks.0), wrap_chunk(chunk.1, self.map_size_chunks.1))
    }

    /// The chunks that a game session keeps loaded: the map and a ring of
    /// shadow chunks around it, column by column (x outer, y inner) from
    /// (-1, -1) to (width, height).
    pub fn loaded_chunks(&self) -> (r: Vec<ChunkPos>)
        ensures
            r@ == loaded_grid(self.map_size_chunks),
    {
        let w = self.map_size_chunks.0 as i64;
        let h = self.map_size_chunks.1 as i64;
        let mut out: Vec<ChunkPos> = Vec::new();
        let mut x: i64 = -1;
        while x < w + 1
            invariant
                -1 <= x <= w + 1,
                w == self.map_size_chunks.0,
                h == self.map_size_chunks.1,
                out@ == loaded_grid(self.map_size_chunks).take((x + 1) * (h + 2)),
            decreases w + 1 - x,
        {
            let mut y: i64 = -1;
            while y < h + 1
                invariant
                    -1 <= x < w + 1,
                    -1 <= y <= h + 1,
                    w == self.map_size_chunks.0,
                    h == self.map_size_chunks.1,
                    out@ == loaded_grid(self.map_size_chunks).take((x + 1) * (h + 2) + (y + 1)),
                decreases h + 1 - y,
            {
                proof {
                    lemma_grid_index(self.map_size_chunks, x as int, y as int);
                }
                out.push((x, y));
                assert(out@ =~= loaded_grid(self.map_size_chunks).take(
                    (x + 1) * (h + 2) + (y + 1) + 1,
                ));
                y = y + 1;
            }
            assert((x + 1) * (h + 2) + (h + 2) == (x + 2) * (h + 2)) by (nonlinear_arith);
            x = x + 1;
        }
        proof {
            assert((w + 2) * (h + 2) == loaded_grid(self.map_size_chunks).len());
        }
        assert(loaded_grid(self.map_size_chunks).take((w + 2) * (h + 2)) =~= loaded_grid(
            self.map_size_chunks,
        ));
        out
    }
}

/// A chunk outline the debug view draws: where, the real chunk it shows
/// (written in its label), and whether it is itself real (drawn grey, shadow
/// chunks orange-red).
#[derive(Clone, Copy, Debug)]
pub struct DebugChunk {
    pub chunk: ChunkPos,
    pub real_chunk: ChunkPos,
    pub is_real: bool,
}

pub open spec fn debug_chunk_of(c: ChunkPos, size: (u32, u32)) -> DebugChunk {
    DebugChunk { chunk: c, real_chunk: real_chunk(c, size), is_real: real_chunk(c, size) == c }
}

/// The debug outlines to draw among the first `k` loaded chunks: those not
/// drawn yet.
pub open spec fn debug_to_draw(size: (u32, u32), drawn: Seq<ChunkPos>, k: int) -> Seq<DebugChunk>
    decreases k,
{
    if k <= 0 {
        Seq::empty()
    } else {
        let prev = debug_to_draw(size, drawn, k - 1);
        let c = loaded_grid(size)[k - 1];
        if drawn.contains(c) {
            prev
        } else {
            prev.push(debug_chunk_of(c, size))
        }
    }
}

impl MapConfig {
    /// The F3 key switches the chunk debug view on and off.
    pub fn toggle_debug_render(&mut self)
        ensures
            final(self).debug_render == !old(self).debug_render,
            final(self).last_id == old(self).last_id,
            final(self).map_size_chunks == old(self).map_size_chunks,
            final(self).asteroid_hp == old(self).asteroid_hp,
    {
        self.debug_render = !self.debug_render;
    }

    /// The chunk outlines the debug view still has to draw, given the chunks
    /// `drawn` that already have one (the choice `debug_chunk_render` makes).
    pub fn debug_chunks_to_draw(&self, drawn: &Vec<ChunkPos>) -> (r: Vec<DebugChunk>)
        requires
            valid_size(self.map_size_chunks),
        ensures
            r@ == debug_to_draw(
                self.map_size_chunks,
                drawn@,
                loaded_grid(self.map_size_chunks).len() as int,
            ),
    {
        let grid = self.loaded_chunks();
        let mut out: Vec<DebugChunk> = Vec::new();
        let mut k: usize = 0;
        while k < grid.len()
            invariant
                k <= grid.len(),
                valid_size(self.map_size_chunks),
                grid@ == loaded_grid(self.map_size_chunks),
                out@ == debug_to_draw(self.map_size_chunks, drawn@, k as int),
            decreases grid.len() - k,
        {
            let c = grid[k];
            if !crate::puppets::contains_chunk(drawn, c) {
                let wrapped = self.chunk_to_real_chunk_v2(c);
                out.push(DebugChunk { chunk: c, real_chunk: wrapped, is_real: wrapped.0 == c.0 && wrapped.1 == c.1 });
                assert(out@.last() == debug_chunk_of(c, self.map_size_chunks));
            }
            k = k + 1;
        }
        out
    }

    /// Whether the map wants another asteroid: fewer than one per chunk.
    pub fn needs_more_asteroids(&self, asteroids: usize) -> (r: bool)
        ensures
            r == (asteroids < self.map_size_chunks.0 as int * self.map_size_chunks.1 as int),
    {
        let w: u64 = self.map_size_chunks.0 as u64;
        let h: u64 = self.map_size_chunks.1 as u64;
        assert(w * h <= 0xffff_ffff_ffff_ffff) by (nonlinear_arith)
            requires
                w <= 0xffff_ffff,
                h <= 0xffff_ffff,
        ;
        (asteroids as u64) < w * h
    }
}

/// The loaded chunks of a map of `size` chunks: (-1, -1) .. (w, h), x outer.
pub open spec fn loaded_grid(size: (u32, u32)) -> Seq<ChunkPos> {
    let h = size.1 as int + 2;
    Seq::new(
        ((size.0 as int + 2) * h) as nat,
        |k: int| ((k / h - 1) as i64, (k % h - 1) as i64),
    )
}

proof fn lemma_grid_index(size: (u32, u32), x: int, y: int)
    requires
        -1 <= x <= size.0,
        -1 <= y <= size.1,
    ensures
        ({
            let h = size.1 as int + 2;
            let k = (x + 1) * h + (y + 1);
            &&& 0 <= k < loaded_grid(size).len()
            &&& loaded_grid(size)[k] == (x as i64, y as i64)
        }),
{
    let h = size.1 as int + 2;
    let k = (x + 1) * h + (y + 1);
    assert(k / h == x + 1 && k % h == y + 1) by (nonlinear_arith)
        requires
            k == (x + 1) * h + (y + 1),
            0 <= y + 1 < h,
            0 <= x + 1,
    ;
    assert(0 <= k < (size.0 as int + 2) * h) by (nonlinear_arith)
        requires
            k == (x + 1) * h + (y + 1),
            0 <= y + 1 < h,
            0 <= x + 1 < size.0 as int + 2,
    ;
}

/// Real chunks lie on the map.
pub proof fn law_real_chunk_on_map(c: ChunkPos, size: (u32, u32))
    requires
        valid_size(size),
    ensures
        on_map(real_chunk(c, size), size),
{
}

/// A chunk is its own real chunk exactly when it lies on the map.
pub proof fn law_real_chunk_fixed_points(c: ChunkPos, size: (u32, u32))
    requires
        valid_size(size),
    ensures
        (real_chunk(c, size) == c) <==> on_map(c, size),
{
    if on_map(c, size) {
        vstd::arithmetic::div_mod::lemma_small_mod(c.0 as nat, size.0 as nat);
        vstd::arithmetic::div_mod::lemma_small_mod(c.1 as nat, size.1 as nat);
    }
}

/// Wrapping twice is wrapping once.
pub proof fn law_real_chunk_idempotent(c: ChunkPos, size: (u32, u32))
    requires
        valid_size(size),
    ensures
        real_chunk(real_chunk(c, size), size) == real_chunk(c, size),
{
    law_real_chunk_on_map(c, size);
    law_real_chunk_fixed_points(real_chunk(c, size), size);
}

/// Moving a whole map width or height lands on the same real chunk.
pub proof fn law_real_chunk_periodic(c: ChunkPos, size: (u32, u32), kx: int, ky: int)
    requires
        valid_size(size),
        i64::MIN <= c.0 + kx * size.0 <= i64::MAX,
        i64::MIN <= c.1 + ky * size.1 <= i64::MAX,
    ensures
        real_chunk(((c.0 + kx * size.0) as i64, (c.1 + ky * size.1) as i64), size) == real_chunk(
            c,
            size,
        ),
{
    vstd::arithmetic::div_mod::lemma_mod_multiples_vanish(kx, c.0 as int, size.0 as int);
    vstd::arithmetic::div_mod::lemma_mod_multiples_vanish(ky, c.1 as int, size.1 as int);
    assert(c.0 + kx * size.0 == size.0 * kx + c.0) by (nonlinear_arith);
    assert(c.1 + ky * size.1 == size.1 * ky + c.1) by (nonlinear_arith);
}

proof fn lemma_grid_bounds(k: int, w: int, h: int)
    requires
        0 <= k < w * h,
        h > 0,
        w > 0,
    ensures
        0 <= k / h < w,
        0 <= k % h < h,
        k == (k / h) * h + k % h,
{
    assert(0 <= k / h < w && 0 <= k % h < h && k == (k / h) * h + k % h) by (nonlinear_arith)
        requires
            0 <= k < w * h,
            h > 0,
            w > 0,
    ;
}

/// The loaded chunks are the map and the ring of shadow chunks around it,
/// each listed once.
pub proof fn law_loaded_chunks_distinct(size: (u32, u32))
    ensures
        loaded_grid(size).no_duplicates(),
        forall|c: ChunkPos|
            -1 <= c.0 <= size.0 && -1 <= c.1 <= size.1 ==> #[trigger] loaded_grid(size).contains(c),
        forall|k: int|
            0 <= k < loaded_grid(size).len() ==> {
                let c = #[trigger] loaded_grid(size)[k];
                -1 <= c.0 <= size.0 && -1 <= c.1 <= size.1
            },
{
    let g = loaded_grid(size);
    let h = size.1 as int + 2;
    let w = size.0 as int + 2;
    assert forall|k: int| 0 <= k < g.len() implies {
        let c = #[trigger] g[k];
        -1 <= c.0 <= size.0 && -1 <= c.1 <= size.1
    } by {
        lemma_grid_bounds(k, w, h);
    }
    assert forall|i: int, j: int| 0 <= i < j < g.len() implies #[trigger] g[i] != #[trigger] g[j] by {
        lemma_grid_bounds(i, w, h);
        lemma_grid_bounds(j, w, h);
        if g[i] == g[j] {
            assert(i / h == j / h && i % h == j % h);
        }
    }
    assert forall|c: ChunkPos| -1 <= c.0 <= size.0 && -1 <= c.1 <= size.1 implies #[trigger] g.contains(c) by {
        lemma_grid_index(size, c.0 as int, c.1 as int);
        let k = (c.0 + 1) * h + (c.1 + 1);
        assert(g[k] == c);
    }
}

} // verus!
