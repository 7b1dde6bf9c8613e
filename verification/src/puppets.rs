//! Which puppets (copies of real objects shown in shadow chunks) to keep,
//! to drop and to create, each frame.
//!
//! The game hands in, for every real object, its chunk and the real chunk of
//! its position; for every puppet, the chunk it is in, the real chunk of its
//! position and the shadow chunk it was made for. It gets back, per puppet,
//! the real object it goes on mirroring (or none: it is removed), and the
//! puppets to create.

use vstd::prelude::*;
use crate::world::{ChunkPos, real_chunk, valid_size};

verus! {

/// A real (non-puppet) object, as the puppet bookkeeping sees it.
#[derive(Clone, Copy, Debug)]
pub struct RealObject {
    pub id: u64,
    /// The chunk of the object's position.
    pub chunk: ChunkPos,
    /// The real chunk of the object's position.
    pub real_chunk: ChunkPos,
    /// Whether a puppet of it can be made at all (a ship needs its owner's
    /// client data for that).
    pub spawnable: bool,
}

/// A puppet, as the puppet bookkeeping sees it.
#[derive(Clone, Copy, Debug)]
pub struct PuppetObject {
    pub id: u64,
    /// The chunk of the puppet's position.
    pub chunk: ChunkPos,
    /// The real chunk of the puppet's position.
    pub real_chunk: ChunkPos,
    /// The shadow chunk the puppet was made for.
    pub bound_chunk: ChunkPos,
}

/// What to do this frame.
pub struct PuppetPlan {
    /// Per puppet, in order: the index of the real object it keeps mirroring,
    /// or `None` when the puppet is to be removed.
    pub keep: Vec<Option<usize>>,
    /// Puppets to create: the index of the real object and the shadow chunk.
    pub spawn: Vec<(usize, ChunkPos)>,
}

/// The last real object with id `id` (the one a lookup by id finds), or -1.
pub open spec fn last_with_id(objs: Seq<RealObject>, id: u64) -> int
    decreases objs.len(),
{
    if objs.len() == 0 {
        -1
    } else if objs.last().id == id {
        objs.len() - 1
    } else {
        last_with_id(objs.drop_last(), id)
    }
}

/// The five conditions under which a puppet lives on: its object exists, its
/// chunk is loaded, it is still in the chunk it was made for, no earlier
/// puppet already stands for the same object in the same chunk, and it is
/// in the same place, modulo the map, as its object.
pub open spec fn puppet_survives(
    around: Seq<ChunkPos>,
    objs: Seq<RealObject>,
    p: PuppetObject,
    kept: Seq<(u64, ChunkPos)>,
) -> bool {
    let j = last_with_id(objs, p.id);
    &&& j >= 0
    &&& around.contains(p.chunk)
    &&& p.chunk == p.bound_chunk
    &&& !kept.contains((p.id, p.chunk))
    &&& p.real_chunk == objs[j].chunk
}

/// The (object id, chunk) pairs of the puppets among the first `n` that survive.
pub open spec fn kept_keys(
    around: Seq<ChunkPos>,
    objs: Seq<RealObject>,
    puppets: Seq<PuppetObject>,
    n: int,
) -> Seq<(u64, ChunkPos)>
    decreases n,
{
    if n <= 0 {
        Seq::empty()
    } else {
        let prev = kept_keys(around, objs, puppets, n - 1);
        let p = puppets[n - 1];
        if puppet_survives(around, objs, p, prev) {
            prev.push((p.id, p.chunk))
        } else {
            prev
        }
    }
}

pub open spec fn keep_decision(
    around: Seq<ChunkPos>,
    objs: Seq<RealObject>,
    puppets: Seq<PuppetObject>,
    i: int,
) -> Option<usize> {
    if puppet_survives(around, objs, puppets[i], kept_keys(around, objs, puppets, i)) {
        Some(last_with_id(objs, puppets[i].id) as usize)
    } else {
        None
    }
}

/// Puppets for one shadow chunk `c`: every spawnable object among the first
/// `n` whose real chunk is the one `c` shows and which has no surviving
/// puppet in `c`.
pub open spec fn chunk_spawns(
    objs: Seq<RealObject>,
    kept: Seq<(u64, ChunkPos)>,
    c: ChunkPos,
    size: (u32, u32),
    n: int,
) -> Seq<(usize, ChunkPos)>
    decreases n,
{
    if n <= 0 {
        Seq::empty()
    } else {
        let prev = chunk_spawns(objs, kept, c, size, n - 1);
        let o = objs[n - 1];
        if o.real_chunk == real_chunk(c, size) && o.spawnable && !kept.contains((o.id, c)) {
            prev.push(((n - 1) as usize, c))
        } else {
            prev
        }
    }
}

/// Puppets to create for the first `m` loaded chunks; real chunks get none.
pub open spec fn spawn_plan(
    around: Seq<ChunkPos>,
    objs: Seq<RealObject>,
    kept: Seq<(u64, ChunkPos)>,
    size: (u32, u32),
    m: int,
) -> Seq<(usize, ChunkPos)>
    decreases m,
{
    if m <= 0 {
        Seq::empty()
    } else {
        let c = around[m - 1];
        spawn_plan(around, objs, kept, size, m - 1) + if real_chunk(c, size) == c {
            Seq::empty()
        } else {
            chunk_spawns(objs, kept, c, size, objs.len() as int)
        }
    }
}

fn find_last_with_id(objs: &Vec<RealObject>, id: u64) -> (r: Option<usize>)
    ensures
        match r {
            Some(j) => j as int == last_with_id(objs@, id) && j < objs@.len(),
            None => last_with_id(objs@, id) == -1,
        },
{
    let mut k = objs.len();
    assert(objs@.take(k as int) =~= objs@);
    while k > 0
        invariant
            k <= objs.len(),
            last_with_id(objs@, id) == last_with_id(objs@.take(k as int), id),
        decreases k,
    {
        assert(objs@.take(k as int).drop_last() =~= objs@.take(k - 1));
        if objs[k - 1].id == id {
            return Some(k - 1);
        }
        k = k - 1;
    }
    assert(objs@.take(0) =~= Seq::<RealObject>::empty());
    None
}

proof fn lemma_last_with_id_range(objs: Seq<RealObject>, id: u64)
    ensures
        -1 <= last_with_id(objs, id) < objs.len(),
        last_with_id(objs, id) >= 0 ==> objs[last_with_id(objs, id)].id == id,
    decreases objs.len(),
{
    if objs.len() > 0 && objs.last().id != id {
        lemma_last_with_id_range(objs.drop_last(), id);
    }
}

pub(crate) fn contains_chunk(v: &Vec<ChunkPos>, c: ChunkPos) -> (r: bool)
    ensures
        r == v@.contains(c),
{
    let mut k: usize = 0;
    while k < v.len()
        invariant
            k <= v.len(),
            forall|j: int| 0 <= j < k ==> v@[j] != c,
        decreases v.len() - k,
    {
        if v[k].0 == c.0 && v[k].1 == c.1 {
            assert(v@[k as int] == c);
            return true;
        }
        k = k + 1;
    }
    false
}

fn contains_key(v: &Vec<(u64, ChunkPos)>, key: (u64, ChunkPos)) -> (r: bool)
    ensures
        r == v@.contains(key),
{
    let mut k: usize = 0;
    while k < v.len()
        invariant
            k <= v.len(),
            forall|j: int| 0 <= j < k ==> v@[j] != key,
        decreases v.len() - k,
    {
        if v[k].0 == key.0 && v[k].1.0 == key.1.0 && v[k].1.1 == key.1.1 {
            assert(v@[k as int] == key);
            return true;
        }
        k = k + 1;
    }
    false
}

/// Decides the puppets of this frame (the bookkeeping of the game's
/// `update_chunks_around`): which puppets keep mirroring their real object,
/// and which puppets to create in the loaded shadow chunks `around`.
pub fn plan_puppets(
    around: &Vec<ChunkPos>,
    objects: &Vec<RealObject>,
    puppets: &Vec<PuppetObject>,
    size: (u32, u32),
) -> (r: PuppetPlan)
    requires
        valid_size(size),
    ensures
        r.keep@.len() == puppets@.len(),
        forall|i: int|
            0 <= i < puppets@.len() ==> #[trigger] r.keep@[i] == keep_decision(
                around@,
                objects@,
                puppets@,
                i,
            ),
        r.spawn@ == spawn_plan(
            around@,
            objects@,
            kept_keys(around@, objects@, puppets@, puppets@.len() as int),
            size,
            around@.len() as int,
        ),
        forall|k: int, j: int|
            0 <= k < around@.len() && 0 <= j < objects@.len() && real_chunk(#[trigger] around@[k], size)
                != around@[k] && (#[trigger] objects@[j]).spawnable && objects@[j].real_chunk
                == real_chunk(around@[k], size) && !kept_keys(
                around@,
                objects@,
                puppets@,
                puppets@.len() as int,
            ).contains((objects@[j].id, around@[k])) ==> r.spawn@.contains((j as usize, around@[k])),
{
    let r = plan_puppets_exact(around, objects, puppets, size);
    let count = objects.len();
    proof {
        assert(objects@.len() == count);
        assert forall|k: int, j: int|
            0 <= k < around@.len() && 0 <= j < objects@.len() && real_chunk(#[trigger] around@[k], size)
                != around@[k] && (#[trigger] objects@[j]).spawnable && objects@[j].real_chunk
                == real_chunk(around@[k], size) && !kept_keys(
                around@,
                objects@,
                puppets@,
                puppets@.len() as int,
            ).contains((objects@[j].id, around@[k])) implies r.spawn@.contains((j as usize, around@[k])) by {
            law_every_shadow_chunk_gets_its_puppets(around@, objects@, puppets@, size, k, j);
        }
    }
    r
}

fn plan_puppets_exact(
    around: &Vec<ChunkPos>,
    objects: &Vec<RealObject>,
    puppets: &Vec<PuppetObject>,
    size: (u32, u32),
) -> (r: PuppetPlan)
    requires
        valid_size(size),
    ensures
        r.keep@.len() == puppets@.len(),
        forall|i: int|
            0 <= i < puppets@.len() ==> #[trigger] r.keep@[i] == keep_decision(
                around@,
                objects@,
                puppets@,
                i,
            ),
        r.spawn@ == spawn_plan(
            around@,
            objects@,
            kept_keys(around@, objects@, puppets@, puppets@.len() as int),
            size,
            around@.len() as int,
        ),
{
    let mut keep: Vec<Option<usize>> = Vec::new();
    let mut kept: Vec<(u64, ChunkPos)> = Vec::new();
    let mut i: usize = 0;
    while i < puppets.len()
        invariant
            i <= puppets.len(),
            keep@.len() == i,
            kept@ == kept_keys(around@, objects@, puppets@, i as int),
            forall|k: int|
                0 <= k < i ==> #[trigger] keep@[k] == keep_decision(around@, objects@, puppets@, k),
        decreases puppets.len() - i,
    {
        let p = puppets[i];
        let found = find_last_with_id(objects, p.id);
        proof {
            lemma_last_with_id_range(objects@, p.id);
        }
        let mut decision: Option<usize> = None;
        match found {
            Some(j) => {
                if contains_chunk(around, p.chunk) && p.chunk.0 == p.bound_chunk.0 && p.chunk.1
                    == p.bound_chunk.1 && !contains_key(&kept, (p.id, p.chunk))
                    && p.real_chunk.0 == objects[j].chunk.0 && p.real_chunk.1
                    == objects[j].chunk.1 {
                    decision = Some(j);
                }
            },
            None => {},
        }
        proof {
            assert(p.chunk == p.bound_chunk <==> (p.chunk.0 == p.bound_chunk.0 && p.chunk.1
                == p.bound_chunk.1));
        }
        if decision.is_some() {
            kept.push((p.id, p.chunk));
        }
        keep.push(decision);
        i = i + 1;
    }
    let ghost all_kept = kept@;
    let mut spawn: Vec<(usize, ChunkPos)> = Vec::new();
    let mut m: usize = 0;
    while m < around.len()
        invariant
            m <= around.len(),
            valid_size(size),
            kept@ == all_kept,
            spawn@ == spawn_plan(around@, objects@, all_kept, size, m as int),
        decreases around.len() - m,
    {
        let c = around[m];
        let rc = (crate::world::wrap_chunk(c.0, size.0), crate::world::wrap_chunk(c.1, size.1));
        assert(rc == real_chunk(c, size));
        if !(rc.0 == c.0 && rc.1 == c.1) {
            let ghost before = spawn@;
            let mut n: usize = 0;
            while n < objects.len()
                invariant
                    n <= objects.len(),
                    kept@ == all_kept,
                    rc == real_chunk(c, size),
                    spawn@ == before + chunk_spawns(objects@, all_kept, c, size, n as int),
                decreases objects.len() - n,
            {
                let o = objects[n];
                if o.real_chunk.0 == rc.0 && o.real_chunk.1 == rc.1 && o.spawnable && !contains_key(
                    &kept,
                    (o.id, c),
                ) {
                    spawn.push((n, c));
                }
                n = n + 1;
            }
        } else {
            assert(spawn_plan(around@, objects@, all_kept, size, m + 1) =~= spawn_plan(
                around@,
                objects@,
                all_kept,
                size,
                m as int,
            ));
        }
        m = m + 1;
    }
    PuppetPlan { keep, spawn }
}

/// The (object id, chunk) pair that a puppet to create stands for.
pub open spec fn spawn_key(objs: Seq<RealObject>, t: (usize, ChunkPos)) -> (u64, ChunkPos) {
    (objs[t.0 as int].id, t.1)
}

/// No two real objects share an id.
pub open spec fn distinct_ids(objs: Seq<RealObject>) -> bool {
    forall|a: int, b: int| 0 <= a < b < objs.len() ==> #[trigger] objs[a].id != #[trigger] objs[b].id
}

proof fn lemma_kept_keys_distinct(
    around: Seq<ChunkPos>,
    objs: Seq<RealObject>,
    puppets: Seq<PuppetObject>,
    n: int,
)
    requires
        0 <= n <= puppets.len(),
    ensures
        kept_keys(around, objs, puppets, n).no_duplicates(),
    decreases n,
{
    if n > 0 {
        lemma_kept_keys_distinct(around, objs, puppets, n - 1);
        let prev = kept_keys(around, objs, puppets, n - 1);
        let p = puppets[n - 1];
        if puppet_survives(around, objs, p, prev) {
            let cur = prev.push((p.id, p.chunk));
            assert forall|a: int, b: int| 0 <= a < b < cur.len() implies cur[a] != cur[b] by {
                if b == cur.len() - 1 {
                    assert(prev.contains(prev[a]));
                }
            }
        }
    }
}

proof fn lemma_chunk_spawns(
    objs: Seq<RealObject>,
    kept: Seq<(u64, ChunkPos)>,
    c: ChunkPos,
    size: (u32, u32),
    n: int,
)
    requires
        0 <= n <= objs.len(),
        objs.len() <= usize::MAX,
    ensures
        ({
            let cs = chunk_spawns(objs, kept, c, size, n);
            &&& forall|t: int|
                0 <= t < cs.len() ==> {
                    &&& (#[trigger] cs[t]).1 == c
                    &&& cs[t].0 < n
                    &&& objs[cs[t].0 as int].real_chunk == real_chunk(c, size)
                    &&& objs[cs[t].0 as int].spawnable
                    &&& !kept.contains(spawn_key(objs, cs[t]))
                }
            &&& forall|a: int, b: int|
                0 <= a < b < cs.len() ==> (#[trigger] cs[a]).0 < (#[trigger] cs[b]).0
        }),
    decreases n,
{
    if n > 0 {
        lemma_chunk_spawns(objs, kept, c, size, n - 1);
        let prev = chunk_spawns(objs, kept, c, size, n - 1);
        let o = objs[n - 1];
        if o.real_chunk == real_chunk(c, size) && o.spawnable && !kept.contains((o.id, c)) {
            let cs = prev.push(((n - 1) as usize, c));
            assert(cs[cs.len() - 1].0 == n - 1);
            assert(spawn_key(objs, cs[cs.len() - 1]) == (o.id, c));
            assert forall|a: int, b: int| 0 <= a < b < cs.len() implies (#[trigger] cs[a]).0 < (
            #[trigger] cs[b]).0 by {
                if b < prev.len() {
                    assert(cs[a] == prev[a] && cs[b] == prev[b]);
                } else {
                    assert(cs[a] == prev[a]);
                }
            }
        }
    }
}

proof fn lemma_spawn_plan(
    around: Seq<ChunkPos>,
    objs: Seq<RealObject>,
    kept: Seq<(u64, ChunkPos)>,
    size: (u32, u32),
    m: int,
)
    requires
        0 <= m <= around.len(),
        around.no_duplicates(),
        distinct_ids(objs),
        objs.len() <= usize::MAX,
    ensures
        ({
            let sp = spawn_plan(around, objs, kept, size, m);
            &&& forall|t: int|
                0 <= t < sp.len() ==> {
                    &&& around.take(m).contains((#[trigger] sp[t]).1)
                    &&& real_chunk(sp[t].1, size) != sp[t].1
                    &&& sp[t].0 < objs.len()
                    &&& objs[sp[t].0 as int].real_chunk == real_chunk(sp[t].1, size)
                    &&& objs[sp[t].0 as int].spawnable
                    &&& !kept.contains(spawn_key(objs, sp[t]))
                }
            &&& forall|a: int, b: int|
                0 <= a < b < sp.len() ==> spawn_key(objs, #[trigger] sp[a]) != spawn_key(
                    objs,
                    #[trigger] sp[b],
                )
        }),
    decreases m,
{
    if m > 0 {
        lemma_spawn_plan(around, objs, kept, size, m - 1);
        let prev = spawn_plan(around, objs, kept, size, m - 1);
        let c = around[m - 1];
        let sp = spawn_plan(around, objs, kept, size, m);
        assert forall|k: int| 0 <= k < m - 1 implies around.take(m - 1)[k] == around.take(m)[k] by {}
        if real_chunk(c, size) == c {
            assert(sp =~= prev);
            assert forall|t: int| 0 <= t < sp.len() implies around.take(m).contains(
                (#[trigger] sp[t]).1,
            ) by {
                let k = choose|k: int| 0 <= k < m - 1 && #[trigger] around.take(m - 1)[k] == prev[t].1;
                assert(around.take(m)[k] == sp[t].1);
            }
        } else {
            let cs = chunk_spawns(objs, kept, c, size, objs.len() as int);
            lemma_chunk_spawns(objs, kept, c, size, objs.len() as int);
            assert(sp =~= prev + cs);
            assert forall|t: int| 0 <= t < sp.len() implies {
                &&& around.take(m).contains((#[trigger] sp[t]).1)
                &&& real_chunk(sp[t].1, size) != sp[t].1
                &&& sp[t].0 < objs.len()
                &&& objs[sp[t].0 as int].real_chunk == real_chunk(sp[t].1, size)
                &&& objs[sp[t].0 as int].spawnable
                &&& !kept.contains(spawn_key(objs, sp[t]))
            } by {
                if t < prev.len() {
                    assert(sp[t] == prev[t]);
                    let k = choose|k: int| 0 <= k < m - 1 && #[trigger] around.take(m - 1)[k] == prev[t].1;
                    assert(around.take(m)[k] == sp[t].1);
                } else {
                    assert(sp[t] == cs[t - prev.len()]);
                    assert(around.take(m)[m - 1] == c);
                }
            }
            assert forall|a: int, b: int| 0 <= a < b < sp.len() implies spawn_key(
                objs,
                #[trigger] sp[a],
            ) != spawn_key(objs, #[trigger] sp[b]) by {
                if b < prev.len() {
                    assert(sp[a] == prev[a] && sp[b] == prev[b]);
                } else if a >= prev.len() {
                    assert(sp[a] == cs[a - prev.len()] && sp[b] == cs[b - prev.len()]);
                    let ia = cs[a - prev.len()].0 as int;
                    let ib = cs[b - prev.len()].0 as int;
                    assert(ia < ib);
                    assert(objs[ia].id != objs[ib].id);
                } else {
                    assert(sp[a] == prev[a] && sp[b] == cs[b - prev.len()]);
                    let k = choose|k: int| 0 <= k < m - 1 && #[trigger] around.take(m - 1)[k] == prev[a].1;
                    assert(around[k] == sp[a].1);
                    assert(sp[b].1 == around[m - 1]);
                    assert(around[k] != around[m - 1]);
                }
            }
        }
    }
}

/// A puppet that lives on mirrors an object with its own id, stands in a
/// loaded chunk, still the one it was made for, and sits where its object
/// sits modulo the map.
pub proof fn law_kept_puppet_mirrors_its_object(
    around: Seq<ChunkPos>,
    objs: Seq<RealObject>,
    puppets: Seq<PuppetObject>,
    i: int,
)
    requires
        0 <= i < puppets.len(),
        objs.len() <= usize::MAX,
    ensures
        keep_decision(around, objs, puppets, i) matches Some(j) ==> {
            &&& j < objs.len()
            &&& objs[j as int].id == puppets[i].id
            &&& around.contains(puppets[i].chunk)
            &&& puppets[i].chunk == puppets[i].bound_chunk
            &&& puppets[i].real_chunk == objs[j as int].chunk
        },
{
    lemma_last_with_id_range(objs, puppets[i].id);
}

/// Every puppet made this frame goes to a loaded shadow chunk (never a real
/// one), copies a real object that lies in the real chunk that shadow chunk
/// shows, and stands for an (object, chunk) pair that no kept puppet stands
/// for. Given unique object ids and each loaded chunk listed once, after the
/// frame no object has two puppets in one chunk.
pub proof fn law_one_puppet_per_object_and_chunk(
    around: Seq<ChunkPos>,
    objs: Seq<RealObject>,
    puppets: Seq<PuppetObject>,
    size: (u32, u32),
)
    requires
        around.no_duplicates(),
        distinct_ids(objs),
        objs.len() <= usize::MAX,
    ensures
        ({
            let kept = kept_keys(around, objs, puppets, puppets.len() as int);
            let sp = spawn_plan(around, objs, kept, size, around.len() as int);
            &&& kept.no_duplicates()
            &&& forall|t: int|
                0 <= t < sp.len() ==> {
                    &&& around.contains((#[trigger] sp[t]).1)
                    &&& real_chunk(sp[t].1, size) != sp[t].1
                    &&& sp[t].0 < objs.len()
                    &&& objs[sp[t].0 as int].real_chunk == real_chunk(sp[t].1, size)
                    &&& !kept.contains(spawn_key(objs, sp[t]))
                }
            &&& forall|a: int, b: int|
                0 <= a < b < sp.len() ==> spawn_key(objs, #[trigger] sp[a]) != spawn_key(
                    objs,
                    #[trigger] sp[b],
                )
        }),
{
    lemma_kept_keys_distinct(around, objs, puppets, puppets.len() as int);
    let kept = kept_keys(around, objs, puppets, puppets.len() as int);
    lemma_spawn_plan(around, objs, kept, size, around.len() as int);
    assert(around.take(around.len() as int) =~= around);
}

proof fn lemma_chunk_spawns_complete(
    objs: Seq<RealObject>,
    kept: Seq<(u64, ChunkPos)>,
    c: ChunkPos,
    size: (u32, u32),
    n: int,
    j: int,
)
    requires
        0 <= j < n <= objs.len(),
        objs.len() <= usize::MAX,
        objs[j].spawnable,
        objs[j].real_chunk == real_chunk(c, size),
        !kept.contains((objs[j].id, c)),
    ensures
        chunk_spawns(objs, kept, c, size, n).contains((j as usize, c)),
    decreases n,
{
    let cs = chunk_spawns(objs, kept, c, size, n);
    let prev = chunk_spawns(objs, kept, c, size, n - 1);
    if j == n - 1 {
        assert(cs == prev.push((j as usize, c)));
        assert(cs[prev.len() as int] == (j as usize, c));
    } else {
        lemma_chunk_spawns_complete(objs, kept, c, size, n - 1, j);
        let t = choose|t: int| 0 <= t < prev.len() && prev[t] == (j as usize, c);
        assert(cs[t] == (j as usize, c));
    }
}

proof fn lemma_spawn_plan_complete(
    around: Seq<ChunkPos>,
    objs: Seq<RealObject>,
    kept: Seq<(u64, ChunkPos)>,
    size: (u32, u32),
    m: int,
    k: int,
    j: int,
)
    requires
        0 <= k < m <= around.len(),
        0 <= j < objs.len(),
        objs.len() <= usize::MAX,
        real_chunk(around[k], size) != around[k],
        objs[j].spawnable,
        objs[j].real_chunk == real_chunk(around[k], size),
        !kept.contains((objs[j].id, around[k])),
    ensures
        spawn_plan(around, objs, kept, size, m).contains((j as usize, around[k])),
    decreases m,
{
    let prev = spawn_plan(around, objs, kept, size, m - 1);
    let c = around[m - 1];
    let sp = spawn_plan(around, objs, kept, size, m);
    if k == m - 1 {
        let cs = chunk_spawns(objs, kept, c, size, objs.len() as int);
        lemma_chunk_spawns_complete(objs, kept, c, size, objs.len() as int, j);
        assert(sp == prev + cs);
        let t = choose|t: int| 0 <= t < cs.len() && cs[t] == (j as usize, c);
        assert(sp[prev.len() + t] == (j as usize, c));
    } else {
        lemma_spawn_plan_complete(around, objs, kept, size, m - 1, k, j);
        let t = choose|t: int| 0 <= t < prev.len() && prev[t] == (j as usize, around[k]);
        if real_chunk(c, size) == c {
            assert(sp =~= prev);
        } else {
            assert(sp == prev + chunk_spawns(objs, kept, c, size, objs.len() as int));
        }
        assert(sp[t] == (j as usize, around[k]));
    }
}

/// No puppet is missing after the frame: in every loaded chunk that is not
/// real, every object that can be copied, lies in the real chunk that chunk
/// shows, and has no kept puppet there gets a new puppet there.
pub proof fn law_every_shadow_chunk_gets_its_puppets(
    around: Seq<ChunkPos>,
    objs: Seq<RealObject>,
    puppets: Seq<PuppetObject>,
    size: (u32, u32),
    k: int,
    j: int,
)
    requires
        0 <= k < around.len(),
        0 <= j < objs.len(),
        objs.len() <= usize::MAX,
        real_chunk(around[k], size) != around[k],
        objs[j].spawnable,
        objs[j].real_chunk == real_chunk(around[k], size),
        !kept_keys(around, objs, puppets, puppets.len() as int).contains((objs[j].id, around[k])),
    ensures
        spawn_plan(
            around,
            objs,
            kept_keys(around, objs, puppets, puppets.len() as int),
            size,
            around.len() as int,
        ).contains((j as usize, around[k])),
{
    lemma_spawn_plan_complete(
        around,
        objs,
        kept_keys(around, objs, puppets, puppets.len() as int),
        size,
        around.len() as int,
        k,
        j,
    );
}

} // verus!
