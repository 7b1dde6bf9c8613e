//! The name tags under the ships: which ships get one and whose numbers it
//! shows, which tags to make and which to drop, and which pick-up icons to
//! add to or take off a tag.
//!
//! The game walks the real ships first and then their puppets. A puppet's
//! tag shows the numbers of its real ship, so a puppet gets a tag only when
//! its real ship got one earlier in the walk.

use vstd::prelude::*;
use crate::components::PowerUPType;

verus! {

/// A ship, as the tag bookkeeping sees it.
#[derive(Clone, Copy, Debug)]
pub struct ShipEntry {
    /// The key of the ship's tag: its entity's bits.
    pub entity: u64,
    pub object_id: u64,
    pub is_puppet: bool,
    pub dead: bool,
    /// Whether the client data of the ship's player is known.
    pub has_client: bool,
}

/// What to do with the tags this frame.
pub struct LabelPlan {
    /// Per ship, in order: the index of the real ship whose name, hit points
    /// and shields its tag shows, or `None` when it has no tag.
    pub shown: Vec<Option<usize>>,
    /// The ships, in order, whose tag is to be made.
    pub create: Vec<usize>,
    /// Indices of the existing tags to drop.
    pub remove: Vec<usize>,
}

/// The last real, living ship with a known player and object id `id` among
/// the first `n`.
pub open spec fn last_real_before(ships: Seq<ShipEntry>, id: u64, n: int) -> Option<usize>
    decreases n,
{
    if n <= 0 {
        None
    } else {
        let e = ships[n - 1];
        if !e.dead && e.has_client && !e.is_puppet && e.object_id == id {
            Some((n - 1) as usize)
        } else {
            last_real_before(ships, id, n - 1)
        }
    }
}

/// Whose numbers the tag of ship `i` shows: dead ships and ships of unknown
/// players have none; a real ship shows its own; a puppet those of the last
/// real ship before it with the same object id, if there is one.
pub open spec fn label_source(ships: Seq<ShipEntry>, i: int) -> Option<usize> {
    let e = ships[i];
    if e.dead || !e.has_client {
        None
    } else if !e.is_puppet {
        Some(i as usize)
    } else {
        last_real_before(ships, e.object_id, i)
    }
}

/// Whether some ship among the first `n` has a tag and the key `key`.
pub open spec fn key_shown(ships: Seq<ShipEntry>, key: u64, n: int) -> bool {
    exists|i: int| 0 <= i < n && #[trigger] ships[i].entity == key && label_source(ships, i) is Some
}

/// The ships among the first `n` that have a tag but no existing one.
pub open spec fn labels_to_create(ships: Seq<ShipEntry>, existing: Seq<u64>, n: int) -> Seq<usize>
    decreases n,
{
    if n <= 0 {
        Seq::empty()
    } else {
        let prev = labels_to_create(ships, existing, n - 1);
        if label_source(ships, n - 1) is Some && !existing.contains(ships[n - 1].entity) {
            prev.push((n - 1) as usize)
        } else {
            prev
        }
    }
}

/// Whether tag `k` is the one a lookup by its key finds (the last with it).
pub open spec fn last_with_key(existing: Seq<u64>, k: int) -> bool {
    forall|m: int| k < m < existing.len() ==> #[trigger] existing[m] != existing[k]
}

/// The existing tags among the first `n` to drop: those a lookup finds and
/// whose ship has no tag any more.
pub open spec fn labels_to_remove(ships: Seq<ShipEntry>, existing: Seq<u64>, n: int) -> Seq<usize>
    decreases n,
{
    if n <= 0 {
        Seq::empty()
    } else {
        let prev = labels_to_remove(ships, existing, n - 1);
        if last_with_key(existing, n - 1) && !key_shown(ships, existing[n - 1], ships.len() as int) {
            prev.push((n - 1) as usize)
        } else {
            prev
        }
    }
}

fn find_real_before(ships: &Vec<ShipEntry>, id: u64, n: usize) -> (r: Option<usize>)
    requires
        n <= ships.len(),
    ensures
        r == last_real_before(ships@, id, n as int),
{
    let mut k = n;
    while k > 0
        invariant
            k <= n <= ships.len(),
            last_real_before(ships@, id, n as int) == last_real_before(ships@, id, k as int),
        decreases k,
    {
        let e = ships[k - 1];
        if !e.dead && e.has_client && !e.is_puppet && e.object_id == id {
            return Some(k - 1);
        }
        k = k - 1;
    }
    None
}

fn source_of(ships: &Vec<ShipEntry>, i: usize) -> (r: Option<usize>)
    requires
        i < ships.len(),
    ensures
        r == label_source(ships@, i as int),
{
    let e = ships[i];
    if e.dead || !e.has_client {
        None
    } else if !e.is_puppet {
        Some(i)
    } else {
        find_real_before(ships, e.object_id, i)
    }
}

fn contains_key(v: &Vec<u64>, key: u64) -> (r: bool)
    ensures
        r == v@.contains(key),
{
    let mut k: usize = 0;
    while k < v.len()
        invariant
            k <= v.len(),
            forall|j: int| 0 <= j < k ==> v@[j] != key,
        decreases v.len() - k,
    {
        if v[k] == key {
            assert(v@[k as int] == key);
            return true;
        }
        k = k + 1;
    }
    false
}

fn is_last_with_key(v: &Vec<u64>, k: usize) -> (r: bool)
    requires
        k < v.len(),
    ensures
        r == last_with_key(v@, k as int),
{
    let mut m = k + 1;
    while m < v.len()
        invariant
            k < m <= v.len(),
            forall|j: int| k < j < m ==> v@[j] != v@[k as int],
        decreases v.len() - m,
    {
        if v[m] == v[k] {
            assert(v@[m as int] == v@[k as int]);
            return false;
        }
        m = m + 1;
    }
    true
}

fn shown_with_key(ships: &Vec<ShipEntry>, shown: &Vec<Option<usize>>, key: u64) -> (r: bool)
    requires
        shown@.len() == ships@.len(),
        forall|i: int| 0 <= i < ships@.len() ==> #[trigger] shown@[i] == label_source(ships@, i),
    ensures
        r == key_shown(ships@, key, ships@.len() as int),
{
    let mut i: usize = 0;
    while i < ships.len()
        invariant
            i <= ships.len(),
            shown@.len() == ships@.len(),
            forall|j: int| 0 <= j < ships@.len() ==> #[trigger] shown@[j] == label_source(ships@, j),
            !key_shown(ships@, key, i as int),
        decreases ships.len() - i,
    {
        if ships[i].entity == key && shown[i].is_some() {
            assert(shown@[i as int] == label_source(ships@, i as int));
            assert(ships@[i as int].entity == key);
            return true;
        }
        assert(!key_shown(ships@, key, i + 1)) by {
            if key_shown(ships@, key, i + 1) {
                let j = choose|j: int|
                    0 <= j < i + 1 && #[trigger] ships@[j].entity == key && label_source(ships@, j) is Some;
                assert(shown@[j] == label_source(ships@, j));
            }
        }
        i = i + 1;
    }
    false
}

/// Decides the ship tags of this frame (the bookkeeping of the game's
/// `ship_labels`), given the ships in the order the game walks them and the
/// keys of the tags that exist.
pub fn plan_labels(ships: &Vec<ShipEntry>, existing: &Vec<u64>) -> (r: LabelPlan)
    ensures
        r.shown@.len() == ships@.len(),
        forall|i: int| 0 <= i < ships@.len() ==> #[trigger] r.shown@[i] == label_source(ships@, i),
        r.create@ == labels_to_create(ships@, existing@, ships@.len() as int),
        r.remove@ == labels_to_remove(ships@, existing@, existing@.len() as int),
        forall|i: int|
            0 <= i < ships@.len() && real_ship_of(ships@, i, ships@[i].object_id) ==> #[trigger] r.shown@[i]
                == Some(i as usize),
        forall|i: int, j: int|
            0 <= j < i < ships@.len() && ships@[i].is_puppet && !ships@[i].dead && ships@[i].has_client
                && #[trigger] real_ship_of(ships@, j, ships@[i].object_id) ==> (#[trigger] r.shown@[i]) is Some,
{
    let r = plan_labels_exact(ships, existing);
    let count = ships.len();
    proof {
        assert(ships@.len() == count);
        assert forall|i: int, j: int|
            0 <= j < i < ships@.len() && ships@[i].is_puppet && !ships@[i].dead && ships@[i].has_client
                && #[trigger] real_ship_of(ships@, j, ships@[i].object_id) implies (#[trigger] r.shown@[i]) is Some by {
            law_ship_tags_are_complete(ships@, i, j);
        }
    }
    r
}

fn plan_labels_exact(ships: &Vec<ShipEntry>, existing: &Vec<u64>) -> (r: LabelPlan)
    ensures
        r.shown@.len() == ships@.len(),
        forall|i: int| 0 <= i < ships@.len() ==> #[trigger] r.shown@[i] == label_source(ships@, i),
        r.create@ == labels_to_create(ships@, existing@, ships@.len() as int),
        r.remove@ == labels_to_remove(ships@, existing@, existing@.len() as int),
{
    let mut shown: Vec<Option<usize>> = Vec::new();
    let mut create: Vec<usize> = Vec::new();
    let mut i: usize = 0;
    while i < ships.len()
        invariant
            i <= ships.len(),
            shown@.len() == i,
            forall|j: int| 0 <= j < i ==> #[trigger] shown@[j] == label_source(ships@, j),
            create@ == labels_to_create(ships@, existing@, i as int),
        decreases ships.len() - i,
    {
        let source = source_of(ships, i);
        if source.is_some() && !contains_key(existing, ships[i].entity) {
            create.push(i);
        }
        shown.push(source);
        i = i + 1;
    }
    let mut remove: Vec<usize> = Vec::new();
    let mut k: usize = 0;
    while k < existing.len()
        invariant
            k <= existing.len(),
            shown@.len() == ships@.len(),
            forall|j: int| 0 <= j < ships@.len() ==> #[trigger] shown@[j] == label_source(ships@, j),
            remove@ == labels_to_remove(ships@, existing@, k as int),
        decreases existing.len() - k,
    {
        if is_last_with_key(existing, k) && !shown_with_key(ships, &shown, existing[k]) {
            remove.push(k);
        }
        k = k + 1;
    }
    LabelPlan { shown, create, remove }
}

fn contains_kind(v: &Vec<PowerUPType>, t: PowerUPType) -> (r: bool)
    ensures
        r == v@.contains(t),
{
    let mut k: usize = 0;
    while k < v.len()
        invariant
            k <= v.len(),
            forall|j: int| 0 <= j < k ==> v@[j] != t,
        decreases v.len() - k,
    {
        if v[k] == t {
            return true;
        }
        k = k + 1;
    }
    false
}

/// The entries of `a` among the first `n`, in order, that `b` lacks, each
/// kept only at its first occurrence.
pub open spec fn missing_from(a: Seq<PowerUPType>, b: Seq<PowerUPType>, n: int) -> Seq<PowerUPType>
    decreases n,
{
    if n <= 0 {
        Seq::empty()
    } else {
        let prev = missing_from(a, b, n - 1);
        if b.contains(a[n - 1]) || prev.contains(a[n - 1]) {
            prev
        } else {
            prev.push(a[n - 1])
        }
    }
}

/// The pick-up icons of a tag to add and to take off: the ship's effects
/// that have no icon yet, and the icons whose effect is over.
pub fn status_icon_changes(current: &Vec<PowerUPType>, existing: &Vec<PowerUPType>) -> (r: (
    Vec<PowerUPType>,
    Vec<PowerUPType>,
))
    ensures
        r.0@ == missing_from(current@, existing@, current@.len() as int),
        r.1@ == missing_from(existing@, current@, existing@.len() as int),
{
    let add = missing(current, existing);
    let drop = missing(existing, current);
    (add, drop)
}

fn missing(a: &Vec<PowerUPType>, b: &Vec<PowerUPType>) -> (r: Vec<PowerUPType>)
    ensures
        r@ == missing_from(a@, b@, a@.len() as int),
{
    let mut out: Vec<PowerUPType> = Vec::new();
    let mut i: usize = 0;
    while i < a.len()
        invariant
            i <= a.len(),
            out@ == missing_from(a@, b@, i as int),
        decreases a.len() - i,
    {
        let t = a[i];
        if !contains_kind(b, t) && !contains_kind(&out, t) {
            out.push(t);
        }
        i = i + 1;
    }
    out
}

proof fn lemma_create_members(ships: Seq<ShipEntry>, existing: Seq<u64>, n: int)
    requires
        0 <= n <= ships.len(),
        ships.len() <= usize::MAX,
    ensures
        forall|t: int|
            0 <= t < labels_to_create(ships, existing, n).len() ==> {
                let i = #[trigger] labels_to_create(ships, existing, n)[t];
                &&& i < n
                &&& label_source(ships, i as int) is Some
                &&& !existing.contains(ships[i as int].entity)
            },
        forall|i: int|
            0 <= i < n && label_source(ships, i) is Some && !existing.contains(#[trigger] ships[i].entity)
                ==> labels_to_create(ships, existing, n).contains(i as usize),
    decreases n,
{
    if n > 0 {
        lemma_create_members(ships, existing, n - 1);
        let prev = labels_to_create(ships, existing, n - 1);
        let cur = labels_to_create(ships, existing, n);
        if label_source(ships, n - 1) is Some && !existing.contains(ships[n - 1].entity) {
            assert(cur == prev.push((n - 1) as usize));
            assert forall|i: int|
                0 <= i < n && label_source(ships, i) is Some && !existing.contains(#[trigger] ships[i].entity)
                implies cur.contains(i as usize) by {
                if i < n - 1 {
                    let t = choose|t: int| 0 <= t < prev.len() && prev[t] == i as usize;
                    assert(cur[t] == i as usize);
                } else {
                    assert(cur[prev.len() as int] == i as usize);
                }
            }
        }
    }
}

proof fn lemma_remove_members(ships: Seq<ShipEntry>, existing: Seq<u64>, n: int)
    requires
        0 <= n <= existing.len(),
        existing.len() <= usize::MAX,
    ensures
        forall|t: int|
            0 <= t < labels_to_remove(ships, existing, n).len() ==> {
                let k = #[trigger] labels_to_remove(ships, existing, n)[t];
                &&& k < n
                &&& !key_shown(ships, existing[k as int], ships.len() as int)
            },
        forall|k: int|
            0 <= k < n && last_with_key(existing, k) && !key_shown(
                ships,
                #[trigger] existing[k],
                ships.len() as int,
            ) ==> labels_to_remove(ships, existing, n).contains(k as usize),
    decreases n,
{
    if n > 0 {
        lemma_remove_members(ships, existing, n - 1);
        let prev = labels_to_remove(ships, existing, n - 1);
        let cur = labels_to_remove(ships, existing, n);
        if last_with_key(existing, n - 1) && !key_shown(ships, existing[n - 1], ships.len() as int) {
            assert(cur == prev.push((n - 1) as usize));
            assert forall|k: int|
                0 <= k < n && last_with_key(existing, k) && !key_shown(
                    ships,
                    #[trigger] existing[k],
                    ships.len() as int,
                ) implies cur.contains(k as usize) by {
                if k < n - 1 {
                    let t = choose|t: int| 0 <= t < prev.len() && prev[t] == k as usize;
                    assert(cur[t] == k as usize);
                } else {
                    assert(cur[prev.len() as int] == k as usize);
                }
            }
        }
    }
}

/// Only living ships of known players carry a tag, and a tag shows the
/// numbers of a living real ship of a known player with the same object id
/// (the ship itself, or for a puppet its real ship, walked before it).
pub proof fn law_tags_only_for_living_known_ships(ships: Seq<ShipEntry>, i: int)
    requires
        0 <= i < ships.len(),
        ships.len() <= usize::MAX,
    ensures
        label_source(ships, i) matches Some(j) ==> {
            &&& j <= i
            &&& !ships[i].dead && ships[i].has_client
            &&& !ships[j as int].is_puppet && !ships[j as int].dead && ships[j as int].has_client
            &&& ships[j as int].object_id == ships[i].object_id
        },
{
    lemma_last_real_before(ships, ships[i].object_id, i);
}

proof fn lemma_last_real_before(ships: Seq<ShipEntry>, id: u64, n: int)
    requires
        0 <= n <= ships.len(),
        ships.len() <= usize::MAX,
    ensures
        last_real_before(ships, id, n) matches Some(j) ==> {
            &&& j < n
            &&& !ships[j as int].is_puppet && !ships[j as int].dead && ships[j as int].has_client
            &&& ships[j as int].object_id == id
        },
    decreases n,
{
    if n > 0 {
        lemma_last_real_before(ships, id, n - 1);
    }
}

/// After the frame's changes (when no two existing tags share a key), the
/// tags that exist are exactly those of the ships that carry one: an
/// existing tag stays exactly when its ship still carries one, and a tag is
/// made for every ship that carries one and had none.
pub proof fn law_tags_match_ships(ships: Seq<ShipEntry>, existing: Seq<u64>, key: u64)
    requires
        existing.no_duplicates(),
        ships.len() <= usize::MAX,
        existing.len() <= usize::MAX,
    ensures
        ({
            let create = labels_to_create(ships, existing, ships.len() as int);
            let remove = labels_to_remove(ships, existing, existing.len() as int);
            let kept = existing.contains(key) && !(exists|t: int|
                0 <= t < remove.len() && existing[#[trigger] remove[t] as int] == key);
            let made = exists|t: int| 0 <= t < create.len() && ships[#[trigger] create[t] as int].entity == key;
            (kept || made) <==> key_shown(ships, key, ships.len() as int)
        }),
{
    let n = ships.len() as int;
    let create = labels_to_create(ships, existing, n);
    let remove = labels_to_remove(ships, existing, existing.len() as int);
    lemma_create_members(ships, existing, n);
    lemma_remove_members(ships, existing, existing.len() as int);
    let kept = existing.contains(key) && !(exists|t: int|
        0 <= t < remove.len() && existing[#[trigger] remove[t] as int] == key);
    let made = exists|t: int| 0 <= t < create.len() && ships[#[trigger] create[t] as int].entity == key;
    if key_shown(ships, key, n) {
        let i = choose|i: int| 0 <= i < n && #[trigger] ships[i].entity == key && label_source(ships, i) is Some;
        if existing.contains(key) {
            let k = choose|k: int| 0 <= k < existing.len() && existing[k] == key;
            if exists|t: int| 0 <= t < remove.len() && existing[#[trigger] remove[t] as int] == key {
                let t = choose|t: int| 0 <= t < remove.len() && existing[#[trigger] remove[t] as int] == key;
                assert(!key_shown(ships, existing[remove[t] as int], n));
            }
            assert(kept);
        } else {
            assert(create.contains(i as usize));
            let t = choose|t: int| 0 <= t < create.len() && create[t] == i as usize;
            assert(ships[create[t] as int].entity == key);
            assert(made);
        }
    } else {
        if made {
            let t = choose|t: int| 0 <= t < create.len() && ships[#[trigger] create[t] as int].entity == key;
            let i = create[t] as int;
            assert(ships[i].entity == key && label_source(ships, i) is Some);
            assert(key_shown(ships, key, n));
        }
        if existing.contains(key) {
            let k = choose|k: int| 0 <= k < existing.len() && existing[k] == key;
            assert(last_with_key(existing, k));
            assert(!key_shown(ships, existing[k], n));
            assert(remove.contains(k as usize));
            let t = choose|t: int| 0 <= t < remove.len() && remove[t] == k as usize;
            assert(existing[remove[t] as int] == key);
        }
    }
}

/// Whether ship `m` is a living real ship of a known player with object id `id`.
pub open spec fn real_ship_of(ships: Seq<ShipEntry>, m: int, id: u64) -> bool {
    !ships[m].is_puppet && !ships[m].dead && ships[m].has_client && ships[m].object_id == id
}

proof fn lemma_last_real_found(ships: Seq<ShipEntry>, id: u64, n: int, j: int)
    requires
        0 <= j < n <= ships.len(),
        ships.len() <= usize::MAX,
        real_ship_of(ships, j, id),
    ensures
        last_real_before(ships, id, n) matches Some(k) && j <= k < n && real_ship_of(ships, k as int, id)
            && forall|m: int| k < m < n ==> !#[trigger] real_ship_of(ships, m, id),
    decreases n,
{
    if !real_ship_of(ships, n - 1, id) {
        lemma_last_real_found(ships, id, n - 1, j);
    }
}

/// A real ship that is alive and whose player is known shows its own
/// numbers. A living puppet of a known player whose real ship (living, of a
/// known player, with the same object id) was walked before it carries a
/// tag, showing the numbers of the last such real ship before it.
pub proof fn law_ship_tags_are_complete(ships: Seq<ShipEntry>, i: int, j: int)
    requires
        0 <= j < i < ships.len(),
        ships.len() <= usize::MAX,
    ensures
        real_ship_of(ships, j, ships[j].object_id) ==> label_source(ships, j) == Some(j as usize),
        ships[i].is_puppet && !ships[i].dead && ships[i].has_client && real_ship_of(
            ships,
            j,
            ships[i].object_id,
        ) ==> (label_source(ships, i) matches Some(k) && j <= k < i && real_ship_of(
            ships,
            k as int,
            ships[i].object_id,
        ) && forall|m: int| k < m < i ==> !#[trigger] real_ship_of(ships, m, ships[i].object_id)),
{
    if ships[i].is_puppet && !ships[i].dead && ships[i].has_client && real_ship_of(
        ships,
        j,
        ships[i].object_id,
    ) {
        lemma_last_real_found(ships, ships[i].object_id, i, j);
    }
}

} // verus!
