//! The client side of a world update: which local objects to move, which to
//! create, which to drop, and the "you are dead" label.

use vstd::prelude::*;

verus! {

/// An object of a world update from the server.
#[derive(Clone, Copy, Debug)]
pub struct IncomingObject {
    pub id: u64,
    /// Whether the client can create the object (a ship needs its owner's
    /// client data for that).
    pub spawnable: bool,
}

/// What to do with one object of the update.
#[derive(Clone, Copy, Debug, PartialEq, Eq, Structural)]
pub enum SyncAction {
    /// Move the local object at this index of the local list to the new state.
    Update(usize),
    /// Create a local object.
    Spawn,
    /// Leave it out.
    Skip,
}

/// The client's reaction to one world update.
pub struct SyncPlan {
    /// Per object of the update, in order.
    pub actions: Vec<SyncAction>,
    /// Indices into the local list of the objects to drop, ascending.
    pub despawn: Vec<usize>,
}

/// The index of the local object a lookup by id finds (the last one with that
/// id), or -1.
pub open spec fn local_index(ids: Seq<u64>, id: u64) -> int
    decreases ids.len(),
{
    if ids.len() == 0 {
        -1
    } else if ids.last() == id {
        ids.len() - 1
    } else {
        local_index(ids.drop_last(), id)
    }
}

pub open spec fn sync_action(ids: Seq<u64>, u: IncomingObject) -> SyncAction {
    if local_index(ids, u.id) >= 0 {
        SyncAction::Update(local_index(ids, u.id) as usize)
    } else if u.spawnable {
        SyncAction::Spawn
    } else {
        SyncAction::Skip
    }
}

pub open spec fn updated_id(updates: Seq<IncomingObject>, id: u64) -> bool {
    exists|i: int| 0 <= i < updates.len() && #[trigger] updates[i].id == id
}

/// The local objects, among the first `k`, to drop: those the lookup by id
/// finds and that the update does not mention. An empty update drops nothing.
pub open spec fn dropped(ids: Seq<u64>, updates: Seq<IncomingObject>, k: int) -> Seq<usize>
    decreases k,
{
    if k <= 0 || updates.len() == 0 {
        Seq::empty()
    } else {
        let prev = dropped(ids, updates, k - 1);
        if local_index(ids, ids[k - 1]) == k - 1 && !updated_id(updates, ids[k - 1]) {
            prev.push((k - 1) as usize)
        } else {
            prev
        }
    }
}

/// An update that would make the client create the same object twice
/// (the second time it would look for a local object that is not there yet).
pub open spec fn creates_twice(ids: Seq<u64>, updates: Seq<IncomingObject>) -> bool {
    exists|i: int, j: int|
        0 <= i < j < updates.len() && #[trigger] updates[i].id == #[trigger] updates[j].id
            && local_index(ids, updates[i].id) == -1 && updates[i].spawnable
}

fn find_local(ids: &Vec<u64>, id: u64) -> (r: Option<usize>)
    ensures
        match r {
            Some(j) => j as int == local_index(ids@, id),
            None => local_index(ids@, id) == -1,
        },
{
    let mut k = ids.len();
    assert(ids@.take(k as int) =~= ids@);
    while k > 0
        invariant
            k <= ids.len(),
            local_index(ids@, id) == local_index(ids@.take(k as int), id),
        decreases k,
    {
        assert(ids@.take(k as int).drop_last() =~= ids@.take(k - 1));
        if ids[k - 1] == id {
            return Some(k - 1);
        }
        k = k - 1;
    }
    None
}

fn mentions(updates: &Vec<IncomingObject>, id: u64) -> (r: bool)
    ensures
        r == updated_id(updates@, id),
{
    let mut i: usize = 0;
    while i < updates.len()
        invariant
            i <= updates.len(),
            forall|j: int| 0 <= j < i ==> updates@[j].id != id,
        decreases updates.len() - i,
    {
        if updates[i].id == id {
            return true;
        }
        i = i + 1;
    }
    false
}

/// How the client applies a world update to its local objects with ids
/// `local_ids` (the bookkeeping of the client's message handling).
pub fn plan_object_sync(local_ids: &Vec<u64>, updates: &Vec<IncomingObject>) -> (r: SyncPlan)
    requires
        !creates_twice(local_ids@, updates@),
    ensures
        r.actions@ == updates@.map_values(|u: IncomingObject| sync_action(local_ids@, u)),
        r.despawn@ == dropped(local_ids@, updates@, local_ids@.len() as int),
{
    let mut actions: Vec<SyncAction> = Vec::new();
    let mut i: usize = 0;
    while i < updates.len()
        invariant
            i <= updates.len(),
            actions@ == updates@.take(i as int).map_values(
                |u: IncomingObject| sync_action(local_ids@, u),
            ),
        decreases updates.len() - i,
    {
        let u = updates[i];
        let action = match find_local(local_ids, u.id) {
            Some(j) => SyncAction::Update(j),
            None => if u.spawnable {
                SyncAction::Spawn
            } else {
                SyncAction::Skip
            },
        };
        actions.push(action);
        assert(updates@.take(i + 1).map_values(|u: IncomingObject| sync_action(local_ids@, u))
            =~= updates@.take(i as int).map_values(
            |u: IncomingObject| sync_action(local_ids@, u),
        ).push(sync_action(local_ids@, u)));
        i = i + 1;
    }
    assert(updates@.take(i as int) =~= updates@);
    let mut despawn: Vec<usize> = Vec::new();
    if updates.len() != 0 {
        let mut k: usize = 0;
        while k < local_ids.len()
            invariant
                k <= local_ids.len(),
                updates@.len() != 0,
                despawn@ == dropped(local_ids@, updates@, k as int),
            decreases local_ids.len() - k,
        {
            let id = local_ids[k];
            let found = find_local(local_ids, id);
            if found == Some(k) && !mentions(updates, id) {
                despawn.push(k);
            }
            k = k + 1;
        }
    }
    SyncPlan { actions, despawn }
}

/// What to do with the "you are dead" label this frame.
#[derive(Clone, Copy, Debug, PartialEq, Eq, Structural)]
pub enum LabelAction {
    /// The player just died: show the label.
    Show,
    /// The player just came back: remove the label.
    Hide,
    /// Still dead: update the countdown.
    Refresh,
    /// Still alive: nothing.
    Keep,
}

/// The label step, from whether the player is dead now and was dead in the
/// previous frame.
pub fn death_label_step(dead_now: bool, dead_before: bool) -> (r: LabelAction)
    ensures
        r == if dead_now != dead_before {
            if dead_now { LabelAction::Show } else { LabelAction::Hide }
        } else if dead_now {
            LabelAction::Refresh
        } else {
            LabelAction::Keep
        },
{
    if dead_now != dead_before {
        if dead_now {
            LabelAction::Show
        } else {
            LabelAction::Hide
        }
    } else if dead_now {
        LabelAction::Refresh
    } else {
        LabelAction::Keep
    }
}

proof fn lemma_dropped(ids: Seq<u64>, updates: Seq<IncomingObject>, k: int)
    requires
        0 <= k <= ids.len(),
        ids.len() <= usize::MAX,
        updates.len() > 0,
    ensures
        ({
            let d = dropped(ids, updates, k);
            &&& forall|t: int|
                0 <= t < d.len() ==> {
                    &&& (#[trigger] d[t]) < k
                    &&& !updated_id(updates, ids[d[t] as int])
                    &&& local_index(ids, ids[d[t] as int]) == d[t]
                }
            &&& forall|a: int, b: int| 0 <= a < b < d.len() ==> #[trigger] d[a] < #[trigger] d[b]
            &&& forall|j: int|
                0 <= j < k && local_index(ids, ids[j]) == j && !updated_id(updates, ids[j])
                    ==> d.contains(j as usize)
        }),
    decreases k,
{
    if k > 0 {
        lemma_dropped(ids, updates, k - 1);
        let prev = dropped(ids, updates, k - 1);
        let d = dropped(ids, updates, k);
        if local_index(ids, ids[k - 1]) == k - 1 && !updated_id(updates, ids[k - 1]) {
            assert(d == prev.push((k - 1) as usize));
            assert forall|j: int|
                0 <= j < k && local_index(ids, ids[j]) == j && !updated_id(updates, ids[j])
                implies d.contains(j as usize) by {
                if j < k - 1 {
                    let t = choose|t: int| 0 <= t < prev.len() && prev[t] == j as usize;
                    assert(d[t] == j as usize);
                } else {
                    assert(d[prev.len() as int] == j as usize);
                }
            }
            assert forall|a: int, b: int| 0 <= a < b < d.len() implies #[trigger] d[a] < #[trigger] d[b] by {
                if b < prev.len() {
                    assert(d[a] == prev[a] && d[b] == prev[b]);
                } else {
                    assert(d[a] == prev[a]);
                }
            }
        }
    }
}

/// After a world update that mentions anything, the client drops exactly the
/// local objects whose id the update no longer mentions (one object per id,
/// each once, in ascending order), and so keeps every object it mentions; an
/// empty update drops nothing.
pub proof fn law_sync_drops_exactly_the_unmentioned(ids: Seq<u64>, updates: Seq<IncomingObject>)
    requires
        ids.len() <= usize::MAX,
    ensures
        updates.len() == 0 ==> dropped(ids, updates, ids.len() as int) == Seq::<usize>::empty(),
        updates.len() > 0 ==> {
            let d = dropped(ids, updates, ids.len() as int);
            &&& forall|t: int|
                0 <= t < d.len() ==> {
                    &&& (#[trigger] d[t]) < ids.len()
                    &&& !updated_id(updates, ids[d[t] as int])
                    &&& local_index(ids, ids[d[t] as int]) == d[t]
                }
            &&& forall|a: int, b: int| 0 <= a < b < d.len() ==> #[trigger] d[a] < #[trigger] d[b]
            &&& forall|j: int|
                0 <= j < ids.len() && local_index(ids, ids[j]) == j && !updated_id(updates, ids[j])
                    ==> d.contains(j as usize)
        },
{
    if updates.len() > 0 {
        lemma_dropped(ids, updates, ids.len() as int);
    }
}

} // verus!
