//! The server's bots: their ordered numbers, the inputs they decided on, and
//! whether a fresh view of the world came in for them.

use vstd::prelude::*;
use crate::components::InputKeys;
use crate::maps::{BevyMap, bot_inputs, bot_numbers, id_flags, ordered_bots};

verus! {

/// The abstract contents of a `BotList`.
pub struct BotsView {
    /// Ordered bot number -> client id.
    pub order: Map<u16, u64>,
    /// Client id -> ordered bot number.
    pub numbers: Map<u64, u16>,
    /// Client id -> the inputs the bot decided on last.
    pub responses: Map<u64, InputKeys>,
    /// Client id -> whether the last world view is still unread.
    pub fresh: Map<u64, bool>,
}

/// The number the next registered bot gets: one more than the number of
/// registered bots, counted in `u16`.
pub open spec fn next_bot_number(registered: nat) -> u16 {
    ((registered % 65536) + 1) as u16
}

impl BotsView {
    pub open spec fn registered(self, client_id: u64) -> BotsView {
        let n = next_bot_number(self.order.dom().len());
        BotsView {
            order: self.order.insert(n, client_id),
            numbers: self.numbers.insert(client_id, n),
            ..self
        }
    }

    pub open spec fn unregistered(self, client_id: u64) -> BotsView {
        BotsView {
            order: self.order.remove(self.numbers[client_id]),
            numbers: self.numbers.remove(client_id),
            ..self
        }
    }

    pub open spec fn bot_id(self, number: u16) -> Option<u64> {
        if self.order.dom().contains(number) {
            Some(self.order[number])
        } else {
            None
        }
    }

    pub open spec fn response(self, client_id: u64) -> Option<InputKeys> {
        if self.responses.dom().contains(client_id) {
            Some(self.responses[client_id])
        } else {
            None
        }
    }

    /// Whether the bot's world view is fresh; a bot with no view yet counts as fresh.
    pub open spec fn state_updated(self, client_id: u64) -> bool {
        !self.fresh.dom().contains(client_id) || self.fresh[client_id]
    }
}

/// The bots the server runs.
pub struct BotList {
    binds: BevyMap<u16, u64>,
    reverse_binds: BevyMap<u64, u16>,
    responses: BevyMap<u64, InputKeys>,
    is_world_state_fresh: BevyMap<u64, bool>,
}

impl View for BotList {
    type V = BotsView;

    closed spec fn view(&self) -> BotsView {
        BotsView {
            order: ordered_bots(self.binds),
            numbers: bot_numbers(self.reverse_binds),
            responses: bot_inputs(self.responses),
            fresh: id_flags(self.is_world_state_fresh),
        }
    }
}

impl BotList {
    /// The bookkeeping keeps finitely many bots.
    pub closed spec fn wf(&self) -> bool {
        ordered_bots(self.binds).dom().finite()
    }
}

impl Default for BotList {
    /// No bots.
    fn default() -> (r: Self)
        ensures
            r.wf(),
            r@.order == Map::<u16, u64>::empty(),
            r@.numbers == Map::<u64, u16>::empty(),
            r@.responses == Map::<u64, InputKeys>::empty(),
            r@.fresh == Map::<u64, bool>::empty(),
    {
        let r = BotList {
            binds: BevyMap::new_ordered(),
            reverse_binds: BevyMap::new_numbers(),
            responses: BevyMap::new_inputs(),
            is_world_state_fresh: BevyMap::new_flags(),
        };
        assert(r@.order =~= Map::empty());
        assert(r@.numbers =~= Map::empty());
        assert(r@.responses =~= Map::empty());
        assert(r@.fresh =~= Map::empty());
        r
    }
}

impl BotList {
    /// Registers the bot that plays as client `client_id`, under the next
    /// ordered number. The number is counted in `u16`; the count just before
    /// wrapping would overflow it.
    pub fn register_bot(&mut self, client_id: u64)
        requires
            old(self).wf(),
            old(self)@.order.dom().len() % 65536 != 65535,
        ensures
            final(self).wf(),
            final(self)@ == old(self)@.registered(client_id),
    {
        let count = self.binds.len_ordered();
        let low = #[verifier::truncate] (count as u16);
        assert((count as u16) as int == count as int % 65536) by (bit_vector);
        let id = low + 1;
        assert(id == next_bot_number(old(self)@.order.dom().len()));
        self.binds.insert_ordered(id, client_id);
        self.reverse_binds.insert_number(client_id, id);
    }

    /// How many bots hold an ordered number: what `register_bot` counts to
    /// number the next one.
    pub fn registered_count(&self) -> (r: usize)
        ensures
            r == self@.order.dom().len(),
    {
        self.binds.len_ordered()
    }

    /// Forgets the bot of client `client_id`, which must be registered.
    pub fn unregister_bot(&mut self, client_id: &u64)
        requires
            old(self).wf(),
            old(self)@.numbers.dom().contains(*client_id),
        ensures
            final(self).wf(),
            final(self)@ == old(self)@.unregistered(*client_id),
    {
        let oid = self.reverse_binds.get_number(*client_id).unwrap();
        self.reverse_binds.remove_number(*client_id);
        self.binds.remove_ordered(oid);
    }

    /// The client id of the bot with ordered number `oredered_id`.
    pub fn get_bot_id(&self, oredered_id: u16) -> (r: Option<&u64>)
        ensures
            r.is_some() == self@.bot_id(oredered_id).is_some(),
            r.is_some() ==> *r.unwrap() == self@.bot_id(oredered_id).unwrap(),
    {
        return self.binds.get_ordered(oredered_id);
    }

    /// The client ids of all bots, each once, in no stated order.
    pub fn get_bots_client_ids(&self) -> (r: Vec<u64>)
        ensures
            r@.no_duplicates(),
            r@.to_set() == self@.numbers.dom(),
    {
        return self.reverse_binds.number_keys();
    }

    /// Does nothing.
    pub fn get_bot_binds(&self) {
    }

    /// The inputs bot `id` decided on last.
    pub fn get_bot_response(&self, id: &u64) -> (r: Option<&InputKeys>)
        ensures
            r.is_some() == self@.response(*id).is_some(),
            r.is_some() ==> *r.unwrap() == self@.response(*id).unwrap(),
    {
        return self.responses.get_input(*id);
    }

    /// Stores the inputs bot `id` decided on.
    pub fn set_bot_response(&mut self, id: &u64, inputs: InputKeys)
        requires
            old(self).wf(),
        ensures
            final(self).wf(),
            final(self)@ == (BotsView { responses: old(self)@.responses.insert(*id, inputs), ..old(self)@ }),
    {
        self.responses.insert_input(*id, inputs);
    }

    /// Notes that a fresh world view came in for bot `id`.
    pub fn mark_world_state_fresh(&mut self, id: u64)
        requires
            old(self).wf(),
        ensures
            final(self).wf(),
            final(self)@ == (BotsView { fresh: old(self)@.fresh.insert(id, true), ..old(self)@ }),
    {
        self.is_world_state_fresh.insert_flag(id, true);
    }

    /// Whether bot `id` has a fresh world view; one that never had a view counts as fresh.
    pub fn is_state_updated(&self, id: &u64) -> (r: bool)
        ensures
            r == self@.state_updated(*id),
    {
        let res = self.is_world_state_fresh.get_flag(*id);
        if res.is_none() {
            return true;
        }
        return res.unwrap();
    }
}

/// A registered bot is found under the number it was given, and knows that number.
pub proof fn law_register_then_lookup(v: BotsView, client_id: u64)
    ensures
        v.registered(client_id).bot_id(next_bot_number(v.order.dom().len())) == Some(client_id),
        v.registered(client_id).numbers[client_id] == next_bot_number(v.order.dom().len()),
{
}

/// An unregistered bot is neither listed nor found under its old number.
pub proof fn law_unregister_forgets(v: BotsView, client_id: u64)
    requires
        v.numbers.dom().contains(client_id),
    ensures
        !v.unregistered(client_id).numbers.dom().contains(client_id),
        v.unregistered(client_id).bot_id(v.numbers[client_id]).is_none(),
{
}

/// The inputs stored for a bot are the ones read back.
pub proof fn law_response_read_back(v: BotsView, id: u64, inputs: InputKeys)
    ensures
        (BotsView { responses: v.responses.insert(id, inputs), ..v }).response(id) == Some(inputs),
{
}

} // verus!
