//! Who plays: the data of each client, found by client id or by the id of
//! the ship it flies.

use bevy::ecs::entity::Entity;
use vstd::prelude::*;
use crate::maps::{BevyMap, client_entries, id_binds};
use crate::outside::placeholder_entity;

verus! {

/// One player.
pub struct ClientData {
    pub client_id: u64,
    /// The id of the player's ship object.
    pub object_id: u64,
    /// The ship's entity.
    pub entity: Entity,
    pub style: u8,
    /// The ship colour: the bit patterns of its red, green, blue and alpha
    /// components, as `f32::to_bits` gives them. The library never reads them.
    pub color: [u32; 4],
    pub name: String,
}

impl ClientData {
    /// Data for a ship that is about to spawn: client 0, no entity yet, and
    /// the name "PLACEHOLDER".
    pub fn for_spawn(style: u8, color: [u32; 4], object_id: u64) -> (r: Self)
        ensures
            r.client_id == 0,
            r.object_id == object_id,
            r.style == style,
            r.color == color,
            r.name@ == "PLACEHOLDER"@,
    {
        ClientData {
            client_id: 0,
            object_id: object_id,
            style: style,
            entity: placeholder_entity(),
            color: color,
            name: "PLACEHOLDER".to_owned(),
        }
    }
}

/// The abstract contents of a `ClientsData`: which client flies which ship
/// object, and the data of each client.
pub struct ClientsView {
    pub binds: Map<u64, u64>,
    pub data: Map<u64, ClientData>,
}

impl ClientsView {
    /// The data of client `key`.
    pub open spec fn client(self, key: u64) -> Option<ClientData> {
        if self.data.dom().contains(key) {
            Some(self.data[key])
        } else {
            None
        }
    }

    /// The data of the client bound to ship object `key`.
    pub open spec fn client_of_object(self, key: u64) -> Option<ClientData> {
        if self.binds.dom().contains(key) {
            self.client(self.binds[key])
        } else {
            None
        }
    }

    pub open spec fn with_client(self, d: ClientData) -> ClientsView {
        ClientsView {
            binds: self.binds.insert(d.object_id, d.client_id),
            data: self.data.insert(d.client_id, d),
        }
    }

    pub open spec fn without_object(self, key: u64) -> ClientsView {
        ClientsView { binds: self.binds.remove(key), data: self.data.remove(self.binds[key]) }
    }

    /// Removes client `key`, and the binding of object id `key` (the game
    /// removes the binding under the client's id).
    pub open spec fn without_client(self, key: u64) -> ClientsView {
        ClientsView { binds: self.binds.remove(key), data: self.data.remove(key) }
    }
}

/// All clients known to this side of the connection.
pub struct ClientsData {
    binds: BevyMap<u64, u64>,
    data: BevyMap<u64, ClientData>,
}

impl View for ClientsData {
    type V = ClientsView;

    closed spec fn view(&self) -> ClientsView {
        ClientsView { binds: id_binds(self.binds), data: client_entries(self.data) }
    }
}

impl Default for ClientsData {
    /// No clients.
    fn default() -> (r: Self)
        ensures
            r@.binds == Map::<u64, u64>::empty(),
            r@.data == Map::<u64, ClientData>::empty(),
    {
        ClientsData { binds: BevyMap::new_binds(), data: BevyMap::new_clients() }
    }
}

impl ClientsData {
    /// Forgets every client but the one stored under id 0 (this client).
    pub fn clean_exclude_me(&mut self)
        requires
            old(self)@.data.dom().contains(0),
        ensures
            final(self)@ == (ClientsView {
                binds: Map::empty(),
                data: Map::empty(),
            }).with_client(old(self)@.data[0]),
    {
        let saved = self.data.remove_client(0);
        let to_save = saved.unwrap();
        self.binds = BevyMap::new_binds();
        self.data = BevyMap::new_clients();
        assert(self@.binds =~= Map::empty());
        assert(self@.data =~= Map::empty());
        self.add(to_save);
    }

    /// The data of the client that flies ship object `key`, if any.
    pub fn get_option_by_object_id(&self, key: u64) -> (r: Option<&ClientData>)
        ensures
            r.is_some() == self@.client_of_object(key).is_some(),
            r.is_some() ==> *r.unwrap() == self@.client_of_object(key).unwrap(),
    {
        let client = self.binds.get_bind(key);
        if client.is_some() {
            return self.data.get_client(client.unwrap());
        }
        return None;
    }

    /// The data of client `key`, which must be known.
    pub fn get_by_client_id(&self, key: u64) -> (r: &ClientData)
        requires
            self@.data.dom().contains(key),
        ensures
            *r == self@.data[key],
    {
        self.data.get_client(key).unwrap()
    }

    /// The data of client `key`, if known.
    pub fn get_option_by_client_id(&self, key: &u64) -> (r: Option<&ClientData>)
        ensures
            r.is_some() == self@.client(*key).is_some(),
            r.is_some() ==> *r.unwrap() == self@.client(*key).unwrap(),
    {
        self.data.get_client(*key)
    }

    /// The data of client `key`, which must be known, for changing in place.
    pub fn get_mut_by_client_id(&mut self, key: u64) -> (r: &mut ClientData)
        requires
            old(self)@.data.dom().contains(key),
        ensures
            *r == old(self)@.data[key],
            final(self)@.binds == old(self)@.binds,
            final(self)@.data == old(self)@.data.insert(key, *final(r)),
    {
        self.data.get_client_mut(key)
    }

    /// Registers a client: its data under its client id, and its ship object
    /// bound to it.
    pub fn add(&mut self, data: ClientData)
        ensures
            final(self)@ == old(self)@.with_client(data),
    {
        self.binds.insert_bind(data.object_id, data.client_id);
        self.data.insert_client(data.client_id, data);
    }

    /// Forgets the client that flies ship object `key`, which must be bound.
    pub fn remove_by_object_id(&mut self, key: u64)
        requires
            old(self)@.binds.dom().contains(key),
        ensures
            final(self)@ == old(self)@.without_object(key),
    {
        let k = self.binds.get_bind(key).unwrap();
        self.data.remove_client(k);
        self.binds.remove_bind(key);
    }

    /// Forgets client `key`.
    pub fn remove_by_client_id(&mut self, key: u64)
        ensures
            final(self)@ == old(self)@.without_client(key),
    {
        self.data.remove_client(key);
        self.binds.remove_bind(key);
    }
}

/// Reading after registering: a registered client is found by its client id
/// and by its ship's object id.
pub proof fn law_add_then_lookup(v: ClientsView, d: ClientData)
    ensures
        v.with_client(d).client(d.client_id) == Some(d),
        v.with_client(d).client_of_object(d.object_id) == Some(d),
{
}

/// Registering a client leaves every other client as it was.
pub proof fn law_add_keeps_others(v: ClientsView, d: ClientData, other: u64)
    requires
        other != d.client_id,
    ensures
        v.with_client(d).client(other) == v.client(other),
{
}

/// A forgotten client is no longer found by its client id.
pub proof fn law_removed_client_is_gone(v: ClientsView, key: u64)
    ensures
        v.without_client(key).client(key).is_none(),
{
}

/// A client forgotten through its ship is no longer found through that ship.
pub proof fn law_removed_object_is_gone(v: ClientsView, key: u64)
    requires
        v.binds.dom().contains(key),
    ensures
        v.without_object(key).client_of_object(key).is_none(),
{
}

} // verus!
