//! The server's table of connected clients: for each user id, the channel
//! on which that client's connection sends out frames.

use vstd::prelude::*;
use dashmap::DashMap;
use bytes::Bytes;
use tokio::sync::mpsc::Sender;
use crate::error::ChatError;
use crate::message::ClientMessage;
use crate::wire::u64_from_be;

verus! {

#[verifier::external_type_specification]
#[verifier::external_body]
#[verifier::reject_recursive_types(T)]
pub struct ExSender<T>(Sender<T>);

#[verifier::external_type_specification]
#[verifier::external_body]
pub struct ExBytes(Bytes);

/// What a map of connected clients holds: for each user id that has a
/// channel, the tag of the connection that channel leads to and the channel.
pub uninterp spec fn channel_entries(m: DashMap<u64, (u64, Sender<Bytes>)>) -> Map<u64, (u64, Sender<Bytes>)>;

/// No client has a channel.
pub open spec fn no_channels() -> Map<u64, (u64, Sender<Bytes>)> {
    Map::empty()
}

/// `DashMap::new`: an empty map.
#[verifier::external_body]
fn client_map_new() -> (r: DashMap<u64, (u64, Sender<Bytes>)>)
    ensures
        channel_entries(r) == no_channels(),
{
    DashMap::new()
}

/// `DashMap::insert`: `id` now has the channel `sender` of connection
/// `tag`; other ids keep theirs.
#[verifier::external_body]
fn client_map_insert(m: &mut DashMap<u64, (u64, Sender<Bytes>)>, id: u64, tag: u64, sender: Sender<Bytes>)
    ensures
        channel_entries(*final(m)) == channel_entries(*old(m)).insert(id, (tag, sender)),
{
    m.insert(id, (tag, sender));
}

/// `DashMap::remove`: `id` no longer has a channel; other ids keep theirs.
#[verifier::external_body]
fn client_map_remove(m: &mut DashMap<u64, (u64, Sender<Bytes>)>, id: u64)
    ensures
        channel_entries(*final(m)) == channel_entries(*old(m)).remove(id),
{
    m.remove(&id);
}

/// `DashMap::get`, with the entry cloned: the tag and channel stored for
/// `id`, if it has one. A clone of a `Sender` is a handle to the same
/// channel, and is taken here as the stored channel.
#[verifier::external_body]
fn client_map_get(m: &DashMap<u64, (u64, Sender<Bytes>)>, id: u64) -> (r: Option<(u64, Sender<Bytes>)>)
    ensures
        r is Some <==> channel_entries(*m).dom().contains(id),
        r matches Some(e) ==> e == channel_entries(*m)[id],
{
    m.get(&id).as_deref().cloned()
}

/// `DashMap::contains_key`: whether `id` has a channel.
#[verifier::external_body]
fn client_map_contains(m: &DashMap<u64, (u64, Sender<Bytes>)>, id: u64) -> (r: bool)
    ensures
        r == channel_entries(*m).dom().contains(id),
{
    m.contains_key(&id)
}

/// Where an incoming chat frame goes.
pub enum Route {
    /// To the connection `tag` of `recipient_id`, through its channel.
    Deliver { recipient_id: u64, tag: u64, sender: Sender<Bytes> },
    /// Nowhere: no client of this id is connected.
    UnknownRecipient(u64),
    /// Nowhere: the frame has no complete header.
    Undecodable(ChatError),
}

/// A client is connected, on the connection and channel it registered
/// with, from its registration until its deregistration; registering or
/// deregistering one client leaves the others' connections as they were.
pub proof fn lemma_registration(
    entries: Map<u64, (u64, Sender<Bytes>)>,
    id: u64,
    entry: (u64, Sender<Bytes>),
    other: u64,
)
    requires
        other != id,
    ensures
        entries.insert(id, entry).dom().contains(id) && entries.insert(id, entry)[id] == entry,
        !entries.insert(id, entry).remove(id).dom().contains(id),
        entries.insert(id, entry).dom().contains(other) == entries.dom().contains(other),
        entries.dom().contains(other) ==> entries.insert(id, entry)[other] == entries[other],
        entries.remove(id).dom().contains(other) == entries.dom().contains(other),
        entries.dom().contains(other) ==> entries.remove(id)[other] == entries[other],
{
}

/// The channels of the connected clients by user id, each kept with the tag
/// of the connection it leads to.
pub struct ClientRegistry {
    clients: DashMap<u64, (u64, Sender<Bytes>)>,
}

impl ClientRegistry {
    /// For each connected client, the tag of its connection and its channel.
    pub closed spec fn entries(&self) -> Map<u64, (u64, Sender<Bytes>)> {
        channel_entries(self.clients)
    }

    /// The ids of the connected clients.
    pub open spec fn ids(&self) -> Set<u64> {
        self.entries().dom()
    }

    /// A table with no client.
    pub fn new() -> (r: ClientRegistry)
        ensures
            r.entries() == no_channels(),
    {
        ClientRegistry { clients: client_map_new() }
    }

    /// Records the channel of the client `id`, which leads to the connection
    /// `tag`, replacing an earlier one.
    pub fn register(&mut self, id: u64, tag: u64, sender: Sender<Bytes>)
        ensures
            final(self).entries() == old(self).entries().insert(id, (tag, sender)),
    {
        client_map_insert(&mut self.clients, id, tag, sender);
    }

    /// Forgets the client `id`.
    pub fn deregister(&mut self, id: u64)
        ensures
            final(self).entries() == old(self).entries().remove(id),
    {
        client_map_remove(&mut self.clients, id);
    }

    /// The connection tag and channel of the client `id`, if it is connected.
    pub fn get_sender(&self, id: u64) -> (r: Option<(u64, Sender<Bytes>)>)
        ensures
            r is Some <==> self.ids().contains(id),
            r matches Some(e) ==> e == self.entries()[id],
    {
        client_map_get(&self.clients, id)
    }

    /// Whether the client `id` is connected.
    pub fn is_registered(&self, id: u64) -> (r: bool)
        ensures
            r == self.ids().contains(id),
    {
        client_map_contains(&self.clients, id)
    }

    /// Where a chat frame received from a client goes: to the connection of
    /// the recipient named in its header, when that recipient is connected.
    /// Only the header is read.
    pub fn route(&self, raw: &[u8]) -> (r: Route)
        ensures
            raw@.len() < 8 ==> (r matches Route::Undecodable(e) && e is Protocol),
            raw@.len() >= 8 ==> {
                let id = u64_from_be(raw@);
                &&& self.ids().contains(id) ==> (r matches Route::Deliver { recipient_id, tag, sender }
                    && recipient_id == id && (tag, sender) == self.entries()[id])
                &&& !self.ids().contains(id) ==> r == Route::UnknownRecipient(id)
            },
    {
        match ClientMessage::decode_recipient_id(raw) {
            Ok(recipient_id) => match self.get_sender(recipient_id) {
                Some((tag, sender)) => Route::Deliver { recipient_id, tag, sender },
                None => Route::UnknownRecipient(recipient_id),
            },
            Err(e) => Route::Undecodable(e),
        }
    }
}

} // verus!
