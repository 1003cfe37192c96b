//! The clients that are connected to the relay, and who of them can supply a
//! track.

use crate::track_name::{FullTrackName, TrackNameView, Tuple};
use std::collections::BTreeMap;
use vstd::prelude::*;

verus! {

/// What the relay knows of a client as a publisher.
#[derive(Debug)]
pub struct ClientRecord {
    pub published_tracks: Vec<FullTrackName>,
    pub announced_track_namespaces: Vec<Tuple>,
}

/// What a [`ClientRecord`] stands for.
#[verifier::ext_equal]
pub struct ClientView {
    pub published: Seq<TrackNameView>,
    pub announced: Seq<Seq<Seq<u8>>>,
}

impl View for ClientRecord {
    type V = ClientView;

    open spec fn view(&self) -> ClientView {
        ClientView {
            published: self.published_tracks@.map_values(|t: FullTrackName| t@),
            announced: self.announced_track_namespaces@.map_values(|n: Tuple| n@),
        }
    }
}

impl ClientView {
    /// The client publishes this very track.
    pub open spec fn publishes(self, track: TrackNameView) -> bool {
        self.published.contains(track)
    }

    /// The client has announced this namespace or one above it.
    pub open spec fn announces(self, namespace: Seq<Seq<u8>>) -> bool {
        exists|i: int|
            0 <= i < self.announced.len() && (#[trigger] self.announced[i]).is_prefix_of(namespace)
    }
}

impl ClientRecord {
    fn publishes(&self, track: &FullTrackName) -> (publishes: bool)
        ensures
            publishes == self@.publishes(track@),
    {
        let mut i: usize = 0;
        while i < self.published_tracks.len()
            invariant
                i <= self.published_tracks.len(),
                forall|j: int| 0 <= j < i ==> #[trigger] self@.published[j] != track@,
            decreases self.published_tracks.len() - i,
        {
            if self.published_tracks[i].equals(track) {
                proof {
                    assert(self@.published[i as int] == track@);
                }
                return true;
            }
            i = i + 1;
        }
        false
    }

    fn announces(&self, namespace: &Tuple) -> (announces: bool)
        ensures
            announces == self@.announces(namespace@),
    {
        let mut i: usize = 0;
        while i < self.announced_track_namespaces.len()
            invariant
                i <= self.announced_track_namespaces.len(),
                forall|j: int|
                    0 <= j < i ==> !(#[trigger] self@.announced[j]).is_prefix_of(namespace@),
            decreases self.announced_track_namespaces.len() - i,
        {
            if namespace.starts_with(&self.announced_track_namespaces[i]) {
                proof {
                    assert(self@.announced[i as int].is_prefix_of(namespace@));
                }
                return true;
            }
            i = i + 1;
        }
        false
    }
}

/// The connected clients by connection, and the link to the relay upstream.
#[derive(Debug)]
pub struct ClientManager {
    clients: BTreeMap<u64, ClientRecord>,
    upstream_connection_id: Option<u64>,
}

/// What a [`ClientManager`] stands for.
#[verifier::ext_equal]
pub struct ClientsView {
    pub clients: Map<u64, ClientView>,
    pub upstream: Option<u64>,
}

impl View for ClientManager {
    type V = ClientsView;

    closed spec fn view(&self) -> ClientsView {
        ClientsView {
            clients: self.clients@.map_values(|c: ClientRecord| c@),
            upstream: self.upstream_connection_id,
        }
    }
}

impl ClientsView {
    /// `found` is the first client, by connection, that publishes the track.
    pub open spec fn is_publisher(self, track: TrackNameView, found: Option<u64>) -> bool {
        match found {
            Some(id) => {
                &&& self.clients.contains_key(id)
                &&& self.clients[id].publishes(track)
                &&& forall|other: u64| #[trigger]
                    self.clients.contains_key(other) && self.clients[other].publishes(track) ==> id
                        <= other
            },
            None => forall|other: u64| #[trigger]
                self.clients.contains_key(other) ==> !self.clients[other].publishes(track),
        }
    }

    /// `found` is the first client, by connection, that has announced the
    /// namespace or one above it.
    pub open spec fn is_announcer(self, namespace: Seq<Seq<u8>>, found: Option<u64>) -> bool {
        match found {
            Some(id) => {
                &&& self.clients.contains_key(id)
                &&& self.clients[id].announces(namespace)
                &&& forall|other: u64| #[trigger]
                    self.clients.contains_key(other) && self.clients[other].announces(namespace)
                        ==> id <= other
            },
            None => forall|other: u64| #[trigger]
                self.clients.contains_key(other) ==> !self.clients[other].announces(namespace),
        }
    }

    /// The client publishes the track or has announced its namespace.
    pub open spec fn supplies(self, connection_id: u64, track: TrackNameView) -> bool {
        self.clients.contains_key(connection_id) && (self.clients[connection_id].publishes(track)
            || self.clients[connection_id].announces(track.namespace))
    }

    /// The link upstream, where it is marked and connected.
    pub open spec fn connected_upstream(self) -> Option<u64> {
        match self.upstream {
            Some(id) => if self.clients.contains_key(id) {
                Some(id)
            } else {
                None
            },
            None => None,
        }
    }

    /// `found` are the connections that a track is asked of: every client that
    /// supplies it, or the link upstream where there is none.
    pub open spec fn are_suppliers(self, track: TrackNameView, found: Seq<u64>) -> bool {
        if exists|id: u64| #[trigger] self.supplies(id, track) {
            &&& found.no_duplicates()
            &&& forall|id: u64| found.contains(id) <==> #[trigger] self.supplies(id, track)
        } else {
            match self.connected_upstream() {
                Some(id) => found == seq![id],
                None => found == Seq::<u64>::empty(),
            }
        }
    }

    /// The marker of the link, cleared where it points at a connection.
    pub open spec fn upstream_without(self, connection_id: u64) -> Option<u64> {
        if self.upstream == Some(connection_id) {
            None
        } else {
            self.upstream
        }
    }
}

impl ClientManager {
    pub fn new() -> (manager: ClientManager)
        ensures
            manager@ == (ClientsView { clients: Map::empty(), upstream: None }),
    {
        let manager = ClientManager { clients: BTreeMap::new(), upstream_connection_id: None };
        proof {
            assert(manager@.clients =~= Map::empty());
        }
        manager
    }

    /// Adds a client, or replaces the one of the same connection.
    pub fn add(&mut self, connection_id: u64, client: ClientRecord)
        ensures
            final(self)@ == (ClientsView {
                clients: old(self)@.clients.insert(connection_id, client@),
                ..old(self)@
            }),
    {
        broadcast use vstd::std_specs::btree::group_btree_axioms;

        let ghost before = self@;
        self.clients.insert(connection_id, client);
        proof {
            assert(self@.clients =~= before.clients.insert(connection_id, client@));
        }
    }

    /// Takes a client out; where it was the link upstream, the marker goes too.
    pub fn remove(&mut self, connection_id: u64) -> (removed: Option<ClientRecord>)
        ensures
            final(self)@ == (ClientsView {
                clients: old(self)@.clients.remove(connection_id),
                upstream: old(self)@.upstream_without(connection_id),
            }),
            match removed {
                Some(client) => old(self)@.clients.contains_key(connection_id) && client@
                    == old(self)@.clients[connection_id],
                None => !old(self)@.clients.contains_key(connection_id),
            },
    {
        broadcast use vstd::std_specs::btree::group_btree_axioms;

        let ghost before = self@;
        self.clear_upstream(connection_id);
        let removed: Option<ClientRecord> = self.clients.remove(&connection_id);
        proof {
            assert(self@.clients =~= before.clients.remove(connection_id));
        }
        removed
    }

    /// Marks a connection as the link upstream.
    pub fn set_upstream(&mut self, connection_id: u64)
        ensures
            final(self)@ == (ClientsView { upstream: Some(connection_id), ..old(self)@ }),
    {
        self.upstream_connection_id = Some(connection_id);
    }

    /// Clears the marker if it still points at a connection.
    pub fn clear_upstream(&mut self, connection_id: u64)
        ensures
            final(self)@ == (ClientsView {
                upstream: old(self)@.upstream_without(connection_id),
                ..old(self)@
            }),
    {
        if let Some(id) = self.upstream_connection_id {
            if id == connection_id {
                self.upstream_connection_id = None;
            }
        }
    }

    /// The link upstream, where it is marked and connected.
    pub fn get_upstream(&self) -> (upstream: Option<u64>)
        ensures
            upstream == self@.connected_upstream(),
    {
        broadcast use vstd::std_specs::btree::group_btree_axioms;

        match self.upstream_connection_id {
            Some(id) => if self.clients.contains_key(&id) {
                Some(id)
            } else {
                None
            },
            None => None,
        }
    }

    /// The client of a connection.
    pub fn get(&self, connection_id: u64) -> (client: Option<&ClientRecord>)
        ensures
            match client {
                Some(client) => self@.clients.contains_key(connection_id) && client@
                    == self@.clients[connection_id],
                None => !self@.clients.contains_key(connection_id),
            },
    {
        broadcast use vstd::std_specs::btree::group_btree_axioms;

        self.clients.get(&connection_id)
    }

    /// The first client that publishes a track.
    pub fn get_publisher_by_full_track_name(&self, full_track_name: &FullTrackName) -> (found:
        Option<u64>)
        ensures
            self@.is_publisher(full_track_name@, found),
    {
        broadcast use vstd::std_specs::btree::group_btree_axioms;

        let ghost track = full_track_name@;
        let ghost map = self.clients@;
        let mut found: Option<u64> = None;
        for entry in it: self.clients.iter()
            invariant
                map == self.clients@,
                track == full_track_name@,
                forall|i: int|
                    0 <= i < it.seq().len() ==> map.contains_key(*(#[trigger] it.seq()[i]).0)
                        && map[*it.seq()[i].0] == *it.seq()[i].1,
                forall|k: u64| #[trigger]
                    map.contains_key(k) ==> it.seq().contains((&k, &map[k])),
                match found {
                    Some(id) => map.contains_key(id) && map[id]@.publishes(track),
                    None => true,
                },
                forall|i: int|
                    0 <= i < it.index() && (#[trigger] it.seq()[i]).1@.publishes(track) ==> (
                    found matches Some(id) && id <= *it.seq()[i].0),
        {
            proof {
                assert(it.seq()[it.index()] == entry);
            }
            if entry.1.publishes(full_track_name) {
                found = match found {
                    Some(id) => if *entry.0 < id {
                        Some(*entry.0)
                    } else {
                        Some(id)
                    },
                    None => Some(*entry.0),
                };
            }
        }
        found
    }

    /// The first client that has announced a namespace or one above it.
    pub fn get_publisher_by_announced_track_namespace(&self, track_namespace: &Tuple) -> (found:
        Option<u64>)
        ensures
            self@.is_announcer(track_namespace@, found),
    {
        broadcast use vstd::std_specs::btree::group_btree_axioms;

        let ghost namespace = track_namespace@;
        let ghost map = self.clients@;
        let mut found: Option<u64> = None;
        for entry in it: self.clients.iter()
            invariant
                map == self.clients@,
                namespace == track_namespace@,
                forall|i: int|
                    0 <= i < it.seq().len() ==> map.contains_key(*(#[trigger] it.seq()[i]).0)
                        && map[*it.seq()[i].0] == *it.seq()[i].1,
                forall|k: u64| #[trigger]
                    map.contains_key(k) ==> it.seq().contains((&k, &map[k])),
                match found {
                    Some(id) => map.contains_key(id) && map[id]@.announces(namespace),
                    None => true,
                },
                forall|i: int|
                    0 <= i < it.index() && (#[trigger] it.seq()[i]).1@.announces(namespace) ==> (
                    found matches Some(id) && id <= *it.seq()[i].0),
        {
            proof {
                assert(it.seq()[it.index()] == entry);
            }
            if entry.1.announces(track_namespace) {
                found = match found {
                    Some(id) => if *entry.0 < id {
                        Some(*entry.0)
                    } else {
                        Some(id)
                    },
                    None => Some(*entry.0),
                };
            }
        }
        found
    }

    /// The connections that a track is asked of: every client that publishes it
    /// or has announced its namespace. Where there is none, the link upstream
    /// is the publisher of last resort.
    pub fn get_publishers_for_track(&self, full_track_name: &FullTrackName) -> (found: Vec<u64>)
        ensures
            self@.are_suppliers(full_track_name@, found@),
    {
        broadcast use vstd::std_specs::btree::group_btree_axioms;

        let ghost track = full_track_name@;
        let ghost map = self.clients@;
        let mut found: Vec<u64> = Vec::new();
        for entry in it: self.clients.iter()
            invariant
                map == self.clients@,
                track == full_track_name@,
                it.seq().no_duplicates(),
                forall|i: int|
                    0 <= i < it.seq().len() ==> map.contains_key(*(#[trigger] it.seq()[i]).0)
                        && map[*it.seq()[i].0] == *it.seq()[i].1,
                forall|k: u64| #[trigger]
                    map.contains_key(k) ==> it.seq().contains((&k, &map[k])),
                found@.no_duplicates(),
                forall|n: int|
                    0 <= n < found@.len() ==> self@.supplies(#[trigger] found@[n], track)
                        && exists|i: int|
                        0 <= i < it.index() && *(#[trigger] it.seq()[i]).0 == found@[n],
                forall|i: int|
                    0 <= i < it.index() && self@.supplies(*(#[trigger] it.seq()[i]).0, track)
                        ==> found@.contains(*it.seq()[i].0),
        {
            let ghost before = found@;
            let ghost now = it.index() as int;
            proof {
                assert(it.seq()[now] == entry);
                assert forall|n: int| 0 <= n < before.len() implies before[n] != *entry.0 by {
                    let i = choose|i: int|
                        0 <= i < now && *(#[trigger] it.seq()[i]).0 == before[n];
                    if before[n] == *entry.0 {
                        assert(it.seq()[i] == it.seq()[now]);
                    }
                }
            }
            if entry.1.publishes(full_track_name) || entry.1.announces(&full_track_name.namespace) {
                found.push(*entry.0);
                proof {
                    assert forall|n: int| 0 <= n < found@.len() implies self@.supplies(
                        #[trigger] found@[n],
                        track,
                    ) && exists|i: int|
                        0 <= i < now + 1 && *(#[trigger] it.seq()[i]).0 == found@[n] by {
                        if n < before.len() {
                            assert(found@[n] == before[n]);
                            let i = choose|i: int|
                                0 <= i < now && *(#[trigger] it.seq()[i]).0 == before[n];
                            assert(*it.seq()[i].0 == found@[n]);
                        } else {
                            assert(*it.seq()[now].0 == found@[n]);
                        }
                    }
                    assert forall|i: int|
                        0 <= i < now + 1 && self@.supplies(*(#[trigger] it.seq()[i]).0, track)
                        implies found@.contains(*it.seq()[i].0) by {
                        if i < now {
                            let n = choose|n: int|
                                0 <= n < before.len() && before[n] == *it.seq()[i].0;
                            assert(found@[n] == *it.seq()[i].0);
                        } else {
                            assert(found@[before.len() as int] == *it.seq()[i].0);
                        }
                    }
                }
            }
        }
        proof {
            assert forall|id: u64| found@.contains(id) <==> #[trigger] self@.supplies(
                id,
                track,
            ) by {
                if self@.supplies(id, track) {
                    assert(map.contains_key(id));
                }
            }
        }
        if found.len() > 0 {
            proof {
                assert(self@.supplies(found@[0], track));
            }
            return found;
        }
        proof {
            assert forall|id: u64| !#[trigger] self@.supplies(id, track) by {
                if self@.supplies(id, track) {
                    assert(found@.contains(id));
                }
            }
        }
        proof {
            assert(found@ =~= Seq::empty());
        }
        if let Some(id) = self.get_upstream() {
            found.push(id);
            proof {
                assert(found@ =~= seq![id]);
            }
        }
        found
    }
}

/// The link upstream is asked exactly for what no other client supplies.
pub proof fn law_upstream_is_the_last_resort(
    clients: ClientsView,
    track: TrackNameView,
    found: Seq<u64>,
    upstream: u64,
)
    requires
        clients.are_suppliers(track, found),
        clients.connected_upstream() == Some(upstream),
        !clients.supplies(upstream, track),
    ensures
        found.contains(upstream) <==> forall|id: u64| !#[trigger] clients.supplies(id, track),
{
    if forall|id: u64| !#[trigger] clients.supplies(id, track) {
        assert(found[0] == upstream);
    }
}

/// A removed client is nowhere left: it supplies no track and is not the link
/// upstream.
pub proof fn law_removed_client_is_gone(clients: ClientsView, connection_id: u64)
    ensures
        ({
            let after = ClientsView {
                clients: clients.clients.remove(connection_id),
                upstream: clients.upstream_without(connection_id),
            };
            &&& after.upstream != Some(connection_id)
            &&& forall|track: TrackNameView| !after.is_publisher(track, Some(connection_id))
            &&& forall|namespace: Seq<Seq<u8>>|
                !after.is_announcer(namespace, Some(connection_id))
        }),
{
}

/// A client that announces a namespace supplies everything below it.
pub proof fn law_announced_namespace_covers_children(
    client: ClientView,
    namespace: Seq<Seq<u8>>,
    field: Seq<u8>,
)
    requires
        client.announces(namespace),
    ensures
        client.announces(namespace.push(field)),
{
    let i = choose|i: int|
        0 <= i < client.announced.len() && (#[trigger] client.announced[i]).is_prefix_of(namespace);
    let prefix = client.announced[i];
    assert(prefix =~= namespace.push(field).subrange(0, prefix.len() as int));
    assert(prefix.is_prefix_of(namespace.push(field)));
}

/// A client publishes a track only under its full name.
pub proof fn law_publishing_is_by_full_name(client: ClientView, track: TrackNameView)
    ensures
        client.publishes(track) <==> exists|i: int|
            0 <= i < client.published.len() && (#[trigger] client.published[i]).namespace
                == track.namespace && client.published[i].name == track.name,
{
    if client.publishes(track) {
        let i = choose|i: int| 0 <= i < client.published.len() && client.published[i] == track;
        assert(client.published[i].namespace == track.namespace);
    }
}

/// A namespace covers what starts with all of its fields, and nothing else.
pub proof fn law_announcing_covers_by_fields(
    client: ClientView,
    namespace: Seq<Seq<u8>>,
    i: int,
)
    requires
        0 <= i < client.announced.len(),
    ensures
        client.announced[i].len() <= namespace.len() && (forall|k: int|
            0 <= k < client.announced[i].len() ==> client.announced[i][k]
                == #[trigger] namespace[k]) ==> client.announces(namespace),
        client.announced.len() == 1 && client.announces(namespace) ==> client.announced[i].len()
            <= namespace.len() && forall|k: int|
            0 <= k < client.announced[i].len() ==> client.announced[i][k]
                == #[trigger] namespace[k],
{
    let announced = client.announced[i];
    if announced.len() <= namespace.len() && (forall|k: int|
        0 <= k < announced.len() ==> announced[k] == #[trigger] namespace[k]) {
        assert(announced =~= namespace.subrange(0, announced.len() as int));
        assert(announced.is_prefix_of(namespace));
    }
    if client.announced.len() == 1 && client.announces(namespace) {
        assert(announced.is_prefix_of(namespace));
        assert forall|k: int| 0 <= k < announced.len() implies announced[k]
            == #[trigger] namespace[k] by {
            assert(namespace.subrange(0, announced.len() as int)[k] == namespace[k]);
        }
    }
}

/// Where two clients could serve a track, the one with the lower connection id is found,
/// and one is found wherever there is one.
pub proof fn law_the_first_publisher_is_found(
    clients: ClientsView,
    track: TrackNameView,
    found: Option<u64>,
    other: u64,
)
    requires
        clients.is_publisher(track, found),
        clients.clients.contains_key(other),
        clients.clients[other].published.contains(track),
    ensures
        found matches Some(id) && id <= other && clients.clients.contains_key(id)
            && clients.clients[id].published.contains(track),
{
    assert(clients.clients[other].publishes(track));
}

/// Where two clients announced a covering namespace, the one with the lower connection
/// id is found, and one is found wherever there is one.
pub proof fn law_the_first_announcer_is_found(
    clients: ClientsView,
    namespace: Seq<Seq<u8>>,
    found: Option<u64>,
    other: u64,
    i: int,
)
    requires
        clients.is_announcer(namespace, found),
        clients.clients.contains_key(other),
        0 <= i < clients.clients[other].announced.len(),
        clients.clients[other].announced[i].is_prefix_of(namespace),
    ensures
        found matches Some(id) && id <= other && clients.clients.contains_key(id) && exists|j: int|
            0 <= j < clients.clients[id].announced.len()
                && (#[trigger] clients.clients[id].announced[j]).is_prefix_of(namespace),
{
    assert(clients.clients[other].announces(namespace));
    let id = found->0;
    assert(clients.clients[id].announces(namespace));
}

/// Every client that publishes the track, or announced a namespace that covers it, is
/// asked for it, each once, and nobody else while there is one.
pub proof fn law_every_supplier_is_asked(
    clients: ClientsView,
    track: TrackNameView,
    found: Seq<u64>,
    id: u64,
)
    requires
        clients.are_suppliers(track, found),
    ensures
        found.no_duplicates(),
        clients.clients.contains_key(id) && clients.clients[id].publishes(track)
            ==> found.contains(id),
        clients.clients.contains_key(id) && clients.clients[id].announces(track.namespace)
            ==> found.contains(id),
        found.contains(id) ==> clients.clients.contains_key(id) && (
        clients.clients[id].publishes(track) || clients.clients[id].announces(track.namespace)
            || clients.upstream == Some(id)),
{
    assert(clients.supplies(id, track) ==> exists|other: u64| #[trigger]
        clients.supplies(other, track));
    if found.contains(id) && !(exists|other: u64| #[trigger] clients.supplies(other, track)) {
        assert(found[0] == id);
    }
}

/// Nobody is asked for a track that no client supplies, unless the upstream relay is
/// connected.
pub proof fn law_nobody_is_asked_in_vain(
    clients: ClientsView,
    track: TrackNameView,
    found: Seq<u64>,
)
    requires
        clients.are_suppliers(track, found),
        forall|id: u64| !#[trigger] clients.supplies(id, track),
    ensures
        found.len() <= 1,
        found.len() == 1 <==> (clients.upstream matches Some(id) && clients.clients.contains_key(
            id,
        )),
        found.len() == 1 ==> clients.upstream == Some(found[0]),
{
}

/// The upstream mark goes with the connection that bears it, and with no other.
pub proof fn law_only_its_own_connection_clears_the_mark(
    clients: ClientsView,
    connection_id: u64,
)
    ensures
        clients.upstream == Some(connection_id) ==> clients.upstream_without(
            connection_id,
        ) is None,
        clients.upstream != Some(connection_id) ==> clients.upstream_without(connection_id)
            == clients.upstream,
        clients.connected_upstream() is Some <==> (clients.upstream matches Some(id)
            && clients.clients.contains_key(id)),
        clients.connected_upstream() is Some ==> clients.connected_upstream() == clients.upstream,
{
}

} // verus!
