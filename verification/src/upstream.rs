//! The link to a relay upstream.
//!
//! A relay may dial another one as its client. While the link is up it is the
//! publisher of last resort; when it drops, it is dialled again after a while.

use crate::client_manager::{ClientManager, ClientRecord, ClientsView};
use vstd::prelude::*;

verus! {

/// How long to wait before dialling again, in nanoseconds.
pub const UPSTREAM_RETRY: u64 = 2_000_000_000;

/// Where the link stands.
#[derive(Debug, Clone, Copy, PartialEq, Eq, Structural)]
pub enum LinkState {
    /// Nothing is connected.
    Down,
    /// A connection is being opened.
    Dialling,
    /// The setup message has been sent.
    SettingUp,
    /// The session runs on a connection.
    Up { connection_id: u64 },
}

/// What happens to the link.
#[derive(Debug, Clone, Copy, PartialEq, Eq, Structural)]
pub enum LinkEvent {
    /// It is time to dial.
    RetryDue,
    /// The connection is open.
    Connected,
    /// The relay upstream has answered the setup.
    SetupAccepted { connection_id: u64 },
    /// Something failed, or another message came where the answer was due.
    Failed,
    /// The session has ended.
    SessionEnded,
}

/// What to do about it.
#[derive(Debug, Clone, Copy, PartialEq, Eq, Structural)]
pub enum LinkAction {
    /// Open a connection.
    Dial,
    /// Send the setup message, with this largest request id.
    SendSetup { max_request_id: u64 },
    /// Run the session until it ends.
    RunSession,
    /// Wait that long, then dial.
    Wait { nanos: u64 },
    /// Nothing: the event does not belong to this state.
    Ignore,
}

/// The link to a relay upstream.
#[derive(Debug, Clone, Copy)]
pub struct UpstreamLink {
    /// How many requests the relays grant their clients.
    initial_max_request_id: u64,
    state: LinkState,
}

/// The state that an event leads to.
pub open spec fn next_state(state: LinkState, event: LinkEvent) -> LinkState {
    match (state, event) {
        (LinkState::Down, LinkEvent::RetryDue) => LinkState::Dialling,
        (LinkState::Dialling, LinkEvent::Connected) => LinkState::SettingUp,
        (LinkState::SettingUp, LinkEvent::SetupAccepted { connection_id }) => LinkState::Up {
            connection_id,
        },
        (LinkState::Dialling, LinkEvent::Failed) => LinkState::Down,
        (LinkState::SettingUp, LinkEvent::Failed) => LinkState::Down,
        (LinkState::Up { .. }, LinkEvent::Failed) => LinkState::Down,
        (LinkState::Up { .. }, LinkEvent::SessionEnded) => LinkState::Down,
        _ => state,
    }
}

/// What an event asks for.
pub open spec fn link_action(
    state: LinkState,
    event: LinkEvent,
    initial_max_request_id: u64,
) -> LinkAction {
    let next = next_state(state, event);
    if next == state {
        LinkAction::Ignore
    } else {
        match next {
            LinkState::Dialling => LinkAction::Dial,
            LinkState::SettingUp => LinkAction::SendSetup {
                max_request_id: (initial_max_request_id + 1) as u64,
            },
            LinkState::Up { .. } => LinkAction::RunSession,
            LinkState::Down => LinkAction::Wait { nanos: UPSTREAM_RETRY },
        }
    }
}

/// The clients after an event: a link that comes up is entered as a client and
/// marked, and one that goes down loses the mark.
pub open spec fn clients_after(
    clients: ClientsView,
    state: LinkState,
    event: LinkEvent,
) -> ClientsView {
    match (state, next_state(state, event)) {
        (LinkState::SettingUp, LinkState::Up { connection_id }) => ClientsView {
            clients: clients.clients.insert(
                connection_id,
                crate::client_manager::ClientView { published: Seq::empty(), announced: Seq::empty() },
            ),
            upstream: Some(connection_id),
        },
        (LinkState::Up { connection_id }, LinkState::Down) => ClientsView {
            upstream: clients.upstream_without(connection_id),
            ..clients
        },
        _ => clients,
    }
}

impl UpstreamLink {
    pub closed spec fn state(&self) -> LinkState {
        self.state
    }

    pub closed spec fn request_budget(&self) -> u64 {
        self.initial_max_request_id
    }

    /// A link that is down.
    pub fn new(initial_max_request_id: u64) -> (link: UpstreamLink)
        ensures
            link.state() == LinkState::Down,
            link.request_budget() == initial_max_request_id,
    {
        UpstreamLink { initial_max_request_id, state: LinkState::Down }
    }

    /// Takes an event and says what to do.
    pub fn step(&mut self, event: LinkEvent, clients: &mut ClientManager) -> (action: LinkAction)
        requires
            old(self).request_budget() < u64::MAX,
        ensures
            final(self).state() == next_state(old(self).state(), event),
            final(self).request_budget() == old(self).request_budget(),
            action == link_action(old(self).state(), event, old(self).request_budget()),
            final(clients)@ == clients_after(old(clients)@, old(self).state(), event),
    {
        match (self.state, event) {
            (LinkState::Down, LinkEvent::RetryDue) => {
                self.state = LinkState::Dialling;
                LinkAction::Dial
            },
            (LinkState::Dialling, LinkEvent::Connected) => {
                self.state = LinkState::SettingUp;
                LinkAction::SendSetup { max_request_id: self.initial_max_request_id + 1 }
            },
            (LinkState::SettingUp, LinkEvent::SetupAccepted { connection_id }) => {
                let record: ClientRecord = ClientRecord {
                    published_tracks: Vec::new(),
                    announced_track_namespaces: Vec::new(),
                };
                proof {
                    assert(record@.published =~= Seq::empty());
                    assert(record@.announced =~= Seq::empty());
                }
                clients.add(connection_id, record);
                clients.set_upstream(connection_id);
                self.state = LinkState::Up { connection_id };
                LinkAction::RunSession
            },
            (LinkState::Dialling, LinkEvent::Failed) => {
                self.state = LinkState::Down;
                LinkAction::Wait { nanos: UPSTREAM_RETRY }
            },
            (LinkState::SettingUp, LinkEvent::Failed) => {
                self.state = LinkState::Down;
                LinkAction::Wait { nanos: UPSTREAM_RETRY }
            },
            (LinkState::Up { connection_id }, LinkEvent::Failed) => {
                clients.clear_upstream(connection_id);
                self.state = LinkState::Down;
                LinkAction::Wait { nanos: UPSTREAM_RETRY }
            },
            (LinkState::Up { connection_id }, LinkEvent::SessionEnded) => {
                clients.clear_upstream(connection_id);
                self.state = LinkState::Down;
                LinkAction::Wait { nanos: UPSTREAM_RETRY }
            },
            _ => LinkAction::Ignore,
        }
    }
}

/// The clients know of the link what it knows itself.
pub open spec fn link_agrees(state: LinkState, clients: ClientsView) -> bool {
    match state {
        LinkState::Up { connection_id } => clients.upstream == Some(connection_id),
        _ => clients.upstream is None,
    }
}

/// Nothing is routed to a link that is not up: the mark of the publisher of last
/// resort comes and goes with the session.
pub proof fn law_mark_follows_the_link(state: LinkState, event: LinkEvent, clients: ClientsView)
    requires
        link_agrees(state, clients),
    ensures
        link_agrees(next_state(state, event), clients_after(clients, state, event)),
{
}

/// A link that goes down is always dialled again.
pub proof fn law_dropped_link_is_redialled(
    state: LinkState,
    event: LinkEvent,
    initial_max_request_id: u64,
)
    requires
        !(state is Down),
        next_state(state, event) is Down,
    ensures
        link_action(state, event, initial_max_request_id) == (LinkAction::Wait {
            nanos: UPSTREAM_RETRY,
        }),
        next_state(LinkState::Down, LinkEvent::RetryDue) is Dialling,
{
}

/// The link advances one step at a time: it dials only when it is down, asks for a
/// session only when the dial went through, and is up only when the session was
/// accepted, as the connection that was accepted.
pub proof fn law_link_comes_up_in_order(state: LinkState, event: LinkEvent)
    ensures
        next_state(state, event) is Dialling && !(state is Dialling) ==> state is Down
            && event is RetryDue,
        next_state(state, event) is SettingUp && !(state is SettingUp) ==> state is Dialling
            && event is Connected,
        next_state(state, event) is Up && !(state is Up) ==> state is SettingUp && (
        event matches LinkEvent::SetupAccepted { connection_id } && next_state(state, event) == (
        LinkState::Up { connection_id })),
        state is Up && next_state(state, event) is Up ==> next_state(state, event) == state,
        state is Down && event is RetryDue ==> next_state(state, event) is Dialling,
        state is Dialling && event is Connected ==> next_state(state, event) is SettingUp,
        state is SettingUp && event is SetupAccepted ==> next_state(state, event) is Up,
{
}

/// A failure takes the link down from every state, and the end of a session takes down a
/// link that was up.
pub proof fn law_link_goes_down_on_failure(state: LinkState, event: LinkEvent)
    ensures
        next_state(state, LinkEvent::Failed) is Down,
        state is Up ==> next_state(state, LinkEvent::SessionEnded) is Down,
        next_state(state, event) is Down && !(state is Down) ==> event is Failed || (
        event is SessionEnded && state is Up),
{
}

/// What is done is what the change of state calls for: nothing where there is none. The
/// session is opened with one request id more than the budget, and a link that went down
/// waits two seconds.
pub proof fn law_action_follows_the_change(
    state: LinkState,
    event: LinkEvent,
    initial_max_request_id: u64,
)
    requires
        initial_max_request_id < u64::MAX,
    ensures
        ({
            let action = link_action(state, event, initial_max_request_id);
            let next = next_state(state, event);
            &&& action is Ignore <==> next == state
            &&& action is Dial <==> next is Dialling && next != state
            &&& action is RunSession <==> next is Up && next != state
            &&& action is Wait <==> next is Down && next != state
            &&& action is SendSetup <==> next is SettingUp && next != state
            &&& action matches LinkAction::SendSetup { max_request_id } ==> max_request_id
                == initial_max_request_id + 1
            &&& action matches LinkAction::Wait { nanos } ==> nanos == 2_000_000_000
        }),
{
}

/// A link that comes up enters its connection, which announced and published nothing
/// yet, and marks it. One that goes down takes its mark away. No other client is touched.
pub proof fn law_link_touches_its_own_client(
    state: LinkState,
    event: LinkEvent,
    clients: ClientsView,
    other: u64,
)
    ensures
        ({
            let after = clients_after(clients, state, event);
            let next = next_state(state, event);
            &&& state is SettingUp && next is Up ==> {
                let id = next->connection_id;
                &&& after.upstream == Some(id)
                &&& after.clients.contains_key(id)
                &&& after.clients[id].published.len() == 0
                &&& after.clients[id].announced.len() == 0
                &&& other != id ==> after.clients.contains_key(other)
                    == clients.clients.contains_key(other) && after.clients[other]
                    == clients.clients[other]
            }
            &&& !(next is Up) ==> after.clients == clients.clients
            &&& state is Up && next is Down ==> after.upstream != Some(state->connection_id) && (
            clients.upstream != Some(state->connection_id) ==> after.upstream
                == clients.upstream)
            &&& next == state ==> after == clients
        }),
{
}

} // verus!
