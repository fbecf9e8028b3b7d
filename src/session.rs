use vstd::prelude::*;

use crate::data::Timestamp;
use crate::hub::{trim_of, Hub};
use crate::protocol::Message;

verus! {

/// Where a connection stands in its lifecycle.
#[derive(Debug, Clone, Copy, PartialEq, Eq, Structural)]
pub enum Phase {
    /// Accepted by the transport, nothing read yet.
    Connecting,
    /// Waiting for the handshake frame.
    Authenticating,
    /// Authenticated and a member of the registry under `id`.
    Active { id: u64 },
    /// Finished; nothing more happens.
    Closed,
}

/// Something the transport observed on a connection.
#[derive(Debug, Clone, PartialEq, Eq)]
pub enum Event {
    /// The connection was accepted.
    Accepted,
    /// An inbound text frame.
    Text(String),
    /// An inbound frame that is not text.
    Other,
    /// The receive side ended: the peer closed, reset the socket, or sent a
    /// frame that could not be read.
    Ended,
    /// Writing to the socket failed.
    SendFailed,
}

/// Something the driver of a connection must do, in the order given.
#[derive(Debug, Clone, PartialEq, Eq)]
pub enum Effect {
    /// Close the outbound side without sending anything.
    Close,
    /// Publish the event to every connection subscribed to the broadcast.
    Publish(Message),
    /// Read the aggregate from the store and deliver its snapshot to this
    /// connection only.
    SendSnapshot,
    /// Start forwarding broadcasts to this connection, and the loop that
    /// drains its private queue to the socket.
    Subscribe,
    /// Hand the text to the request processor.
    Process(String),
    /// End the forwarding and sending loops of this connection.
    StopLoops,
}

/// Whether the event is a handshake frame carrying the secret `key`.
pub open spec fn authorised(event: Event, key: Seq<char>) -> bool {
    event matches Event::Text(t) && trim_of(t@) == key
}

/// One step of a connection: in `phase`, with the hub in state `hub`, the
/// event `event` observed at `now` leads to `next`, leaves the hub as
/// `hub2`, and asks for `effects`.
pub open spec fn transition(
    phase: Phase,
    hub: Hub,
    event: Event,
    now: Timestamp,
    next: Phase,
    hub2: Hub,
    effects: Seq<Effect>,
) -> bool {
    match phase {
        Phase::Connecting => {
            &&& hub2 == hub
            &&& if event is Accepted {
                next == Phase::Authenticating && effects =~= Seq::<Effect>::empty()
            } else {
                next == Phase::Closed && effects =~= seq![Effect::Close]
            }
        },
        Phase::Authenticating => {
            if authorised(event, hub.key()) && hub.has_free_id() {
                let id = hub.next_id();
                &&& next == (Phase::Active { id })
                &&& !hub.members().contains(id)
                &&& hub2.members() == hub.members().insert(id)
                &&& hub2.members().len() == hub.members().len() + 1
                &&& hub2.next_id() == id + 1
                &&& hub2.key() == hub.key()
                &&& effects =~= seq![
                    Effect::Publish(
                        Message::PeerJoined {
                            total: hub2.members().len() as u64,
                            last_joined: Some(now),
                        },
                    ),
                    Effect::SendSnapshot,
                    Effect::Subscribe,
                ]
            } else {
                next == Phase::Closed && hub2 == hub && effects =~= seq![Effect::Close]
            }
        },
        Phase::Active { id } => match event {
            Event::Text(t) => next == phase && hub2 == hub && effects =~= seq![Effect::Process(t)],
            Event::Ended | Event::SendFailed => {
                &&& next == Phase::Closed
                &&& hub2.members() == hub.members().remove(id)
                &&& hub.members().contains(id) ==> hub2.members().len() == hub.members().len() - 1
                &&& hub2.next_id() == hub.next_id()
                &&& hub2.key() == hub.key()
                &&& effects =~= seq![
                    Effect::StopLoops,
                    Effect::Publish(
                        Message::PeerLeft { total: hub2.members().len() as u64, last_left: Some(now) },
                    ),
                ]
            },
            _ => next == phase && hub2 == hub && effects =~= Seq::<Effect>::empty(),
        },
        Phase::Closed => next == phase && hub2 == hub && effects =~= Seq::<Effect>::empty(),
    }
}

/// The lifecycle of one connection.
pub struct Session {
    phase: Phase,
}

impl Session {
    /// Where the connection stands.
    pub closed spec fn spec_phase(&self) -> Phase {
        self.phase
    }

    /// A connection that has just been accepted.
    pub fn new() -> (r: Session)
        ensures
            r.spec_phase() == Phase::Connecting,
    {
        Session { phase: Phase::Connecting }
    }

    /// Where the connection stands.
    pub fn phase(&self) -> (r: Phase)
        ensures
            r == self.spec_phase(),
    {
        self.phase
    }

    /// Takes one event at the instant `now` and returns what to do.
    ///
    /// The first event must be the acceptance; the handshake frame then
    /// either activates the connection (join, announce, snapshot, subscribe)
    /// or closes it. An active connection hands its text frames to the
    /// request processor and ignores other frames; when either side of its
    /// socket ends it stops its loops, leaves and is announced as gone.
    pub fn step(&mut self, hub: &mut Hub, event: Event, now: Timestamp) -> (r: Vec<Effect>)
        requires
            old(hub).wf(),
        ensures
            final(hub).wf(),
            transition(
                old(self).spec_phase(),
                *old(hub),
                event,
                now,
                final(self).spec_phase(),
                *final(hub),
                r@,
            ),
    {
        match self.phase {
            Phase::Connecting => {
                match event {
                    Event::Accepted => {
                        self.phase = Phase::Authenticating;
                        Vec::new()
                    },
                    _ => {
                        self.phase = Phase::Closed;
                        vec![Effect::Close]
                    },
                }
            },
            Phase::Authenticating => {
                let ok = match &event {
                    Event::Text(t) => hub.auth(Some(t.as_str())).is_ok(),
                    _ => false,
                };
                if ok {
                    match hub.join(now) {
                        Some((id, announcement)) => {
                            self.phase = Phase::Active { id };
                            vec![Effect::Publish(announcement), Effect::SendSnapshot, Effect::Subscribe]
                        },
                        None => {
                            self.phase = Phase::Closed;
                            vec![Effect::Close]
                        },
                    }
                } else {
                    self.phase = Phase::Closed;
                    vec![Effect::Close]
                }
            },
            Phase::Active { id } => {
                match event {
                    Event::Text(t) => vec![Effect::Process(t)],
                    Event::Ended | Event::SendFailed => {
                        let farewell = hub.leave(id, now);
                        self.phase = Phase::Closed;
                        vec![Effect::StopLoops, Effect::Publish(farewell)]
                    },
                    _ => Vec::new(),
                }
            },
            Phase::Closed => Vec::new(),
        }
    }
}

/// The ids under which the given connections are active.
pub open spec fn active_ids(sessions: Seq<Phase>) -> Set<u64> {
    Set::new(|id: u64| exists|i: int| 0 <= i < sessions.len() && sessions[i] == (Phase::Active { id }))
}

/// No two of the given connections are active under the same id.
pub open spec fn ids_distinct(sessions: Seq<Phase>) -> bool {
    forall|i: int, j: int|
        0 <= i < sessions.len() && 0 <= j < sessions.len() && (#[trigger] sessions[i]) is Active
            && sessions[i] == #[trigger] sessions[j] ==> i == j
}

/// A connection that fails the handshake gets nothing but the closing of
/// its outbound side: no event is published or sent to it, it never joins,
/// and the registry, with its count, is left as it was.
pub proof fn lemma_failed_handshake(
    hub: Hub,
    event: Event,
    now: Timestamp,
    next: Phase,
    hub2: Hub,
    effects: Seq<Effect>,
)
    requires
        !authorised(event, hub.key()),
        transition(Phase::Authenticating, hub, event, now, next, hub2, effects),
    ensures
        next == Phase::Closed,
        effects == seq![Effect::Close],
        hub2.members() == hub.members(),
        hub2.members().len() == hub.members().len(),
{
}

/// A closed connection stays closed and does nothing, whatever it observes.
pub proof fn lemma_closed_is_final(
    hub: Hub,
    event: Event,
    now: Timestamp,
    next: Phase,
    hub2: Hub,
    effects: Seq<Effect>,
)
    requires
        transition(Phase::Closed, hub, event, now, next, hub2, effects),
    ensures
        next == Phase::Closed,
        hub2 == hub,
        effects.len() == 0,
{
}

/// A connection that passes the handshake joins the registry and publishes
/// exactly one `PeerJoined`, whose total is the registry count right after
/// its join. Only then does it subscribe to the broadcast, so the
/// announcement reaches the connections active before it and not itself;
/// it gets the snapshot of the aggregate directly instead.
pub proof fn lemma_join_announced(
    hub: Hub,
    event: Event,
    now: Timestamp,
    next: Phase,
    hub2: Hub,
    effects: Seq<Effect>,
)
    requires
        authorised(event, hub.key()),
        hub.has_free_id(),
        transition(Phase::Authenticating, hub, event, now, next, hub2, effects),
    ensures
        next == (Phase::Active { id: hub.next_id() }),
        hub2.members().contains(hub.next_id()),
        hub2.members().len() == hub.members().len() + 1,
        effects.len() == 3,
        effects[0] == Effect::Publish(
            Message::PeerJoined { total: hub2.members().len() as u64, last_joined: Some(now) },
        ),
        effects[1] == Effect::SendSnapshot,
        effects[2] == Effect::Subscribe,
        forall|i: int| 0 <= i < effects.len() && #[trigger] effects[i] is Publish ==> i == 0,
{
}

/// An active connection whose socket ends for any reason, a reset without a
/// close frame included, stops both of its loops, leaves the registry,
/// whose count drops by exactly one, and publishes `PeerLeft` with that
/// count to the connections that remain.
pub proof fn lemma_disconnect(
    id: u64,
    hub: Hub,
    event: Event,
    now: Timestamp,
    next: Phase,
    hub2: Hub,
    effects: Seq<Effect>,
)
    requires
        hub.members().contains(id),
        event is Ended || event is SendFailed,
        transition(Phase::Active { id }, hub, event, now, next, hub2, effects),
    ensures
        next == Phase::Closed,
        !hub2.members().contains(id),
        hub2.members().len() == hub.members().len() - 1,
        effects == seq![
            Effect::StopLoops,
            Effect::Publish(
                Message::PeerLeft { total: hub2.members().len() as u64, last_left: Some(now) },
            ),
        ],
{
}

/// The registry holds exactly the ids of the connections that completed
/// the handshake and have not ended: if that holds of a population of
/// connections and one of them takes a step, it holds afterwards.
pub proof fn lemma_membership_tracks_sessions(
    sessions: Seq<Phase>,
    k: int,
    hub: Hub,
    event: Event,
    now: Timestamp,
    next: Phase,
    hub2: Hub,
    effects: Seq<Effect>,
)
    requires
        0 <= k < sessions.len(),
        hub.members() == active_ids(sessions),
        ids_distinct(sessions),
        transition(sessions[k], hub, event, now, next, hub2, effects),
    ensures
        hub2.members() == active_ids(sessions.update(k, next)),
        ids_distinct(sessions.update(k, next)),
{
    let after = sessions.update(k, next);
    let before_active = sessions[k] is Active;
    let after_active = next is Active;
    if !before_active && !after_active {
        assert(hub2 == hub);
        assert forall|id: u64| active_ids(after).contains(id) <==> active_ids(sessions).contains(id) by {
            if active_ids(after).contains(id) {
                let i = choose|i: int| 0 <= i < after.len() && after[i] == (Phase::Active { id });
                assert(i != k);
                assert(sessions[i] == (Phase::Active { id }));
            }
            if active_ids(sessions).contains(id) {
                let i = choose|i: int| 0 <= i < sessions.len() && sessions[i] == (Phase::Active { id });
                assert(i != k);
                assert(after[i] == (Phase::Active { id }));
            }
        }
        assert(active_ids(after) =~= active_ids(sessions));
    } else if !before_active {
        let fresh = hub.next_id();
        assert(next == (Phase::Active { id: fresh }));
        assert(!active_ids(sessions).contains(fresh));
        assert forall|id: u64| active_ids(after).contains(id) <==> active_ids(sessions).insert(fresh).contains(
            id,
        ) by {
            if active_ids(after).contains(id) && id != fresh {
                let i = choose|i: int| 0 <= i < after.len() && after[i] == (Phase::Active { id });
                assert(i != k);
                assert(sessions[i] == (Phase::Active { id }));
            }
            if id == fresh {
                assert(after[k] == (Phase::Active { id }));
            } else if active_ids(sessions).contains(id) {
                let i = choose|i: int| 0 <= i < sessions.len() && sessions[i] == (Phase::Active { id });
                assert(i != k);
                assert(after[i] == (Phase::Active { id }));
            }
        }
        assert(active_ids(after) =~= active_ids(sessions).insert(fresh));
        assert forall|i: int, j: int|
            0 <= i < after.len() && 0 <= j < after.len() && (#[trigger] after[i]) is Active && after[i]
                == #[trigger] after[j] implies i == j by {
            if i != k && j != k {
                assert(sessions[i] == after[i] && sessions[j] == after[j]);
            } else if i != k {
                assert(sessions[i] == (Phase::Active { id: fresh }));
            } else if j != k {
                assert(sessions[j] == (Phase::Active { id: fresh }));
            }
        }
    } else {
        let id0 = sessions[k]->id;
        if after_active {
            assert(hub2 == hub && next == sessions[k]);
            assert(after =~= sessions);
        } else {
            assert(sessions[k] == (Phase::Active { id: id0 }));
            assert forall|id: u64| active_ids(after).contains(id) <==> active_ids(sessions).remove(id0).contains(
                id,
            ) by {
                if active_ids(after).contains(id) {
                    let i = choose|i: int| 0 <= i < after.len() && after[i] == (Phase::Active { id });
                    assert(i != k);
                    assert(sessions[i] == (Phase::Active { id }));
                    if id == id0 {
                        assert(sessions[k] == (Phase::Active { id }));
                    }
                }
                if active_ids(sessions).remove(id0).contains(id) {
                    let i = choose|i: int| 0 <= i < sessions.len() && sessions[i] == (Phase::Active { id });
                    assert(i != k);
                    assert(after[i] == (Phase::Active { id }));
                }
            }
            assert(active_ids(after) =~= active_ids(sessions).remove(id0));
            assert forall|i: int, j: int|
                0 <= i < after.len() && 0 <= j < after.len() && (#[trigger] after[i]) is Active
                    && after[i] == #[trigger] after[j] implies i == j by {
                assert(i != k && j != k);
                assert(sessions[i] == after[i] && sessions[j] == after[j]);
            }
        }
    }
}

} // verus!
