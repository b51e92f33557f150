//! The per-connection state machine of the master: greeting, lobby,
//! attachment to an instance, and hand-back of the outbound sink.
//!
//! The runtime reads frames, looks instances up, moves the sink and sends;
//! it reports each happening as an [`Event`] and carries out the returned
//! [`Action`]s in order.
use vstd::prelude::*;
use crate::instance::{custom_step, Control, InstanceView};
use crate::server::InMsg;
use crate::meter::{sampled, Measurement};
use crate::protocol::{ClientMsg, ServerMsg};

verus! {

/// Where a session stands, and who holds its outbound sink.
#[derive(Clone, Copy, Debug, PartialEq, Eq, Structural)]
pub enum Phase {
    /// Waiting for the greeting; the session holds the sink.
    Accepted,
    /// In the lobby; the session holds the sink.
    InLobby,
    /// Waiting for the lookup of the instance asked for; the session holds
    /// the sink.
    Joining { instance_id: u128 },
    /// The instance holds the sink; the session forwards.
    Attached { instance_id: u128 },
    /// The departure was forwarded and the instance still holds the sink;
    /// `close` tells whether the session ends once it comes back.
    Leaving { instance_id: u128, close: bool },
    /// The session is over.
    Closed,
}

/// What happened to a session.
#[derive(Clone, Debug, PartialEq, Eq)]
pub enum Event {
    /// A frame of `size` bytes that decoded to `msg`, read at `now` ms.
    Frame { msg: ClientMsg, size: u64, now: u64 },
    /// A frame of `size` bytes that did not decode, read at `now` ms.
    Malformed { size: u64, now: u64 },
    /// The stream ended or failed.
    End,
    /// The instance asked for exists (`found`) or not.
    Lookup { found: bool },
    /// The instance handed the sink back.
    SinkReturned,
    /// The instance ended without handing the sink back.
    SinkLost,
}

/// What the runtime does for a session, in the order given.
#[derive(Clone, Debug, PartialEq, Eq)]
pub enum Action {
    /// Send `msg` on the session's sink.
    Send(ServerMsg),
    /// Send the current list of instances on the session's sink.
    SendDirectory,
    /// Create an instance with this client as creator, and send its id.
    CreateInstance,
    /// Look the instance up and report `Event::Lookup`.
    Lookup { instance_id: u128 },
    /// Hand the sink over to the instance.
    Transfer { instance_id: u128 },
    /// Pass `control` to the instance.
    Forward { instance_id: u128, control: Control },
}

/// Abstract state of a session.
pub struct SessionView {
    pub phase: Phase,
    pub client_id: u128,
    pub client_name: String,
    pub creation_enabled: bool,
    /// Meter of the frames read from the client.
    pub inbound: Measurement,
}

/// The session after a frame of `size` bytes is charged at `now`.
pub open spec fn charged(v: SessionView, size: u64, now: u64) -> SessionView {
    SessionView { inbound: sampled(v.inbound, size, now), ..v }
}

/// The session moved to `phase`.
pub open spec fn with_phase(v: SessionView, phase: Phase) -> SessionView {
    SessionView { phase, ..v }
}

/// The departure of this client, for the instance.
pub open spec fn leave(v: SessionView, instance_id: u128) -> Action {
    Action::Forward { instance_id, control: Control::ClientLeft { client_id: v.client_id } }
}

/// The next state of a session and the actions it asks for, on event `ev`.
pub open spec fn next(v: SessionView, ev: Event) -> (SessionView, Seq<Action>) {
    match v.phase {
        Phase::Closed => (v, Seq::empty()),
        Phase::Accepted => match ev {
            Event::Frame { msg, size, now } => {
                let v1 = charged(v, size, now);
                match msg {
                    ClientMsg::Hello { client_id, client_name } => (
                        SessionView { phase: Phase::InLobby, client_id, client_name, ..v1 },
                        seq![Action::Send(ServerMsg::JoinedLobby {  }), Action::SendDirectory],
                    ),
                    _ => (v1, Seq::empty()),
                }
            },
            Event::Malformed { size, now } => (
                with_phase(charged(v, size, now), Phase::Closed),
                Seq::empty(),
            ),
            Event::End => (with_phase(v, Phase::Closed), Seq::empty()),
            _ => (v, Seq::empty()),
        },
        Phase::InLobby => match ev {
            Event::Frame { msg, size, now } => {
                let v1 = charged(v, size, now);
                match msg {
                    ClientMsg::CreateInstance {  } => if v.creation_enabled {
                        (v1, seq![Action::CreateInstance])
                    } else {
                        (v1, Seq::empty())
                    },
                    ClientMsg::RefreshInstances => (v1, seq![Action::SendDirectory]),
                    ClientMsg::JoinInstance { instance_id } => (
                        with_phase(v1, Phase::Joining { instance_id }),
                        seq![Action::Lookup { instance_id }],
                    ),
                    _ => (v1, Seq::empty()),
                }
            },
            Event::Malformed { size, now } => (
                with_phase(charged(v, size, now), Phase::Closed),
                Seq::empty(),
            ),
            Event::End => (with_phase(v, Phase::Closed), Seq::empty()),
            _ => (v, Seq::empty()),
        },
        Phase::Joining { instance_id } => match ev {
            Event::Lookup { found } => if found {
                (
                    with_phase(v, Phase::Attached { instance_id }),
                    seq![Action::Transfer { instance_id }],
                )
            } else {
                (with_phase(v, Phase::InLobby), Seq::empty())
            },
            Event::Malformed { size, now } => (
                with_phase(charged(v, size, now), Phase::Closed),
                Seq::empty(),
            ),
            Event::End => (with_phase(v, Phase::Closed), Seq::empty()),
            _ => (v, Seq::empty()),
        },
        Phase::Attached { instance_id } => match ev {
            Event::Frame { msg, size, now } => {
                let v1 = charged(v, size, now);
                match msg {
                    ClientMsg::CustomMsg { msg } => (
                        v1,
                        seq![
                            Action::Forward {
                                instance_id,
                                control: Control::CustomMsg { client_id: v.client_id, msg },
                            },
                        ],
                    ),
                    ClientMsg::Ping { tick } => (
                        v1,
                        seq![
                            Action::Forward {
                                instance_id,
                                control: Control::Ping {
                                    client_id: v.client_id,
                                    tick,
                                    client_bytes_sec: v1.inbound.latest,
                                },
                            },
                        ],
                    ),
                    ClientMsg::Hello { .. } => (v1, Seq::empty()),
                    _ => (
                        with_phase(v1, Phase::Leaving { instance_id, close: false }),
                        seq![leave(v, instance_id)],
                    ),
                }
            },
            Event::Malformed { size, now } => (
                with_phase(charged(v, size, now), Phase::Leaving { instance_id, close: true }),
                seq![leave(v, instance_id)],
            ),
            Event::End => (
                with_phase(v, Phase::Leaving { instance_id, close: true }),
                seq![leave(v, instance_id)],
            ),
            Event::SinkReturned => (with_phase(v, Phase::InLobby), seq![Action::SendDirectory]),
            Event::SinkLost => (with_phase(v, Phase::Closed), Seq::empty()),
            Event::Lookup { .. } => (v, Seq::empty()),
        },
        Phase::Leaving { instance_id, close } => match ev {
            Event::SinkReturned => if close {
                (with_phase(v, Phase::Closed), Seq::empty())
            } else {
                (with_phase(v, Phase::InLobby), seq![Action::SendDirectory])
            },
            Event::SinkLost => (with_phase(v, Phase::Closed), Seq::empty()),
            Event::Malformed { .. } => (
                with_phase(v, Phase::Leaving { instance_id, close: true }),
                Seq::empty(),
            ),
            Event::End => (
                with_phase(v, Phase::Leaving { instance_id, close: true }),
                Seq::empty(),
            ),
            _ => (v, Seq::empty()),
        },
    }
}

/// One client connection, from accept to close.
pub struct Session {
    phase: Phase,
    client_id: u128,
    client_name: String,
    creation_enabled: bool,
    inbound: Measurement,
}

impl View for Session {
    type V = SessionView;

    closed spec fn view(&self) -> SessionView {
        SessionView {
            phase: self.phase,
            client_id: self.client_id,
            client_name: self.client_name,
            creation_enabled: self.creation_enabled,
            inbound: self.inbound,
        }
    }
}

impl Session {
    /// A session just accepted at `now` ms; `creation_enabled` tells whether
    /// its client may create instances.
    pub fn new(creation_enabled: bool, now: u64) -> (r: Session)
        ensures
            r@.phase == Phase::Accepted,
            r@.client_id == 0,
            r@.creation_enabled == creation_enabled,
            r@.inbound == (Measurement { accumulator: 0, latest: 0, window_start: now }),
    {
        Session {
            phase: Phase::Accepted,
            client_id: 0,
            client_name: String::new(),
            creation_enabled,
            inbound: Measurement::new(now),
        }
    }

    pub fn phase(&self) -> (r: Phase)
        ensures
            r == self@.phase,
    {
        self.phase
    }

    /// The client's id, as given in its greeting.
    pub fn client_id(&self) -> (r: u128)
        ensures
            r == self@.client_id,
    {
        self.client_id
    }

    /// The client's name, as given in its greeting.
    pub fn client_name(&self) -> (r: &str)
        ensures
            r@ == self@.client_name@,
    {
        self.client_name.as_str()
    }

    /// Bytes read from the client in the window completed last.
    pub fn inbound_per_second(&mut self, now: u64) -> (r: u64)
        ensures
            final(self)@ == (SessionView {
                inbound: crate::meter::rolled(old(self)@.inbound, now),
                ..old(self)@
            }),
            r == final(self)@.inbound.latest,
    {
        self.inbound.per_second(now)
    }

    fn charge(&mut self, size: u64, now: u64)
        ensures
            final(self)@ == charged(old(self)@, size, now),
    {
        self.inbound.sample(size, now);
    }

    /// Moves the session on by `ev`; returns what the runtime must do.
    pub fn step(&mut self, ev: Event) -> (r: Vec<Action>)
        ensures
            (final(self)@, r@) == next(old(self)@, ev),
    {
        let mut acts: Vec<Action> = Vec::new();
        match self.phase {
            Phase::Closed => {},
            Phase::Accepted => match ev {
                Event::Frame { msg, size, now } => {
                    self.charge(size, now);
                    match msg {
                        ClientMsg::Hello { client_id, client_name } => {
                            self.phase = Phase::InLobby;
                            self.client_id = client_id;
                            self.client_name = client_name;
                            acts.push(Action::Send(ServerMsg::JoinedLobby {  }));
                            acts.push(Action::SendDirectory);
                        },
                        _ => {},
                    }
                },
                Event::Malformed { size, now } => {
                    self.charge(size, now);
                    self.phase = Phase::Closed;
                },
                Event::End => {
                    self.phase = Phase::Closed;
                },
                _ => {},
            },
            Phase::InLobby => match ev {
                Event::Frame { msg, size, now } => {
                    self.charge(size, now);
                    match msg {
                        ClientMsg::CreateInstance {  } => {
                            if self.creation_enabled {
                                acts.push(Action::CreateInstance);
                            }
                        },
                        ClientMsg::RefreshInstances => {
                            acts.push(Action::SendDirectory);
                        },
                        ClientMsg::JoinInstance { instance_id } => {
                            self.phase = Phase::Joining { instance_id };
                            acts.push(Action::Lookup { instance_id });
                        },
                        _ => {},
                    }
                },
                Event::Malformed { size, now } => {
                    self.charge(size, now);
                    self.phase = Phase::Closed;
                },
                Event::End => {
                    self.phase = Phase::Closed;
                },
                _ => {},
            },
            Phase::Joining { instance_id } => match ev {
                Event::Lookup { found } => {
                    if found {
                        self.phase = Phase::Attached { instance_id };
                        acts.push(Action::Transfer { instance_id });
                    } else {
                        self.phase = Phase::InLobby;
                    }
                },
                Event::Malformed { size, now } => {
                    self.charge(size, now);
                    self.phase = Phase::Closed;
                },
                Event::End => {
                    self.phase = Phase::Closed;
                },
                _ => {},
            },
            Phase::Attached { instance_id } => {
                let client_id = self.client_id;
                let leave = Action::Forward {
                    instance_id,
                    control: Control::ClientLeft { client_id },
                };
                match ev {
                    Event::Frame { msg, size, now } => {
                        self.charge(size, now);
                        match msg {
                            ClientMsg::CustomMsg { msg } => {
                                acts.push(
                                    Action::Forward {
                                        instance_id,
                                        control: Control::CustomMsg { client_id, msg },
                                    },
                                );
                            },
                            ClientMsg::Ping { tick } => {
                                let rate = self.inbound.latest;
                                acts.push(
                                    Action::Forward {
                                        instance_id,
                                        control: Control::Ping {
                                            client_id,
                                            tick,
                                            client_bytes_sec: rate,
                                        },
                                    },
                                );
                            },
                            ClientMsg::Hello { .. } => {},
                            _ => {
                                self.phase = Phase::Leaving { instance_id, close: false };
                                acts.push(leave);
                            },
                        }
                    },
                    Event::Malformed { size, now } => {
                        self.charge(size, now);
                        self.phase = Phase::Leaving { instance_id, close: true };
                        acts.push(leave);
                    },
                    Event::End => {
                        self.phase = Phase::Leaving { instance_id, close: true };
                        acts.push(leave);
                    },
                    Event::SinkReturned => {
                        self.phase = Phase::InLobby;
                        acts.push(Action::SendDirectory);
                    },
                    Event::SinkLost => {
                        self.phase = Phase::Closed;
                    },
                    Event::Lookup { .. } => {},
                }
            },
            Phase::Leaving { instance_id, close } => match ev {
                Event::SinkReturned => {
                    if close {
                        self.phase = Phase::Closed;
                    } else {
                        self.phase = Phase::InLobby;
                        acts.push(Action::SendDirectory);
                    }
                },
                Event::SinkLost => {
                    self.phase = Phase::Closed;
                },
                Event::Malformed { .. } => {
                    self.phase = Phase::Leaving { instance_id, close: true };
                },
                Event::End => {
                    self.phase = Phase::Leaving { instance_id, close: true };
                },
                _ => {},
            },
        }
        proof {
            let (v2, a2) = next(old(self)@, ev);
            assert(acts@ =~= a2);
        }
        acts
    }
}

/// Whether the session holds its outbound sink in phase `p`.
pub open spec fn holds_sink(p: Phase) -> bool {
    p is Accepted || p is InLobby || p is Joining
}

/// The instance that holds the session's sink in phase `p`, if any.
pub open spec fn sink_holder(p: Phase) -> Option<u128> {
    match p {
        Phase::Attached { instance_id } => Some(instance_id),
        Phase::Leaving { instance_id, .. } => Some(instance_id),
        _ => None,
    }
}

/// The outbound sink has one holder at a time and changes hands only by the
/// hand-off: the session gives it to an instance only by a transfer to that
/// instance, gets it back only when the instance returns it, never passes it
/// from one instance to another, and sends only while it holds it.
pub proof fn lemma_sink_exclusive(v: SessionView, ev: Event)
    ensures
        !(holds_sink(v.phase) && sink_holder(v.phase).is_some()),
        ({
            let (v2, a) = next(v, ev);
            &&& holds_sink(v.phase) && sink_holder(v2.phase) == Some(
                v2.phase->Attached_instance_id,
            ) ==> v2.phase is Attached && a == seq![
                Action::Transfer { instance_id: v2.phase->Attached_instance_id },
            ]
            &&& sink_holder(v.phase).is_some() && holds_sink(v2.phase) ==> ev
                == Event::SinkReturned
            &&& sink_holder(v.phase).is_some() && sink_holder(v2.phase).is_some() ==> sink_holder(
                v.phase,
            ) == sink_holder(v2.phase)
            &&& forall|k: int|
                0 <= k < a.len() && (#[trigger] a[k] is Send || a[k] is SendDirectory
                    || a[k] is CreateInstance) ==> holds_sink(v2.phase)
            &&& forall|k: int|
                0 <= k < a.len() && #[trigger] a[k] is Transfer ==> holds_sink(v.phase)
        }),
{
}

/// An attached session that stops forwarding for any reason other than the
/// instance handing the sink back (or ending) tells the instance that its
/// client left, and then waits for the sink.
pub proof fn lemma_leave_forwarded(v: SessionView, ev: Event)
    requires
        v.phase is Attached,
        next(v, ev).0.phase != v.phase,
        ev != Event::SinkReturned,
        ev != Event::SinkLost,
    ensures
        next(v, ev).1 == seq![leave(v, v.phase->Attached_instance_id)],
        next(v, ev).0.phase matches Phase::Leaving { instance_id, .. }
            && instance_id == v.phase->Attached_instance_id,
{
}

/// A session that forwarded a departure waits quietly for its sink: it
/// forwards nothing more and transfers nothing until the sink is back, so
/// each attachment ends with one departure.
pub proof fn lemma_leaving_is_quiet(v: SessionView, ev: Event)
    requires
        v.phase is Leaving,
    ensures
        forall|k: int|
            0 <= k < next(v, ev).1.len() ==> !(#[trigger] next(v, ev).1[k] is Forward) && !(
            next(v, ev).1[k] is Transfer),
        next(v, ev).0.phase is Leaving || ev == Event::SinkReturned || ev == Event::SinkLost,
{
}

/// The session after the events `evs` in turn, and all actions asked for.
pub open spec fn run(v: SessionView, evs: Seq<Event>) -> (SessionView, Seq<Action>)
    decreases evs.len(),
{
    if evs.len() == 0 {
        (v, Seq::empty())
    } else {
        let (v1, a1) = run(v, evs.drop_last());
        let (v2, a2) = next(v1, evs.last());
        (v2, a1 + a2)
    }
}

/// Whether `e` is a frame carrying a payload.
pub open spec fn is_custom_frame(e: Event) -> bool {
    e matches Event::Frame { msg: ClientMsg::CustomMsg { .. }, .. }
}

/// The payload of a frame that carries one.
pub open spec fn payload(e: Event) -> Vec<u8>
    recommends
        is_custom_frame(e),
{
    match e {
        Event::Frame { msg: ClientMsg::CustomMsg { msg }, .. } => msg,
        _ => arbitrary(),
    }
}

/// The instance after it handled, in turn, the payloads forwarded by `acts`.
pub open spec fn deliver_forwards(iv: InstanceView, acts: Seq<Action>) -> InstanceView
    decreases acts.len(),
{
    if acts.len() == 0 {
        iv
    } else {
        let before = deliver_forwards(iv, acts.drop_last());
        match acts.last() {
            Action::Forward { control: Control::CustomMsg { client_id, msg }, .. } => custom_step(
                before,
                client_id,
                msg,
            ),
            _ => before,
        }
    }
}

/// Payloads keep their order: while a client is attached, the payloads that
/// the instance delivers to its logic are those of the client's frames, in
/// the order in which the frames arrived.
pub proof fn lemma_custom_order(v: SessionView, evs: Seq<Event>, iv: InstanceView)
    requires
        v.phase is Attached,
        forall|i: int| 0 <= i < evs.len() ==> is_custom_frame(#[trigger] evs[i]),
        iv.clients.contains(v.client_id),
    ensures
        run(v, evs).0.phase == v.phase,
        deliver_forwards(iv, run(v, evs).1).history == iv.history + evs.map_values(
            |e: Event| InMsg::CustomMsg { client_id: v.client_id, msg: payload(e) },
        ),
    decreases evs.len(),
{
    let f = |e: Event| InMsg::CustomMsg { client_id: v.client_id, msg: payload(e) };
    if evs.len() == 0 {
        assert(iv.history + evs.map_values(f) =~= iv.history);
    } else {
        let init = evs.drop_last();
        assert forall|i: int| 0 <= i < init.len() implies is_custom_frame(#[trigger] init[i]) by {
            assert(init[i] == evs[i]);
        }
        lemma_custom_order(v, init, iv);
        lemma_run_keeps_client(v, init);
        lemma_deliver_keeps_clients(iv, run(v, init).1);
        let (v1, a1) = run(v, init);
        let (v2, a2) = next(v1, evs.last());
        assert(is_custom_frame(evs[evs.len() - 1]));
        assert((a1 + a2).drop_last() =~= a1);
        assert(evs.map_values(f) =~= init.map_values(f).push(f(evs.last())));
        assert(deliver_forwards(iv, a1 + a2).history =~= iv.history + evs.map_values(f));
    }
}

proof fn lemma_run_keeps_client(v: SessionView, evs: Seq<Event>)
    requires
        v.phase is Attached,
        forall|i: int| 0 <= i < evs.len() ==> is_custom_frame(#[trigger] evs[i]),
    ensures
        run(v, evs).0.client_id == v.client_id,
        run(v, evs).0.phase == v.phase,
    decreases evs.len(),
{
    if evs.len() > 0 {
        let init = evs.drop_last();
        assert forall|i: int| 0 <= i < init.len() implies is_custom_frame(#[trigger] init[i]) by {
            assert(init[i] == evs[i]);
        }
        lemma_run_keeps_client(v, init);
        assert(is_custom_frame(evs[evs.len() - 1]));
    }
}

proof fn lemma_deliver_keeps_clients(iv: InstanceView, acts: Seq<Action>)
    ensures
        deliver_forwards(iv, acts).clients == iv.clients,
    decreases acts.len(),
{
    if acts.len() > 0 {
        lemma_deliver_keeps_clients(iv, acts.drop_last());
    }
}

} // verus!
