//! Decisions of one instance: admission, the attachment table, the delivery
//! of client messages to the logic, tick timing and the fan-out of what the
//! logic emits.
//!
//! The runtime holds the outbound sinks keyed by client id and carries out
//! what these functions return: it keeps a transferred sink when admitted,
//! hands it back when rejected or released, and sends each delivery.
use vstd::prelude::*;
use crate::meter::add_sat;
use crate::protocol::{InstanceInfo, ServerMsg};
use crate::server::{Config, Ctx, InMsg, OutMsg};

verus! {

/// Whether client `c` is joined after the messages `h` were delivered.
pub open spec fn joined_in(h: Seq<InMsg>, c: u128) -> bool
    decreases h.len(),
{
    if h.len() == 0 {
        false
    } else {
        match h.last() {
            InMsg::ClientJoined { client_id, .. } => if client_id == c {
                true
            } else {
                joined_in(h.drop_last(), c)
            },
            InMsg::ClientLeft { client_id } => if client_id == c {
                false
            } else {
                joined_in(h.drop_last(), c)
            },
            InMsg::CustomMsg { .. } => joined_in(h.drop_last(), c),
        }
    }
}

/// Whether `m` may follow the messages `h`: a client joins only when it is
/// not joined, and leaves or sends only while joined.
pub open spec fn admissible(h: Seq<InMsg>, m: InMsg) -> bool {
    match m {
        InMsg::ClientJoined { client_id, .. } => !joined_in(h, client_id),
        InMsg::ClientLeft { client_id } => joined_in(h, client_id),
        InMsg::CustomMsg { client_id, .. } => joined_in(h, client_id),
    }
}

/// Every message of `h` is admissible after those before it.
pub open spec fn well_paired(h: Seq<InMsg>) -> bool {
    forall|i: int| 0 <= i < h.len() ==> admissible(h.take(i), #[trigger] h[i])
}

/// Abstract state of an instance.
pub struct InstanceView {
    pub info: InstanceInfo,
    /// Attached clients, in the order in which they joined.
    pub clients: Seq<u128>,
    /// Time of the last tick, in microseconds.
    pub last_tick: u64,
    /// Every message delivered to the logic so far.
    pub history: Seq<InMsg>,
}

/// The state invariant: the player count is the size of the attachment
/// table and within the maximum; each client is attached once; the delivered
/// messages pair joins and leaves, and the attached clients are those joined.
pub open spec fn instance_inv(v: InstanceView) -> bool {
    &&& v.info.current_players == v.clients.len()
    &&& v.info.current_players <= v.info.max_players
    &&& v.clients.no_duplicates()
    &&& well_paired(v.history)
    &&& forall|c: u128| #[trigger] joined_in(v.history, c) <==> v.clients.contains(c)
}

/// A send of `msg` to the sink of `client_id`.
pub struct Delivery {
    pub client_id: u128,
    pub msg: Vec<u8>,
}

impl View for Delivery {
    type V = (u128, Seq<u8>);

    open spec fn view(&self) -> (u128, Seq<u8>) {
        (self.client_id, self.msg@)
    }
}

/// The instance after client `c` sent `msg`: delivered where `c` is
/// attached, dropped otherwise.
pub open spec fn custom_step(v: InstanceView, c: u128, msg: Vec<u8>) -> InstanceView {
    if v.clients.contains(c) {
        InstanceView { history: v.history.push(InMsg::CustomMsg { client_id: c, msg }), ..v }
    } else {
        v
    }
}

/// The views of `s`.
pub open spec fn views(s: Seq<Delivery>) -> Seq<(u128, Seq<u8>)> {
    s.map_values(|d: Delivery| d@)
}

/// One send of `msg` to each of `clients`, in order.
pub open spec fn to_each(clients: Seq<u128>, msg: Seq<u8>) -> Seq<(u128, Seq<u8>)> {
    clients.map_values(|c: u128| (c, msg))
}

/// The sends that one emitted message stands for, given the attached clients.
pub open spec fn targets(m: OutMsg, clients: Seq<u128>) -> Seq<(u128, Seq<u8>)> {
    match m {
        OutMsg::CustomToAll { msg } => to_each(clients, msg@),
        OutMsg::CustomTo { client_id, msg } => if clients.contains(client_id) {
            seq![(client_id, msg@)]
        } else {
            Seq::empty()
        },
    }
}

/// The sends that the emitted messages `out` stand for, in order.
pub open spec fn fan_out(out: Seq<OutMsg>, clients: Seq<u128>) -> Seq<(u128, Seq<u8>)>
    decreases out.len(),
{
    if out.len() == 0 {
        Seq::empty()
    } else {
        fan_out(out.drop_last(), clients) + targets(out.last(), clients)
    }
}

/// A message from a client's session to the instance it is attached to.
#[derive(Clone, Debug, PartialEq, Eq)]
pub enum Control {
    /// The client left or its connection ended.
    ClientLeft { client_id: u128 },
    /// A payload from the client.
    CustomMsg { client_id: u128, msg: Vec<u8> },
    /// A ping to answer; `client_bytes_sec` is the client's inbound rate.
    Ping { client_id: u128, tick: u64, client_bytes_sec: u64 },
}

/// Outcome of a client's request to join.
#[derive(Clone, Copy, Debug, PartialEq, Eq, Structural)]
pub enum Admission {
    /// The client is attached; the runtime keeps its sink.
    Joined(InstanceInfo),
    /// The client is not attached; the runtime hands its sink back.
    Rejected(InstanceInfo),
}

impl Admission {
    /// The reply sent on the client's sink.
    pub fn reply(&self) -> (r: ServerMsg)
        ensures
            match *self {
                Admission::Joined(info) => r == ServerMsg::JoinedInstance { instance: info },
                Admission::Rejected(info) => r == ServerMsg::JoinRejected { instance: info },
            },
    {
        match *self {
            Admission::Joined(info) => ServerMsg::JoinedInstance { instance: info },
            Admission::Rejected(info) => ServerMsg::JoinRejected { instance: info },
        }
    }
}

/// State of one instance, apart from its logic and its sinks.
pub struct InstanceState {
    info: InstanceInfo,
    clients: Vec<u128>,
    last_tick: u64,
    history: Ghost<Seq<InMsg>>,
}

impl View for InstanceState {
    type V = InstanceView;

    closed spec fn view(&self) -> InstanceView {
        InstanceView {
            info: self.info,
            clients: self.clients@,
            last_tick: self.last_tick,
            history: self.history@,
        }
    }
}

proof fn lemma_push_admissible(h: Seq<InMsg>, m: InMsg)
    requires
        well_paired(h),
        admissible(h, m),
    ensures
        well_paired(h.push(m)),
        forall|c: u128| #[trigger]
            joined_in(h.push(m), c) == match m {
                InMsg::ClientJoined { client_id, .. } => client_id == c || joined_in(h, c),
                InMsg::ClientLeft { client_id } => client_id != c && joined_in(h, c),
                InMsg::CustomMsg { .. } => joined_in(h, c),
            },
{
    let h2 = h.push(m);
    assert(h2.drop_last() =~= h);
    assert forall|i: int| 0 <= i < h2.len() implies admissible(h2.take(i), #[trigger] h2[i]) by {
        if i < h.len() {
            assert(h2.take(i) =~= h.take(i));
        } else {
            assert(h2.take(i) =~= h);
        }
    }
}

proof fn lemma_remove_unique(s: Seq<u128>, i: int)
    requires
        s.no_duplicates(),
        0 <= i < s.len(),
    ensures
        s.remove(i).no_duplicates(),
        forall|c: u128| #[trigger] s.remove(i).contains(c) <==> s.contains(c) && c != s[i],
{
    let r = s.remove(i);
    assert forall|c: u128| #[trigger] r.contains(c) <==> s.contains(c) && c != s[i] by {
        if r.contains(c) {
            let j = choose|j: int| 0 <= j < r.len() && r[j] == c;
            if j < i {
                assert(s[j] == c);
            } else {
                assert(s[j + 1] == c);
            }
        }
        if s.contains(c) && c != s[i] {
            let j = choose|j: int| 0 <= j < s.len() && s[j] == c;
            if j < i {
                assert(r[j] == c);
            } else {
                assert(j != i);
                assert(r[j - 1] == c);
            }
        }
    }
}

impl InstanceState {
    /// The state invariant holds of this instance.
    pub open spec fn wf(&self) -> bool {
        instance_inv(self@)
    }

    /// A freshly started instance with no clients, whose logic returned
    /// `config`, started at `now` microseconds.
    pub fn new(id: u128, creator: u128, config: Config, now: u64) -> (r: InstanceState)
        ensures
            r.wf(),
            r@.info == (InstanceInfo {
                id,
                creator,
                max_players: config.max_players,
                current_players: 0,
            }),
            r@.clients == Seq::<u128>::empty(),
            r@.last_tick == now,
            r@.history == Seq::<InMsg>::empty(),
    {
        InstanceState {
            info: InstanceInfo { id, creator, max_players: config.max_players, current_players: 0 },
            clients: Vec::new(),
            last_tick: now,
            history: Ghost(Seq::empty()),
        }
    }

    /// The current descriptor.
    pub fn info(&self) -> (r: InstanceInfo)
        ensures
            r == self@.info,
    {
        self.info
    }

    /// Position of `client_id` in the attachment table.
    fn find(&self, client_id: u128) -> (r: Option<usize>)
        ensures
            match r {
                Some(i) => i < self@.clients.len() && self@.clients[i as int] == client_id,
                None => !self@.clients.contains(client_id),
            },
    {
        let mut i: usize = 0;
        while i < self.clients.len()
            invariant
                0 <= i <= self.clients@.len(),
                forall|j: int| 0 <= j < i ==> self.clients@[j] != client_id,
            decreases self.clients@.len() - i,
        {
            if self.clients[i] == client_id {
                return Some(i);
            }
            i = i + 1;
        }
        None
    }

    /// Whether `client_id` is attached.
    pub fn is_attached(&self, client_id: u128) -> (r: bool)
        ensures
            r == self@.clients.contains(client_id),
    {
        match self.find(client_id) {
            Some(_) => true,
            None => false,
        }
    }

    /// Handles a client handed over by its session. It is admitted when a
    /// place is free and it is not attached already: it is then attached,
    /// counted, and its join is delivered to the logic.
    pub fn transfer(&mut self, ctx: &mut Ctx, client_id: u128, client_name: String) -> (r:
        Admission)
        requires
            old(self).wf(),
        ensures
            final(self).wf(),
            ({
                let room = old(self)@.info.current_players < old(self)@.info.max_players
                    && !old(self)@.clients.contains(client_id);
                let joined = InMsg::ClientJoined { client_id, client_name };
                if room {
                    &&& final(self)@.info == (InstanceInfo {
                        current_players: (old(self)@.info.current_players + 1) as u32,
                        ..old(self)@.info
                    })
                    &&& final(self)@.clients == old(self)@.clients.push(client_id)
                    &&& final(self)@.history == old(self)@.history.push(joined)
                    &&& final(self)@.last_tick == old(self)@.last_tick
                    &&& final(ctx).in_messages@ == old(ctx).in_messages@.push(joined)
                    &&& r == Admission::Joined(final(self)@.info)
                } else {
                    &&& final(self)@ == old(self)@
                    &&& final(ctx).in_messages@ == old(ctx).in_messages@
                    &&& r == Admission::Rejected(old(self)@.info)
                }
            }),
            final(ctx).out_messages@ == old(ctx).out_messages@,
            final(ctx).delta_micros == old(ctx).delta_micros,
            final(ctx).time_micros == old(ctx).time_micros,
    {
        if self.info.current_players < self.info.max_players && !self.is_attached(client_id) {
            let ghost joined = InMsg::ClientJoined { client_id, client_name: client_name };
            proof {
                lemma_push_admissible(self.history@, joined);
            }
            self.info.current_players = self.info.current_players + 1;
            self.clients.push(client_id);
            ctx.in_messages.push_back(InMsg::ClientJoined { client_id, client_name });
            self.history = Ghost(self.history@.push(joined));
            proof {
                assert forall|c: u128| #[trigger] self.clients@.contains(c) <==> c == client_id
                    || old(self).clients@.contains(c) by {
                    if self.clients@.contains(c) && c != client_id {
                        let j = choose|j: int| 0 <= j < self.clients@.len() && self.clients@[j] == c;
                        assert(old(self).clients@[j] == c);
                    }
                    if old(self).clients@.contains(c) {
                        let j = choose|j: int|
                            0 <= j < old(self).clients@.len() && old(self).clients@[j] == c;
                        assert(self.clients@[j] == c);
                    }
                    if c == client_id {
                        assert(self.clients@[self.clients@.len() - 1] == c);
                    }
                }
            }
            Admission::Joined(self.info)
        } else {
            Admission::Rejected(self.info)
        }
    }

    /// Handles the departure of a client. Where it is attached it is
    /// detached and uncounted, its departure is delivered to the logic, and
    /// `true` tells the runtime to hand its sink back.
    pub fn client_left(&mut self, ctx: &mut Ctx, client_id: u128) -> (r: bool)
        requires
            old(self).wf(),
        ensures
            final(self).wf(),
            r == old(self)@.clients.contains(client_id),
            r ==> {
                let left = InMsg::ClientLeft { client_id };
                &&& final(self)@.info == (InstanceInfo {
                    current_players: (old(self)@.info.current_players - 1) as u32,
                    ..old(self)@.info
                })
                &&& exists|i: int|
                    0 <= i < old(self)@.clients.len() && old(self)@.clients[i] == client_id
                        && final(self)@.clients == old(self)@.clients.remove(i)
                &&& final(self)@.history == old(self)@.history.push(left)
                &&& final(self)@.last_tick == old(self)@.last_tick
                &&& final(ctx).in_messages@ == old(ctx).in_messages@.push(left)
            },
            !r ==> final(self)@ == old(self)@ && final(ctx).in_messages@ == old(
                ctx,
            ).in_messages@,
            final(ctx).out_messages@ == old(ctx).out_messages@,
            final(ctx).delta_micros == old(ctx).delta_micros,
            final(ctx).time_micros == old(ctx).time_micros,
    {
        match self.find(client_id) {
            Some(i) => {
                let ghost left = InMsg::ClientLeft { client_id };
                proof {
                    lemma_push_admissible(self.history@, left);
                    lemma_remove_unique(self.clients@, i as int);
                }
                self.clients.remove(i);
                self.info.current_players = self.info.current_players - 1;
                ctx.in_messages.push_back(InMsg::ClientLeft { client_id });
                self.history = Ghost(self.history@.push(left));
                true
            },
            None => false,
        }
    }

    /// Delivers a client's payload to the logic where the client is
    /// attached, and drops it otherwise; returns whether it was delivered.
    pub fn custom(&mut self, ctx: &mut Ctx, client_id: u128, msg: Vec<u8>) -> (r: bool)
        requires
            old(self).wf(),
        ensures
            final(self).wf(),
            r == old(self)@.clients.contains(client_id),
            final(self)@ == custom_step(old(self)@, client_id, msg),
            final(ctx).in_messages@ == if r {
                old(ctx).in_messages@.push(InMsg::CustomMsg { client_id, msg })
            } else {
                old(ctx).in_messages@
            },
            final(ctx).out_messages@ == old(ctx).out_messages@,
            final(ctx).delta_micros == old(ctx).delta_micros,
            final(ctx).time_micros == old(ctx).time_micros,
    {
        if self.is_attached(client_id) {
            let ghost m = InMsg::CustomMsg { client_id, msg: msg };
            proof {
                lemma_push_admissible(self.history@, m);
            }
            ctx.in_messages.push_back(InMsg::CustomMsg { client_id, msg });
            self.history = Ghost(self.history@.push(m));
            assert(self@ =~= custom_step(old(self)@, client_id, msg));
            true
        } else {
            false
        }
    }

    /// The answer to a client's ping: a pong that echoes `tick` with the two
    /// byte rates, where the client is attached.
    pub fn ping(&self, client_id: u128, tick: u64, server_bytes_sec: u64, client_bytes_sec: u64) -> (r:
        Option<ServerMsg>)
        ensures
            r == if self@.clients.contains(client_id) {
                Some(ServerMsg::Pong { tick, server_bytes_sec, client_bytes_sec })
            } else {
                None
            },
    {
        if self.is_attached(client_id) {
            Some(ServerMsg::Pong { tick, server_bytes_sec, client_bytes_sec })
        } else {
            None
        }
    }

    /// Starts a tick at `now` microseconds: the context learns the time
    /// since the previous tick (zero if the clock reads earlier) and adds it
    /// to the running time.
    pub fn begin_tick(&mut self, ctx: &mut Ctx, now: u64)
        requires
            old(self).wf(),
        ensures
            final(self).wf(),
            final(self)@ == (InstanceView { last_tick: now, ..old(self)@ }),
            final(ctx).delta_micros == (if now >= old(self)@.last_tick {
                now - old(self)@.last_tick
            } else {
                0
            }),
            final(ctx).time_micros == add_sat(old(ctx).time_micros, final(ctx).delta_micros),
            final(ctx).in_messages@ == old(ctx).in_messages@,
            final(ctx).out_messages@ == old(ctx).out_messages@,
    {
        let delta: u64 = if now >= self.last_tick {
            now - self.last_tick
        } else {
            0
        };
        ctx.delta_micros = delta;
        ctx.time_micros = ctx.time_micros.saturating_add(delta);
        self.last_tick = now;
    }

    /// Ends a tick: turns what the logic emitted into sends to attached
    /// clients, in the order emitted, and empties both queues, so that each
    /// delivered message is seen by one tick.
    pub fn finish_tick(&self, ctx: &mut Ctx) -> (r: Vec<Delivery>)
        requires
            self.wf(),
        ensures
            views(r@) == fan_out(old(ctx).out_messages@, self@.clients),
            final(ctx).in_messages@ == Seq::<InMsg>::empty(),
            final(ctx).out_messages@ == Seq::<OutMsg>::empty(),
            final(ctx).delta_micros == old(ctx).delta_micros,
            final(ctx).time_micros == old(ctx).time_micros,
    {
        let ghost out0 = ctx.out_messages@;
        let total = ctx.out_messages.len();
        let mut sends: Vec<Delivery> = Vec::new();
        let mut k: usize = 0;
        while ctx.out_messages.len() > 0
            invariant
                self.wf(),
                k <= out0.len(),
                out0.len() == total,
                ctx.out_messages@ == out0.subrange(k as int, out0.len() as int),
                views(sends@) == fan_out(out0.take(k as int), self@.clients),
                ctx.delta_micros == old(ctx).delta_micros,
                ctx.time_micros == old(ctx).time_micros,
            decreases ctx.out_messages@.len(),
        {
            let m = ctx.out_messages.pop_front();
            match m {
                Some(m) => {
                    let ghost before = views(sends@);
                    let ghost gm = m;
                    match m {
                        OutMsg::CustomToAll { msg } => {
                            let mut j: usize = 0;
                            while j < self.clients.len()
                                invariant
                                    0 <= j <= self.clients@.len(),
                                    views(sends@) == before + to_each(
                                        self.clients@.take(j as int),
                                        msg@,
                                    ),
                                decreases self.clients@.len() - j,
                            {
                                let copy = msg.clone();
                                assert(copy@ =~= msg@);
                                let ghost prev = sends@;
                                sends.push(Delivery { client_id: self.clients[j], msg: copy });
                                proof {
                                    assert(views(sends@) =~= views(prev).push(
                                        (self.clients@[j as int], msg@),
                                    ));
                                    assert(to_each(self.clients@.take(j + 1), msg@) =~= to_each(
                                        self.clients@.take(j as int),
                                        msg@,
                                    ).push((self.clients@[j as int], msg@)));
                                }
                                j = j + 1;
                            }
                            assert(self.clients@.take(j as int) =~= self.clients@);
                        },
                        OutMsg::CustomTo { client_id, msg } => {
                            if self.is_attached(client_id) {
                                let ghost prev = sends@;
                                sends.push(Delivery { client_id, msg });
                                assert(views(sends@) =~= before + seq![
                                    (client_id, msg@),
                                ]);
                            } else {
                                assert(before + Seq::<(u128, Seq<u8>)>::empty() =~= before);
                            }
                        },
                    }
                    proof {
                        assert(out0.take(k + 1).drop_last() =~= out0.take(k as int));
                        assert(out0.take(k + 1).last() == gm);
                    }
                    k = k + 1;
                    assert(ctx.out_messages@ =~= out0.subrange(k as int, out0.len() as int));
                },
                None => {},
            }
        }
        assert(out0.take(k as int) =~= out0);
        ctx.in_messages.clear();
        sends
    }
}

/// The player count equals the number of attached clients and stays within
/// the maximum, in every state the operations reach.
pub proof fn lemma_players_match(s: InstanceView)
    requires
        instance_inv(s),
    ensures
        s.info.current_players == s.clients.len(),
        s.info.current_players <= s.info.max_players,
{
}

proof fn lemma_joined_persists(h: Seq<InMsg>, c: u128, a: int, b: int)
    requires
        0 <= a <= b <= h.len(),
        joined_in(h.take(a), c),
        forall|k: int| a <= k < b ==> #[trigger] h[k] != (InMsg::ClientLeft { client_id: c }),
    ensures
        joined_in(h.take(b), c),
    decreases b - a,
{
    if b > a {
        lemma_joined_persists(h, c, a, b - 1);
        assert(h.take(b).drop_last() =~= h.take(b - 1));
        assert(h.take(b).last() == h[b - 1]);
    }
}

/// A client that joined joins again only after it left: between two
/// deliveries of its join there is a delivery of its departure. (Every
/// departure and every payload of a client comes while it is joined, by
/// `well_paired`.)
pub proof fn lemma_leave_between_joins(h: Seq<InMsg>, c: u128, i: int, j: int)
    requires
        well_paired(h),
        0 <= i < j < h.len(),
        h[i] matches InMsg::ClientJoined { client_id, .. } && client_id == c,
        h[j] matches InMsg::ClientJoined { client_id, .. } && client_id == c,
    ensures
        exists|k: int| i < k < j && #[trigger] h[k] == (InMsg::ClientLeft { client_id: c }),
{
    assert(h.take(i + 1).drop_last() =~= h.take(i));
    assert(h.take(i + 1).last() == h[i]);
    assert(joined_in(h.take(i + 1), c));
    assert(admissible(h.take(j), h[j]));
    if !exists|k: int| i < k < j && #[trigger] h[k] == (InMsg::ClientLeft { client_id: c }) {
        lemma_joined_persists(h, c, i + 1, j);
    }
}

/// The instance writes only to sinks it holds: every send of a tick goes
/// to an attached client.
pub proof fn lemma_sends_to_attached(out: Seq<OutMsg>, clients: Seq<u128>)
    ensures
        forall|k: int|
            0 <= k < fan_out(out, clients).len() ==> clients.contains(
                #[trigger] fan_out(out, clients)[k].0,
            ),
    decreases out.len(),
{
    if out.len() > 0 {
        lemma_sends_to_attached(out.drop_last(), clients);
        let prev = fan_out(out.drop_last(), clients);
        let last = targets(out.last(), clients);
        assert forall|k: int| 0 <= k < fan_out(out, clients).len() implies clients.contains(
            #[trigger] fan_out(out, clients)[k].0,
        ) by {
            if k >= prev.len() {
                let j = k - prev.len();
                assert(fan_out(out, clients)[k] == last[j]);
                if out.last() is CustomToAll {
                    assert(last[j].0 == clients[j]);
                }
            } else {
                assert(fan_out(out, clients)[k] == prev[k]);
            }
        }
    }
}

} // verus!
