//! What instance logic sees: the messages in and out, its configuration, and
//! the per-tick context.
use vstd::prelude::*;
use std::collections::VecDeque;

verus! {

/// A message delivered to instance logic.
#[derive(Clone, Debug, PartialEq, Eq)]
pub enum InMsg {
    ClientJoined { client_id: u128, client_name: String },
    ClientLeft { client_id: u128 },
    CustomMsg { client_id: u128, msg: Vec<u8> },
}

/// A message emitted by instance logic.
#[derive(Clone, Debug, PartialEq, Eq)]
pub enum OutMsg {
    CustomToAll { msg: Vec<u8> },
    CustomTo { client_id: u128, msg: Vec<u8> },
}

/// Returned by instance logic at startup.
#[derive(Clone, Copy, Debug, PartialEq, Eq, Structural)]
pub struct Config {
    /// Ticks per second; above zero.
    pub tick_rate: u64,
    pub max_players: u32,
}

/// Per-tick scratch space of one instance.
pub struct Ctx {
    /// Messages waiting for the logic, oldest first.
    pub in_messages: VecDeque<InMsg>,
    /// Messages emitted by the logic this tick, oldest first.
    pub out_messages: VecDeque<OutMsg>,
    /// Microseconds since the previous tick; may be large after a stall.
    pub delta_micros: u64,
    /// Microseconds since the instance started.
    pub time_micros: u64,
}

impl Ctx {
    /// An empty context at time zero.
    pub fn new() -> (r: Ctx)
        ensures
            r.in_messages@ == Seq::<InMsg>::empty(),
            r.out_messages@ == Seq::<OutMsg>::empty(),
            r.delta_micros == 0,
            r.time_micros == 0,
    {
        Ctx {
            in_messages: VecDeque::new(),
            out_messages: VecDeque::new(),
            delta_micros: 0,
            time_micros: 0,
        }
    }

    /// Takes the oldest waiting message.
    pub fn pop_msg(&mut self) -> (r: Option<InMsg>)
        ensures
            old(self).in_messages@.len() == 0 ==> r.is_none() && final(self).in_messages@
                == old(self).in_messages@,
            old(self).in_messages@.len() > 0 ==> r == Some(old(self).in_messages@[0])
                && final(self).in_messages@ == old(self).in_messages@.drop_first(),
            final(self).out_messages@ == old(self).out_messages@,
            final(self).delta_micros == old(self).delta_micros,
            final(self).time_micros == old(self).time_micros,
    {
        self.in_messages.pop_front()
    }

    /// Emits `msg` after those emitted before.
    pub fn push_msg(&mut self, msg: OutMsg)
        ensures
            final(self).out_messages@ == old(self).out_messages@.push(msg),
            final(self).in_messages@ == old(self).in_messages@,
            final(self).delta_micros == old(self).delta_micros,
            final(self).time_micros == old(self).time_micros,
    {
        self.out_messages.push_back(msg);
    }

    /// Takes all waiting messages, oldest first.
    pub fn pop_all(&mut self) -> (r: VecDeque<InMsg>)
        ensures
            r@ == old(self).in_messages@,
            final(self).in_messages@ == Seq::<InMsg>::empty(),
            final(self).out_messages@ == old(self).out_messages@,
            final(self).delta_micros == old(self).delta_micros,
            final(self).time_micros == old(self).time_micros,
    {
        let mut all: VecDeque<InMsg> = VecDeque::new();
        while self.in_messages.len() > 0
            invariant
                all@ + self.in_messages@ == old(self).in_messages@,
                self.out_messages@ == old(self).out_messages@,
                self.delta_micros == old(self).delta_micros,
                self.time_micros == old(self).time_micros,
            decreases self.in_messages@.len(),
        {
            let ghost before = self.in_messages@;
            match self.in_messages.pop_front() {
                Some(m) => {
                    all.push_back(m);
                    assert(all@ + self.in_messages@ =~= old(self).in_messages@);
                },
                None => {},
            }
        }
        assert(all@ + self.in_messages@ =~= all@);
        all
    }
}

} // verus!
