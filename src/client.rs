//! Client side: the inbound buffer and connection state behind the
//! reconnecting client. The runtime dials, reads frames and wakes waiters;
//! these functions decide what is kept and what a reader gets.
use vstd::prelude::*;
use crate::protocol::ServerMsg;

verus! {

/// What a reader waiting for messages gets.
#[derive(Debug, PartialEq, Eq)]
pub enum Poll {
    /// The buffered messages, oldest first; never empty.
    Ready(Vec<ServerMsg>),
    /// Nothing is buffered and the connection is down.
    Closed,
    /// Nothing is buffered yet; wait for a change and ask again.
    Pending,
}

/// Messages received and not yet taken, and whether the connection is up.
pub struct Inbox {
    messages: Vec<ServerMsg>,
    connected: bool,
}

pub struct InboxView {
    pub messages: Seq<ServerMsg>,
    pub connected: bool,
}

impl View for Inbox {
    type V = InboxView;

    closed spec fn view(&self) -> InboxView {
        InboxView { messages: self.messages@, connected: self.connected }
    }
}

impl Inbox {
    /// Disconnected, with nothing buffered.
    pub fn new() -> (r: Inbox)
        ensures
            r@.messages == Seq::<ServerMsg>::empty(),
            !r@.connected,
    {
        Inbox { messages: Vec::new(), connected: false }
    }

    pub fn is_connected(&self) -> (r: bool)
        ensures
            r == self@.connected,
    {
        self.connected
    }

    /// The connection came up; buffered messages stay.
    pub fn connected(&mut self)
        ensures
            final(self)@.connected,
            final(self)@.messages == old(self)@.messages,
    {
        self.connected = true;
    }

    /// The connection went down; buffered messages stay for readers.
    pub fn disconnected(&mut self)
        ensures
            !final(self)@.connected,
            final(self)@.messages == old(self)@.messages,
    {
        self.connected = false;
    }

    /// Handles a frame read from the server, decoded (`Some`) or not
    /// (`None`). A decoded message is buffered; an undecodable frame ends
    /// the connection. Returns whether to keep reading.
    pub fn received(&mut self, msg: Option<ServerMsg>) -> (r: bool)
        ensures
            r == msg.is_some(),
            match msg {
                Some(m) => final(self)@.messages == old(self)@.messages.push(m)
                    && final(self)@.connected == old(self)@.connected,
                None => final(self)@.messages == old(self)@.messages && !final(self)@.connected,
            },
    {
        match msg {
            Some(m) => {
                self.messages.push(m);
                true
            },
            None => {
                self.connected = false;
                false
            },
        }
    }

    /// Whether a message may be sent now: only while connected.
    pub fn can_send(&self) -> (r: bool)
        ensures
            r == self@.connected,
    {
        self.connected
    }

    fn drain(&mut self) -> (r: Vec<ServerMsg>)
        ensures
            r@ == old(self)@.messages,
            final(self)@.messages == Seq::<ServerMsg>::empty(),
            final(self)@.connected == old(self)@.connected,
    {
        let mut taken: Vec<ServerMsg> = Vec::new();
        std::mem::swap(&mut taken, &mut self.messages);
        taken
    }

    /// For a reader that waits for messages: all buffered messages where
    /// there are some, else `Closed` when disconnected, else `Pending`.
    pub fn messages(&mut self) -> (r: Poll)
        ensures
            old(self)@.messages.len() > 0 ==> final(self)@.messages == Seq::<ServerMsg>::empty()
                && (r matches Poll::Ready(v) && v@ == old(self)@.messages),
            old(self)@.messages.len() == 0 ==> final(self)@ == old(self)@ && if old(
                self,
            )@.connected {
                r == Poll::Pending
            } else {
                r == Poll::Closed
            },
            final(self)@.connected == old(self)@.connected,
    {
        if self.messages.len() > 0 {
            Poll::Ready(self.drain())
        } else if self.connected {
            Poll::Pending
        } else {
            Poll::Closed
        }
    }

    /// For a reader that does not wait: all buffered messages, possibly
    /// none, while connected; `None` when disconnected.
    pub fn poll_messages(&mut self) -> (r: Option<Vec<ServerMsg>>)
        ensures
            old(self)@.connected ==> final(self)@.messages == Seq::<ServerMsg>::empty()
                && (r matches Some(v) && v@ == old(self)@.messages),
            !old(self)@.connected ==> r.is_none() && final(self)@ == old(self)@,
            final(self)@.connected == old(self)@.connected,
    {
        if self.connected {
            Some(self.drain())
        } else {
            None
        }
    }
}

} // verus!
