//! The node: it owns a logical clock, stamps what it sends and merges the
//! time of what it receives.

use vstd::prelude::*;
use crate::lamport_clock::{merged, ticked, LamportClock};

verus! {

/// The wire message: what was said, by whom, and the sender's logical time
/// when it was sent.
#[derive(Debug)]
pub struct SendMessageRequest {
    pub content: String,
    pub node_id: String,
    pub time: u64,
}

/// What a node reports for a message it has taken in: the content, the
/// sender, and the node's own time after the merge.
#[derive(Debug)]
pub struct Received {
    pub content: String,
    pub sender: String,
    pub time: u64,
}

/// A node of the chat. Its clock is touched only through `send_message`
/// and `receive_message`, each of which holds the node exclusively from
/// the first step to the last.
pub struct Client {
    node_id: String,
    lamport_clock: LamportClock,
}

impl Default for Client {
    fn default() -> (client: Self)
        ensures
            client.id() == Seq::<char>::empty(),
            client.now() == 0,
    {
        Client { node_id: String::new(), lamport_clock: LamportClock::default() }
    }
}

impl Client {
    /// The node's identity.
    pub closed spec fn id(&self) -> Seq<char> {
        self.node_id@
    }

    /// The node's logical time.
    pub closed spec fn now(&self) -> u64 {
        self.lamport_clock.time
    }

    /// A node named `node_id` whose clock stands at zero.
    pub fn new(node_id: &str) -> (client: Self)
        ensures
            client.id() == node_id@,
            client.now() == 0,
    {
        Client { node_id: node_id.to_owned(), lamport_clock: LamportClock::default() }
    }

    /// The node's identity.
    pub fn node_id(&self) -> (id: &str)
        ensures
            id@ == self.id(),
    {
        self.node_id.as_str()
    }

    /// The node's logical time.
    pub fn time(&self) -> (t: u64)
        ensures
            t == self.now(),
    {
        self.lamport_clock.time
    }

    /// Originates a message: ticks the clock once, then stamps `message`
    /// with this node's identity and the time the tick left.
    pub fn send_message(&mut self, message: String) -> (request: SendMessageRequest)
        ensures
            final(self).id() == old(self).id(),
            final(self).now() == ticked(old(self).now()),
            request.content@ == message@,
            request.node_id@ == old(self).id(),
            request.time == ticked(old(self).now()),
    {
        self.lamport_clock.tick();
        SendMessageRequest {
            content: message,
            node_id: self.node_id.clone(),
            time: self.lamport_clock.time,
        }
    }

    /// Takes in what one received line decoded to. A line that did not
    /// decode (`None`) is dropped and leaves the node as it was. A message
    /// is merged into the clock and reported with the time the merge left.
    pub fn receive_message(&mut self, decoded: Option<SendMessageRequest>) -> (report: Option<
        Received,
    >)
        ensures
            final(self).id() == old(self).id(),
            decoded is None ==> report is None && final(self).now() == old(self).now(),
            decoded matches Some(request) ==> {
                &&& final(self).now() == merged(old(self).now(), request.time)
                &&& report matches Some(r)
                &&& r.content@ == request.content@
                &&& r.sender@ == request.node_id@
                &&& r.time == merged(old(self).now(), request.time)
            },
    {
        match decoded {
            None => None,
            Some(request) => {
                self.lamport_clock.update(request.time);
                Some(
                    Received {
                        content: request.content,
                        sender: request.node_id,
                        time: self.lamport_clock.time,
                    },
                )
            },
        }
    }
}

} // verus!
