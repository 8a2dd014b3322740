use vstd::prelude::*;

verus! {

/// What one poll of a topic's pending messages gives.
#[derive(Debug)]
pub enum Polled {
    /// A message with this payload.
    Payload(String),
    /// The signal that the connection changed (no message).
    ConnectionSignal,
    /// Nothing is pending.
    Nothing,
}

/// Reading goes on after a poll that gave `polled`, when the last message
/// seen so far is `last`: while something was pending, or while no
/// non-empty message has been seen.
pub open spec fn keeps_polling(last: Seq<char>, polled: Polled) -> bool {
    !(polled is Nothing) || last.len() == 0
}

/// Reading the last message retained on a topic: every pending message is
/// drained, and the reading goes on until some message has been seen.
#[derive(Debug)]
pub struct LastMessagePoll {
    last: String,
}

impl LastMessagePoll {
    /// The payload of the last message seen so far (empty before any).
    pub closed spec fn spec_last(&self) -> Seq<char> {
        self.last@
    }

    /// Nothing seen yet.
    pub fn new() -> (p: Self)
        ensures
            p.spec_last() == Seq::<char>::empty(),
    {
        LastMessagePoll { last: String::new() }
    }

    /// Whether to go on after a poll gave `polled`: while something was
    /// pending, or while no non-empty message has been seen.
    pub fn keep_polling(&self, polled: &Polled) -> (go_on: bool)
        ensures
            go_on == keeps_polling(self.spec_last(), *polled),
    {
        match polled {
            Polled::Nothing => self.last.as_str().is_empty(),
            _ => true,
        }
    }

    /// Takes in one poll: a message becomes the last one seen. Returns
    /// whether the connection must be restored first: nothing was pending
    /// and the client is not connected.
    pub fn absorb(&mut self, polled: Polled, connected: bool) -> (reconnect: bool)
        ensures
            polled matches Polled::Payload(p) ==> final(self).spec_last() == p@,
            !(polled is Payload) ==> final(self).spec_last() == old(self).spec_last(),
            reconnect == (polled is Nothing && !connected),
    {
        match polled {
            Polled::Payload(p) => {
                self.last = p;
                false
            },
            Polled::ConnectionSignal => false,
            Polled::Nothing => !connected,
        }
    }

    /// The last message seen.
    pub fn message(self) -> (m: String)
        ensures
            m@ == self.spec_last(),
    {
        self.last
    }
}

/// Reading stops only on a poll that gave nothing, once a non-empty message
/// has been seen.
pub proof fn lemma_stops_with_message(last: Seq<char>, polled: Polled)
    requires
        !keeps_polling(last, polled),
    ensures
        polled is Nothing,
        last.len() > 0,
{
}

} // verus!
