//! The pair of transports over which messages travel to and from the penpal.

use vstd::prelude::*;

verus! {

/// Defines how the messages are transported.
///
/// Messages to and from the penpal can use different means of transportation.
pub struct Transport<Incoming, Outgoing> {
    incoming: Incoming,
    outgoing: Outgoing,
}

impl<Incoming, Outgoing> Transport<Incoming, Outgoing> {
    /// The transport that messages from the penpal arrive on.
    pub closed spec fn incoming(&self) -> Incoming {
        self.incoming
    }

    /// The transport that messages to the penpal leave on.
    pub closed spec fn outgoing(&self) -> Outgoing {
        self.outgoing
    }

    /// Create a new penpal that sends and receives messages using the given transports.
    pub fn new(incoming: Incoming, outgoing: Outgoing) -> (transport: Self)
        ensures
            transport.incoming() == incoming,
            transport.outgoing() == outgoing,
    {
        Transport { incoming, outgoing }
    }

    /// Takes the transport apart into its incoming and its outgoing transport.
    pub fn into_parts(self) -> (parts: (Incoming, Outgoing))
        ensures
            parts.0 == self.incoming(),
            parts.1 == self.outgoing(),
    {
        (self.incoming, self.outgoing)
    }
}

impl<T: Clone> Transport<T, T> {
    /// Create a new penpal that sends and receives messages using the given transport: a clone
    /// of it carries the incoming messages and the transport itself the outgoing ones.
    pub fn from_bidirectional(transport: T) -> (res: Self)
        ensures
            cloned::<T>(transport, res.incoming()),
            res.outgoing() == transport,
    {
        let incoming = transport.clone();
        Self::new(incoming, transport)
    }
}

} // verus!
