use vstd::prelude::*;

use crate::data::{Registrations, Timestamp};

verus! {

/// An inbound request of an authenticated connection.
#[derive(Debug, Clone, PartialEq, Eq)]
pub enum Request {
    /// Record the identifier, unless it is recorded already.
    Register { address: String },
    /// Ask whether the identifier is recorded.
    Check { address: String },
}

impl Request {
    /// The identifier that the request is about.
    pub open spec fn spec_address(self) -> String {
        match self {
            Request::Register { address } => address,
            Request::Check { address } => address,
        }
    }

    /// The identifier that the request is about.
    pub fn address(&self) -> (r: &String)
        ensures
            *r == self.spec_address(),
    {
        match self {
            Request::Register { address } => address,
            Request::Check { address } => address,
        }
    }
}

/// An outbound event, sent to one connection or to all of them.
#[derive(Debug, Clone, Copy, PartialEq, Eq, Structural)]
pub enum Message {
    /// The aggregate state of the store; `address` is present only in the
    /// direct reply to a request, where it says whether the identifier is
    /// registered.
    Registered { total: i64, address: Option<bool>, last_registered: Option<Timestamp> },
    /// A connection became active; `total` is the number of active ones.
    PeerJoined { total: u64, last_joined: Option<Timestamp> },
    /// A connection closed; `total` is the number of active ones left.
    PeerLeft { total: u64, last_left: Option<Timestamp> },
}

/// The `Registered` event for an aggregate state, with an optional outcome.
pub open spec fn registered_event(agg: Registrations, address: Option<bool>) -> Message {
    Message::Registered { total: agg.total, address, last_registered: agg.last_registered }
}

impl Message {
    /// The generic "totals changed" event, as broadcast and as the snapshot
    /// that a newly active connection receives.
    pub fn snapshot(agg: Registrations) -> (r: Message)
        ensures
            r == registered_event(agg, None),
    {
        Message::Registered { total: agg.total, address: None, last_registered: agg.last_registered }
    }

    /// The direct reply to a request whose outcome is `matched`.
    pub fn outcome(agg: Registrations, matched: bool) -> (r: Message)
        ensures
            r == registered_event(agg, Some(matched)),
    {
        Message::Registered {
            total: agg.total,
            address: Some(matched),
            last_registered: agg.last_registered,
        }
    }
}

} // verus!
