use vstd::prelude::*;

verus! {

/// Nanoseconds in one second.
pub const NANOS_PER_SEC: u32 = 1_000_000_000;

/// An instant in UTC: whole seconds since the Unix epoch and the
/// nanoseconds past that second.
#[derive(Debug, Clone, Copy, PartialEq, Eq, Structural)]
pub struct Timestamp {
    pub secs: i64,
    pub nanos: u32,
}

impl Timestamp {
    /// The nanosecond part stays below one second.
    pub open spec fn wf(self) -> bool {
        self.nanos < NANOS_PER_SEC
    }

    /// Builds an instant; `None` when the nanoseconds reach a full second.
    pub fn new(secs: i64, nanos: u32) -> (r: Option<Timestamp>)
        ensures
            nanos < NANOS_PER_SEC ==> r == Some(Timestamp { secs, nanos }),
            nanos >= NANOS_PER_SEC ==> r is None,
    {
        if nanos < NANOS_PER_SEC {
            Some(Timestamp { secs, nanos })
        } else {
            None
        }
    }
}

/// One registrant as the store keeps it: created once, on the first
/// successful insert of its identifier, and never changed.
#[derive(Debug, Clone, PartialEq, Eq)]
pub struct Registration {
    pub address: String,
    pub registered_at: Timestamp,
}

/// The aggregate state of the store: how many identifiers are registered
/// and when the most recent one was.
#[derive(Debug, Clone, Copy, PartialEq, Eq, Structural)]
pub struct Registrations {
    pub total: i64,
    pub last_registered: Option<Timestamp>,
}

} // verus!
