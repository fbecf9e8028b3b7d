use vstd::prelude::*;

use std::collections::HashSet;

verus! {

/// The membership registry: the ids of the connections that completed the
/// handshake and have not left yet.
pub struct Clients {
    ids: HashSet<u64>,
}

impl View for Clients {
    type V = Set<u64>;

    closed spec fn view(&self) -> Set<u64> {
        self.ids@
    }
}

impl Clients {
    /// The registry holds finitely many ids.
    pub closed spec fn wf(&self) -> bool {
        self.ids@.finite()
    }

    /// The set of members is finite.
    pub proof fn lemma_finite(&self)
        requires
            self.wf(),
        ensures
            self@.finite(),
    {
    }

    /// An empty registry.
    pub fn new() -> (r: Clients)
        ensures
            r.wf(),
            r@ == Set::<u64>::empty(),
    {
        Clients { ids: HashSet::new() }
    }

    /// Whether `id` is a member.
    pub fn contains(&self, id: u64) -> (r: bool)
        requires
            self.wf(),
        ensures
            r == self@.contains(id),
    {
        self.ids.contains(&id)
    }

    /// Adds `id`; a member already present stays as it is.
    pub fn join(&mut self, id: u64)
        requires
            old(self).wf(),
        ensures
            final(self).wf(),
            final(self)@ == old(self)@.insert(id),
    {
        self.ids.insert(id);
    }

    /// Removes `id`; leaving twice is the same as leaving once.
    pub fn leave(&mut self, id: u64) -> (r: bool)
        requires
            old(self).wf(),
        ensures
            final(self).wf(),
            final(self)@ == old(self)@.remove(id),
            r == old(self)@.contains(id),
    {
        self.ids.remove(&id)
    }

    /// The number of members.
    pub fn count(&self) -> (r: u64)
        requires
            self.wf(),
        ensures
            r == self@.len(),
    {
        self.ids.len() as u64
    }
}

} // verus!
