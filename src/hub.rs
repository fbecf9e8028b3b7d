use vstd::prelude::*;

use crate::data::Timestamp;
use crate::error::Error;
use crate::protocol::Message;
use crate::registry::Clients;

verus! {

/// The characters with the Unicode `White_Space` property, which
/// `char::is_whitespace` tests.
pub open spec fn white_space(c: char) -> bool {
    let u = c as u32;
    ||| 0x09 <= u <= 0x0D
    ||| u == 0x20
    ||| u == 0x85
    ||| u == 0xA0
    ||| u == 0x1680
    ||| 0x2000 <= u <= 0x200A
    ||| u == 0x2028
    ||| u == 0x2029
    ||| u == 0x202F
    ||| u == 0x205F
    ||| u == 0x3000
}

/// `s` without its leading white space.
pub open spec fn trim_start(s: Seq<char>) -> Seq<char>
    decreases s.len(),
{
    if s.len() > 0 && white_space(s[0]) {
        trim_start(s.drop_first())
    } else {
        s
    }
}

/// `s` without its trailing white space.
pub open spec fn trim_end(s: Seq<char>) -> Seq<char>
    decreases s.len(),
{
    if s.len() > 0 && white_space(s.last()) {
        trim_end(s.drop_last())
    } else {
        s
    }
}

/// `s` without its leading and trailing white space.
pub open spec fn trim_of(s: Seq<char>) -> Seq<char> {
    trim_end(trim_start(s))
}

/// Relies on `str::trim`: the slice of `s` without the leading and trailing
/// characters for which `char::is_whitespace` holds.
#[verifier::external_body]
fn trimmed(s: &str) -> (r: String)
    ensures
        r@ == trim_of(s@),
{
    s.trim().to_owned()
}

/// The shared state of all connections: the secret that the handshake
/// expects, the membership registry, and the next session id to hand out.
pub struct Hub {
    api_key: String,
    clients: Clients,
    next_id: u64,
}

impl Hub {
    /// The shared secret.
    pub closed spec fn key(&self) -> Seq<char> {
        self.api_key@
    }

    /// The ids of the active connections.
    pub closed spec fn members(&self) -> Set<u64> {
        self.clients@
    }

    /// The id the next admitted connection receives.
    pub closed spec fn next_id(&self) -> u64 {
        self.next_id
    }

    /// The registry is well formed, and every member id was handed out
    /// before, so a fresh id is never a member.
    pub closed spec fn wf(&self) -> bool {
        &&& self.clients.wf()
        &&& forall|id: u64| self.clients@.contains(id) ==> id < self.next_id
    }

    /// Whether another session id can be handed out.
    pub open spec fn has_free_id(&self) -> bool {
        self.next_id() < u64::MAX
    }

    /// The membership set of a well-formed hub is finite.
    pub proof fn lemma_members_finite(&self)
        requires
            self.wf(),
        ensures
            self.members().finite(),
    {
        self.clients.lemma_finite();
    }

    /// A hub with no connections, expecting `api_key` in the handshake.
    pub fn init(api_key: String) -> (r: Hub)
        ensures
            r.wf(),
            r.key() == api_key@,
            r.members() == Set::<u64>::empty(),
            r.next_id() == 1,
    {
        Hub { api_key, clients: Clients::new(), next_id: 1 }
    }

    /// Whether an already trimmed handshake text is the shared secret.
    pub fn accepts(&self, trimmed: &str) -> (r: bool)
        ensures
            r == (trimmed@ == self.key()),
    {
        let candidate = trimmed.to_owned();
        self.api_key == candidate
    }

    /// Checks the first inbound frame of a connection: it must be text and,
    /// once surrounding white space is trimmed, equal the shared secret.
    /// `None` stands for a first frame that is missing or not text.
    pub fn auth(&self, first: Option<&str>) -> (r: Result<(), Error>)
        ensures
            r is Ok <==> (first matches Some(t) && trim_of(t@) == self.key()),
            r is Err ==> r == Err::<(), Error>(Error::AuthenticationFailed),
    {
        match first {
            Some(text) => {
                let t = trimmed(text);
                if self.accepts(t.as_str()) {
                    Ok(())
                } else {
                    Err(Error::AuthenticationFailed)
                }
            },
            None => Err(Error::AuthenticationFailed),
        }
    }

    /// The number of active connections.
    pub fn count(&self) -> (r: u64)
        requires
            self.wf(),
        ensures
            r == self.members().len(),
    {
        self.clients.count()
    }

    /// Whether `id` is an active connection.
    pub fn is_member(&self, id: u64) -> (r: bool)
        requires
            self.wf(),
        ensures
            r == self.members().contains(id),
    {
        self.clients.contains(id)
    }

    /// Joins an authenticated connection: hands out a fresh id, adds it to
    /// the registry, and returns the id with the `PeerJoined` event that
    /// announces it, counting the registry after the join. `None`, with
    /// nothing changed, once the ids are used up.
    pub fn join(&mut self, now: Timestamp) -> (r: Option<(u64, Message)>)
        requires
            old(self).wf(),
        ensures
            final(self).wf(),
            final(self).key() == old(self).key(),
            r is Some <==> old(self).has_free_id(),
            r is None ==> *final(self) == *old(self),
            r matches Some((id, m)) ==> {
                &&& id == old(self).next_id()
                &&& !old(self).members().contains(id)
                &&& final(self).members() == old(self).members().insert(id)
                &&& final(self).members().len() == old(self).members().len() + 1
                &&& final(self).next_id() == id + 1
                &&& m == (Message::PeerJoined {
                    total: final(self).members().len() as u64,
                    last_joined: Some(now),
                })
            },
    {
        if self.next_id == u64::MAX {
            return None;
        }
        let id = self.next_id;
        proof {
            self.clients.lemma_finite();
        }
        self.next_id = id + 1;
        self.clients.join(id);
        let total = self.clients.count();
        Some((id, Message::PeerJoined { total, last_joined: Some(now) }))
    }

    /// Removes a connection from the registry and returns the `PeerLeft`
    /// event that announces it, counting the registry after the leave.
    /// Removing an id that is not a member changes nothing in the registry.
    pub fn leave(&mut self, id: u64, now: Timestamp) -> (r: Message)
        requires
            old(self).wf(),
        ensures
            final(self).wf(),
            final(self).key() == old(self).key(),
            final(self).next_id() == old(self).next_id(),
            final(self).members() == old(self).members().remove(id),
            old(self).members().contains(id) ==> final(self).members().len() == old(
                self,
            ).members().len() - 1,
            r == (Message::PeerLeft { total: final(self).members().len() as u64, last_left: Some(now) }),
    {
        proof {
            self.clients.lemma_finite();
        }
        self.clients.leave(id);
        let total = self.clients.count();
        Message::PeerLeft { total, last_left: Some(now) }
    }
}

} // verus!
