use std::collections::HashMap;
use vstd::prelude::*;

verus! {

broadcast use vstd::std_specs::hash::group_hash_axioms;

/// The server-side session store of the session-backed design: an
/// association from a session identifier (carried in a cookie) to the
/// authenticated user's identifier. A session is created on login and
/// destroyed on logout; a request is authenticated by looking its session
/// identifier up here. Mutation requires exclusive access; lookups are
/// read-only.
pub struct SessionStore {
    pub next_id: u64,
    pub sessions: HashMap<u64, String>,
}

impl SessionStore {
    /// The associations this store currently holds.
    pub open spec fn spec_sessions(&self) -> Map<u64, String> {
        self.sessions@
    }

    /// Well-formedness: every live session identifier was handed out
    /// before `next_id`, so a fresh identifier never collides.
    pub open spec fn wf(&self) -> bool {
        forall|sid: u64| #[trigger] self.sessions@.contains_key(sid) ==> sid < self.next_id
    }

    /// An empty store: no client is authenticated.
    pub fn new() -> (r: SessionStore)
        ensures
            r.wf(),
            r.spec_sessions() == Map::<u64, String>::empty(),
    {
        SessionStore { next_id: 0, sessions: HashMap::new() }
    }

    /// Establishes a session for `user_id` and returns its fresh
    /// identifier: the client moves from anonymous to authenticated. No
    /// existing session is touched.
    pub fn login(&mut self, user_id: String) -> (sid: u64)
        requires
            old(self).wf(),
            old(self).next_id < u64::MAX,
        ensures
            final(self).wf(),
            !old(self).spec_sessions().contains_key(sid),
            final(self).spec_sessions() == old(self).spec_sessions().insert(sid, user_id),
    {
        let sid = self.next_id;
        self.next_id = self.next_id + 1;
        self.sessions.insert(sid, user_id);
        sid
    }

    /// Destroys the session `sid`, if it exists: the client moves back to
    /// anonymous. Afterwards `sid` no longer exists in the store — a
    /// replayed cookie carrying it is rejected — and every other session
    /// is untouched.
    pub fn logout(&mut self, sid: u64)
        requires
            old(self).wf(),
        ensures
            final(self).wf(),
            final(self).spec_sessions() == old(self).spec_sessions().remove(sid),
            !final(self).spec_sessions().contains_key(sid),
    {
        self.sessions.remove(&sid);
    }

    /// The guard of the session-backed design: looks up the session
    /// referenced by a request's session cookie. Yields the user
    /// identifier exactly when the session exists.
    pub fn current_user(&self, sid: u64) -> (r: Option<String>)
        ensures
            match r {
                Some(u) => self.spec_sessions().contains_key(sid) && self.spec_sessions()[sid]@
                    == u@,
                None => !self.spec_sessions().contains_key(sid),
            },
    {
        match self.sessions.get(&sid) {
            Some(u) => Some(u.clone()),
            None => None,
        }
    }
}

/// Logout revokes: once a session identifier has been removed from the
/// store, a replayed request carrying the same identifier finds no
/// session, whatever the store held before.
pub proof fn lemma_logout_revokes(m: Map<u64, String>, sid: u64)
    ensures
        !m.remove(sid).contains_key(sid),
{
}

} // verus!
