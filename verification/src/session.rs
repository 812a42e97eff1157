//! Client sessions: created on first contact, marked offline on disconnect
//! and kept so that the client can reconnect to them later.
use std::collections::HashMap;
use std::time::Instant;
use vstd::prelude::*;

verus! {

broadcast use vstd::std_specs::hash::group_hash_axioms;

#[verifier::external_type_specification]
#[verifier::external_body]
pub struct ExInstant(Instant);

/// The current instant, from `std::time::Instant::now`. Nothing is claimed of
/// the value: it is read from the clock.
#[verifier::external_body]
fn current_instant() -> Instant {
    Instant::now()
}

/// A client session.
pub struct Session {
    /// The session's id.
    pub id: u32,
    /// Whether a connection holds the session now.
    pub connected: bool,
    /// When the session last saw activity: its creation, a reconnect or a
    /// message.
    pub last_active: Instant,
    /// The player logged in on this session, 0 for none.
    pub player_id: u64,
}

/// An offline session that a client may take over again.
pub open spec fn reconnectable(sessions: Map<u32, Session>, id: u32) -> bool {
    sessions.contains_key(id) && !sessions[id].connected
}

/// The sessions after session `id` went offline; an unknown id changes
/// nothing.
pub open spec fn disconnected(sessions: Map<u32, Session>, id: u32) -> Map<u32, Session> {
    if sessions.contains_key(id) {
        sessions.insert(id, Session { connected: false, ..sessions[id] })
    } else {
        sessions
    }
}

/// All sessions, by id, and the next id to hand out.
pub struct SessionManager {
    sessions: HashMap<u32, Session>,
    next_id: u32,
}

impl SessionManager {
    proof fn lemma_wf_after_change(old_m: &SessionManager, new_m: &SessionManager, id: u32)
        requires
            old_m.wf(),
            new_m.next_id() == old_m.next_id() || (id == old_m.next_id() && new_m.next_id()
                == old_m.next_id() + 1),
            forall|k: u32| k != id ==> (#[trigger] new_m.sessions().contains_key(k)
                == old_m.sessions().contains_key(k)) && (new_m.sessions().contains_key(k)
                ==> new_m.sessions()[k] == old_m.sessions()[k]),
            new_m.sessions().contains_key(id) == (1 <= id < new_m.next_id()),
            new_m.sessions().contains_key(id) ==> new_m.sessions()[id].id == id,
        ensures
            new_m.wf(),
    {
        assert forall|k: u32| #[trigger] new_m.sessions().contains_key(k) == (1 <= k < new_m.next_id())
            by {
            if k != id {
                assert(old_m.sessions().contains_key(k) == (1 <= k < old_m.next_id()));
            }
        }
        assert forall|k: u32| #[trigger] new_m.sessions().contains_key(k) implies new_m.sessions()[k].id
            == k by {
            if k != id {
                assert(old_m.sessions().contains_key(k));
            }
        }
    }

    /// The sessions by id.
    pub closed spec fn sessions(&self) -> Map<u32, Session> {
        self.sessions@
    }

    /// The id the next new session gets.
    pub closed spec fn next_id(&self) -> u32 {
        self.next_id
    }

    /// Ids start at 1 and are handed out in turn; a session is never
    /// dropped, so the sessions present are exactly those under the ids
    /// handed out so far, each under its own id.
    pub open spec fn wf(&self) -> bool {
        &&& 1 <= self.next_id()
        &&& forall|k: u32| #[trigger] self.sessions().contains_key(k) == (1 <= k < self.next_id())
        &&& forall|k: u32| #[trigger] self.sessions().contains_key(k) ==> self.sessions()[k].id == k
    }

    /// A manager without sessions; the first id is 1.
    pub fn new() -> (r: SessionManager)
        ensures
            r.wf(),
            r.sessions() == Map::<u32, Session>::empty(),
            r.next_id() == 1,
    {
        let r = SessionManager { sessions: HashMap::new(), next_id: 1 };
        r
    }

    /// The id the next new session gets.
    pub fn next_session_id(&self) -> (r: u32)
        ensures
            r == self.next_id(),
    {
        self.next_id
    }

    /// Creates a connected session under a fresh id, with no player, and
    /// returns the id.
    pub fn create_session(&mut self) -> (id: u32)
        requires
            old(self).wf(),
            old(self).next_id() < u32::MAX,
        ensures
            final(self).wf(),
            id == old(self).next_id(),
            final(self).next_id() == old(self).next_id() + 1,
            !old(self).sessions().contains_key(id),
            final(self).sessions().dom() == old(self).sessions().dom().insert(id),
            forall|k: u32| k != id && #[trigger] old(self).sessions().contains_key(k)
                ==> final(self).sessions()[k] == old(self).sessions()[k],
            final(self).sessions()[id].id == id,
            final(self).sessions()[id].connected,
            final(self).sessions()[id].player_id == 0,
    {
        let id = self.next_id;
        self.next_id = self.next_id + 1;
        let s = Session { id, connected: true, last_active: current_instant(), player_id: 0 };
        self.sessions.insert(id, s);
        proof {
            Self::lemma_wf_after_change(old(self), self, id);
        }
        id
    }

    /// Reconnects an offline session and returns true; returns false, with
    /// nothing changed, where the session does not exist or is online.
    pub fn reconnect(&mut self, id: u32) -> (r: bool)
        requires
            old(self).wf(),
        ensures
            final(self).wf(),
            final(self).next_id() == old(self).next_id(),
            r == reconnectable(old(self).sessions(), id),
            !r ==> final(self).sessions() == old(self).sessions(),
            r ==> final(self).sessions().dom() == old(self).sessions().dom(),
            r ==> forall|k: u32| k != id && #[trigger] old(self).sessions().contains_key(k)
                ==> final(self).sessions()[k] == old(self).sessions()[k],
            r ==> final(self).sessions()[id].connected && final(self).sessions()[id].id == id
                && final(self).sessions()[id].player_id == old(self).sessions()[id].player_id,
    {
        match self.sessions.remove(&id) {
            None => {
                assert(self.sessions@ =~= old(self).sessions@);
                proof {
                    Self::lemma_wf_after_change(old(self), self, id);
                }
                false
            },
            Some(mut s) => {
                let ok = !s.connected;
                if ok {
                    s.connected = true;
                    s.last_active = current_instant();
                }
                self.sessions.insert(id, s);
                proof {
                    if !ok {
                        assert(self.sessions@ =~= old(self).sessions@);
                    }
                    assert(old(self).sessions().contains_key(id));
                    Self::lemma_wf_after_change(old(self), self, id);
                }
                ok
            },
        }
    }

    /// Marks a session offline and keeps it for a later reconnect; an unknown
    /// id changes nothing.
    pub fn disconnect(&mut self, id: u32)
        requires
            old(self).wf(),
        ensures
            final(self).wf(),
            final(self).next_id() == old(self).next_id(),
            final(self).sessions() == disconnected(old(self).sessions(), id),
    {
        match self.sessions.remove(&id) {
            None => {
                assert(self.sessions@ =~= old(self).sessions@);
                proof {
                    Self::lemma_wf_after_change(old(self), self, id);
                }
            },
            Some(mut s) => {
                s.connected = false;
                self.sessions.insert(id, s);
                assert(self.sessions@ =~= old(self).sessions@.insert(
                    id,
                    Session { connected: false, ..old(self).sessions@[id] },
                ));
                proof {
                    assert(old(self).sessions().contains_key(id));
                    Self::lemma_wf_after_change(old(self), self, id);
                }
            },
        }
    }

    /// Records activity on a session: its `last_active` becomes the current
    /// instant, and nothing else changes; an unknown id changes nothing.
    pub fn touch(&mut self, id: u32)
        requires
            old(self).wf(),
        ensures
            final(self).wf(),
            final(self).next_id() == old(self).next_id(),
            final(self).sessions().dom() == old(self).sessions().dom(),
            forall|k: u32| k != id && #[trigger] old(self).sessions().contains_key(k)
                ==> final(self).sessions()[k] == old(self).sessions()[k],
            old(self).sessions().contains_key(id) ==> final(self).sessions()[id] == (Session {
                last_active: final(self).sessions()[id].last_active,
                ..old(self).sessions()[id]
            }),
    {
        match self.sessions.remove(&id) {
            None => {
                assert(self.sessions@ =~= old(self).sessions@);
                proof {
                    Self::lemma_wf_after_change(old(self), self, id);
                }
            },
            Some(mut s) => {
                s.last_active = current_instant();
                self.sessions.insert(id, s);
                proof {
                    assert(old(self).sessions().contains_key(id));
                    assert(self.sessions@.dom() =~= old(self).sessions@.dom());
                    Self::lemma_wf_after_change(old(self), self, id);
                }
            },
        }
    }

    /// The session with an id, if any: there is one for each id handed out
    /// so far.
    pub fn get_session(&self, id: u32) -> (r: Option<&Session>)
        ensures
            match r {
                Some(s) => self.sessions().contains_key(id) && *s == self.sessions()[id],
                None => !self.sessions().contains_key(id),
            },
            self.wf() ==> (r is Some <==> 1 <= id < self.next_id()),
    {
        proof {
            if self.wf() {
                assert(self.sessions().contains_key(id) == (1 <= id < self.next_id()));
            }
        }
        self.sessions.get(&id)
    }

    /// The player logged in on a session (0 for none), if the session exists.
    pub fn player_id(&self, id: u32) -> (r: Option<u64>)
        ensures
            r == (if self.sessions().contains_key(id) {
                Some(self.sessions()[id].player_id)
            } else {
                None
            }),
    {
        match self.sessions.get(&id) {
            Some(s) => Some(s.player_id),
            None => None,
        }
    }

    /// Binds a player to a session; an unknown id changes nothing.
    pub fn set_player_id(&mut self, id: u32, player_id: u64)
        requires
            old(self).wf(),
        ensures
            final(self).wf(),
            final(self).next_id() == old(self).next_id(),
            old(self).sessions().contains_key(id) ==> final(self).sessions() == old(self).sessions().insert(
                id,
                Session { player_id, ..old(self).sessions()[id] },
            ),
            !old(self).sessions().contains_key(id) ==> final(self).sessions() == old(self).sessions(),
    {
        match self.sessions.remove(&id) {
            None => {
                assert(self.sessions@ =~= old(self).sessions@);
                proof {
                    Self::lemma_wf_after_change(old(self), self, id);
                }
            },
            Some(mut s) => {
                s.player_id = player_id;
                self.sessions.insert(id, s);
                assert(self.sessions@ =~= old(self).sessions@.insert(
                    id,
                    Session { player_id, ..old(self).sessions@[id] },
                ));
                proof {
                    assert(old(self).sessions().contains_key(id));
                    Self::lemma_wf_after_change(old(self), self, id);
                }
            },
        }
    }
}

/// A session that went offline can be taken over again: after `disconnect`
/// of a known session, `reconnect` of it succeeds, and the session keeps
/// its player; the other sessions are untouched.
pub proof fn lemma_disconnect_allows_reconnect(sessions: Map<u32, Session>, id: u32)
    requires
        sessions.contains_key(id),
    ensures
        reconnectable(disconnected(sessions, id), id),
        disconnected(sessions, id)[id].player_id == sessions[id].player_id,
        disconnected(sessions, id).dom() == sessions.dom(),
        forall|k: u32| k != id && #[trigger] sessions.contains_key(k) ==> disconnected(sessions, id)[k]
            == sessions[k],
{
    assert(disconnected(sessions, id).dom() =~= sessions.dom());
}

} // verus!
