//! The per-connection context: which client owns which entity, and each
//! client's most recent input — explicit state passed to the per-tick entry
//! points, its lifecycle tied to the connection's. On disconnect the entry
//! is removed at once: prediction and reconciliation stop for the owned
//! entity, which falls back to server-authoritative handling.

use vstd::prelude::*;

use crate::sim::{Command, EntityState};

verus! {

/// One connected client: its id, the entity it owns and controls, and its
/// most recently received input.
#[derive(Clone, Copy, PartialEq, Eq, Structural, Debug)]
pub struct PlayerSession {
    pub client: u64,
    pub entity: u64,
    pub input: Command,
}

/// Entry `i` of `s` belongs to client `c`.
pub open spec fn client_at(s: Seq<PlayerSession>, i: int, c: u64) -> bool {
    0 <= i < s.len() && s[i].client == c
}

/// Some entry of `s` belongs to client `c`.
pub open spec fn has_client(s: Seq<PlayerSession>, c: u64) -> bool {
    exists|i: int| client_at(s, i, c)
}

/// The session of client `c`; meaningful when `c` occurs exactly once.
pub open spec fn session_of(s: Seq<PlayerSession>, c: u64) -> PlayerSession {
    s[choose|i: int| client_at(s, i, c)]
}

/// Each client occurs at most once.
pub open spec fn unique_clients(s: Seq<PlayerSession>) -> bool {
    forall|i: int, j: int|
        #![trigger s[i], s[j]]
        0 <= i < j < s.len() ==> s[i].client != s[j].client
}

/// The sessions left after client `c` disconnects, in their original order.
pub open spec fn without_client(s: Seq<PlayerSession>, c: u64) -> Seq<PlayerSession>
    decreases s.len(),
{
    if s.len() == 0 {
        Seq::empty()
    } else {
        let prefix = without_client(s.drop_last(), c);
        if s.last().client == c {
            prefix
        } else {
            prefix.push(s.last())
        }
    }
}

/// Every other client is registered after `c` leaves exactly as before,
/// with an unchanged session.
pub open spec fn sessions_frame_except(
    s0: Seq<PlayerSession>,
    s: Seq<PlayerSession>,
    c: u64,
) -> bool {
    forall|id: u64| id != c ==> (
        (has_client(s0, id) <==> #[trigger] has_client(s, id))
        && (has_client(s0, id) ==> session_of(s, id) == session_of(s0, id)))
}

/// Dropping one client keeps everyone else, each an entry of the original
/// registry, preserves uniqueness, and leaves no entry of the dropped
/// client behind.
pub proof fn lemma_without_client(s: Seq<PlayerSession>, c: u64)
    requires
        unique_clients(s),
    ensures
        unique_clients(without_client(s, c)),
        forall|i: int| 0 <= i < without_client(s, c).len()
            ==> (#[trigger] without_client(s, c)[i]).client != c,
        forall|i: int| 0 <= i < without_client(s, c).len()
            ==> exists|m: int| 0 <= m < s.len() && s[m] == #[trigger] without_client(s, c)[i],
        sessions_frame_except(s, without_client(s, c), c),
    decreases s.len(),
{
    if s.len() > 0 {
        let s0 = s.drop_last();
        assert(unique_clients(s0));
        lemma_without_client(s0, c);
        let k0 = without_client(s0, c);
        let k = without_client(s, c);
        assert forall|i: int| 0 <= i < k0.len()
            implies exists|m: int| 0 <= m < s.len() && s[m] == #[trigger] k0[i] by {
            let m = choose|m: int| 0 <= m < s0.len() && s0[m] == k0[i];
            assert(s[m] == k0[i]);
        }
        if s.last().client != c {
            assert(k == k0.push(s.last()));
            assert forall|i: int, j: int|
                #![trigger k[i], k[j]]
                0 <= i < j < k.len()
                implies k[i].client != k[j].client by {
                if j == k.len() - 1 {
                    let m = choose|m: int| 0 <= m < s0.len() && s0[m] == k0[i];
                    assert(s[m] == k[i]);
                    assert(s[s.len() - 1] == k[j]);
                }
            }
        }
        assert forall|id: u64| id != c implies (
            (has_client(s, id) <==> #[trigger] has_client(k, id))
            && (has_client(s, id) ==> session_of(k, id) == session_of(s, id))) by {
            if has_client(s, id) {
                let m = choose|m: int| client_at(s, m, id);
                if m == s.len() - 1 {
                    assert(k == k0.push(s.last()));
                    assert(client_at(k, k.len() - 1, id));
                } else {
                    assert(client_at(s0, m, id));
                    assert(has_client(k0, id));
                    let m2 = choose|m2: int| client_at(k0, m2, id);
                    if s.last().client == c {
                        assert(client_at(k, m2, id));
                    } else {
                        assert(k == k0.push(s.last()));
                        assert(client_at(k, m2, id));
                    }
                }
                let w = choose|w: int| client_at(k, w, id);
                let wit = choose|m: int| 0 <= m < s.len() && s[m] == k[w];
                let m3 = choose|m3: int| client_at(s, m3, id);
                assert(s[wit] == k[w]);
                if wit != m3 {
                    assert(s[wit].client == s[m3].client);
                }
                assert(session_of(k, id) == session_of(s, id));
            }
            if has_client(k, id) {
                let w = choose|w: int| client_at(k, w, id);
                let wit = choose|m: int| 0 <= m < s.len() && s[m] == k[w];
                assert(s[wit] == k[w]);
                assert(client_at(s, wit, id));
            }
        }
    }
}

/// The connected clients and their owned entities and latest inputs.
pub struct PlayerRegistry {
    sessions: Vec<PlayerSession>,
}

impl View for PlayerRegistry {
    type V = Seq<PlayerSession>;

    closed spec fn view(&self) -> Seq<PlayerSession> {
        self.sessions@
    }
}

impl PlayerRegistry {
    /// Each client is registered at most once.
    pub open spec fn wf(self) -> bool {
        unique_clients(self@)
    }

    pub fn new() -> (r: PlayerRegistry)
        ensures
            r@ == Seq::<PlayerSession>::empty(),
            r.wf(),
    {
        PlayerRegistry { sessions: Vec::new() }
    }

    /// Finds the slot of `client`, if connected.
    fn find(&self, client: u64) -> (r: Option<usize>)
        requires
            self.wf(),
        ensures
            r is Some <==> has_client(self@, client),
            r matches Some(i) ==> client_at(self@, i as int, client)
                && self@[i as int] == session_of(self@, client),
    {
        let n = self.sessions.len();
        let mut i: usize = 0;
        while i < n
            invariant
                n == self@.len(),
                i <= n,
                self.wf(),
                forall|k: int| 0 <= k < i ==> (#[trigger] self@[k]).client != client,
            decreases n - i,
        {
            if self.sessions[i].client == client {
                proof {
                    assert(client_at(self@, i as int, client));
                    let j = choose|j: int| client_at(self@, j, client);
                    if j != i as int {
                        assert(self@[j].client == self@[i as int].client);
                    }
                }
                return Some(i);
            }
            i = i + 1;
        }
        proof {
            if has_client(self@, client) {
                let j = choose|j: int| client_at(self@, j, client);
                assert(self@[j].client != client);
            }
        }
        None
    }

    /// Registers a newly connected client with the entity it will own,
    /// starting from neutral input; a client already connected is left
    /// untouched. Returns whether it was added.
    pub fn connect(&mut self, client: u64, entity: u64) -> (added: bool)
        requires
            old(self).wf(),
        ensures
            final(self).wf(),
            added == !has_client(old(self)@, client),
            added ==> final(self)@ == old(self)@.push(
                PlayerSession { client, entity, input: Command::neutral_spec() },
            ),
            !added ==> final(self)@ == old(self)@,
    {
        match self.find(client) {
            Some(_) => false,
            None => {
                let ghost s0 = self@;
                self.sessions.push(
                    PlayerSession { client, entity, input: Command::neutral() },
                );
                proof {
                    let s = self@;
                    assert forall|i: int, j: int|
                        #![trigger s[i], s[j]]
                        0 <= i < j < s.len()
                        implies s[i].client != s[j].client by {
                        if j == s.len() - 1 {
                            if s[i].client == client {
                                assert(client_at(s0, i, client));
                            }
                        } else {
                            assert(s0[i] == s[i] && s0[j] == s[j]);
                        }
                    }
                }
                true
            },
        }
    }

    /// Removes a disconnecting client's session at once: prediction for its
    /// entity stops, everyone else is untouched. Returns whether it was
    /// connected.
    pub fn disconnect(&mut self, client: u64) -> (was_connected: bool)
        requires
            old(self).wf(),
        ensures
            final(self).wf(),
            was_connected == has_client(old(self)@, client),
            final(self)@ == without_client(old(self)@, client),
            !has_client(final(self)@, client),
            sessions_frame_except(old(self)@, final(self)@, client),
    {
        let ghost s = self@;
        let was_connected = match self.find(client) {
            Some(_) => true,
            None => false,
        };
        let n = self.sessions.len();
        let mut kept: Vec<PlayerSession> = Vec::new();
        let mut i: usize = 0;
        while i < n
            invariant
                n == self@.len(),
                i <= n,
                s == self@,
                kept@ == without_client(s.take(i as int), client),
            decreases n - i,
        {
            let e = self.sessions[i];
            proof {
                assert(s.take(i + 1).drop_last() =~= s.take(i as int));
                assert(s.take(i + 1).last() == s[i as int]);
            }
            if e.client != client {
                kept.push(e);
            }
            i = i + 1;
        }
        proof {
            assert(s.take(n as int) =~= s);
            lemma_without_client(s, client);
            if has_client(without_client(s, client), client) {
                let j = choose|j: int| client_at(without_client(s, client), j, client);
                assert(without_client(s, client)[j].client != client);
            }
        }
        self.sessions = kept;
        was_connected
    }

    /// Stores a client's most recent input, leaving everyone else alone.
    /// Returns whether the client was connected.
    pub fn set_input(&mut self, client: u64, input: Command) -> (was_connected: bool)
        requires
            old(self).wf(),
        ensures
            final(self).wf(),
            was_connected == has_client(old(self)@, client),
            !was_connected ==> final(self)@ == old(self)@,
            was_connected ==> {
                &&& has_client(final(self)@, client)
                &&& session_of(final(self)@, client) == (PlayerSession {
                    input,
                    ..session_of(old(self)@, client)
                })
                &&& sessions_frame_except(old(self)@, final(self)@, client)
            },
    {
        match self.find(client) {
            None => false,
            Some(i) => {
                let ghost s0 = self@;
                let entity = self.sessions[i].entity;
                let mut e = self.sessions.remove(i);
                e.input = input;
                self.sessions.insert(i, e);
                proof {
                    let s = self@;
                    assert(s =~= s0.update(
                        i as int,
                        PlayerSession { input, ..session_of(s0, client) },
                    ));
                    assert forall|a: int, b: int|
                        #![trigger s[a], s[b]]
                        0 <= a < b < s.len() implies s[a].client != s[b].client by {
                        assert(s[a].client == s0[a].client && s[b].client == s0[b].client);
                    }
                    assert(client_at(s, i as int, client));
                    let j = choose|j: int| client_at(s, j, client);
                    if j != i as int {
                        assert(s[j].client == s[i as int].client);
                    }
                    assert(sessions_frame_except(s0, s, client)) by {
                        assert forall|id: u64| id != client implies (
                            (has_client(s0, id) <==> #[trigger] has_client(s, id))
                            && (has_client(s0, id)
                                ==> session_of(s, id) == session_of(s0, id))) by {
                            if has_client(s0, id) {
                                let k = choose|k: int| client_at(s0, k, id);
                                assert(s[k] == s0[k]) by {
                                    if k == i as int {
                                        assert(s0[k].client == client);
                                    }
                                }
                                assert(client_at(s, k, id));
                                let k2 = choose|k2: int| client_at(s, k2, id);
                                assert(s[k2] == s0[k2]) by {
                                    if k2 == i as int {
                                        assert(s[k2].client == client);
                                    }
                                }
                                assert(client_at(s0, k2, id));
                                let k3 = choose|k3: int| client_at(s0, k3, id);
                                if k3 != k2 {
                                    assert(s0[k3].client == s0[k2].client);
                                }
                            }
                            if has_client(s, id) {
                                let k = choose|k: int| client_at(s, k, id);
                                assert(s[k] == s0[k]) by {
                                    if k == i as int {
                                        assert(s[k].client == client);
                                    }
                                }
                                assert(client_at(s0, k, id));
                            }
                        }
                    }
                }
                true
            },
        }
    }

    /// The session of `client`, if connected.
    pub fn get(&self, client: u64) -> (r: Option<PlayerSession>)
        requires
            self.wf(),
        ensures
            r is Some <==> has_client(self@, client),
            r matches Some(session) ==> session == session_of(self@, client),
    {
        match self.find(client) {
            None => None,
            Some(i) => Some(self.sessions[i]),
        }
    }

    /// How many clients are connected.
    pub fn len(&self) -> (n: usize)
        ensures
            n == self@.len(),
    {
        self.sessions.len()
    }
}

/// Where a newly connected client's entity spawns: a fixed column, with the
/// row spread by client id so players do not stack.
pub fn spawn_position(client: u64) -> (st: EntityState)
    ensures
        st.x == -50,
        st.y == ((client % 10) as int) * 50 - 250,
{
    EntityState { x: -50, y: ((client % 10) as i64) * 50 - 250 }
}

} // verus!
