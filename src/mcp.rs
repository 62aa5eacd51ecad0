use vstd::prelude::*;

use crate::error::McpError;

verus! {

/// What the registry holds under one identifier.
pub enum Slot<S> {
    /// A connect is under way: the identifier is taken, but no session exists yet.
    Pending,
    /// A live session.
    Live(S),
}

/// Whether `k` names a live session in the registry `m` (identifier to slot).
pub open spec fn is_live<S>(m: Map<Seq<char>, Slot<S>>, k: Seq<char>) -> bool {
    m.contains_key(k) && m[k] is Live
}

/// `begin_connect`: reserve `id` unless it is taken.
pub open spec fn begin_connect_step<S>(m: Map<Seq<char>, Slot<S>>, id: String) -> (
    Map<Seq<char>, Slot<S>>,
    Result<(), McpError>,
) {
    if m.contains_key(id@) {
        (m, Err(McpError::AlreadyConnected(id)))
    } else {
        (m.insert(id@, Slot::Pending), Ok(()))
    }
}

/// `finish_connect`: a reservation becomes a live session, or is released
/// with the launcher's or the handshake's error.
pub open spec fn finish_connect_step<S>(
    m: Map<Seq<char>, Slot<S>>,
    id: String,
    outcome: Result<S, McpError>,
) -> (Map<Seq<char>, Slot<S>>, Result<(), McpError>) {
    match outcome {
        Ok(s) => (m.insert(id@, Slot::Live(s)), Ok(())),
        Err(e) => (m.remove(id@), Err(e)),
    }
}

/// A whole connect as the caller runs it: reserve, then settle with the
/// outcome of spawn and handshake. Nothing is launched when the reservation fails.
pub open spec fn connect_step<S>(
    m: Map<Seq<char>, Slot<S>>,
    id: String,
    outcome: Result<S, McpError>,
) -> (Map<Seq<char>, Slot<S>>, Result<(), McpError>) {
    let (m1, r1) = begin_connect_step(m, id);
    if r1 is Err {
        (m1, r1)
    } else {
        finish_connect_step(m1, id, outcome)
    }
}

/// `n` reservations of the same identifier, one after another under the
/// lock, as racing connects make them: the final registry and each result.
pub open spec fn begin_connect_race<S>(m: Map<Seq<char>, Slot<S>>, id: String, n: nat) -> (
    Map<Seq<char>, Slot<S>>,
    Seq<Result<(), McpError>>,
)
    decreases n,
{
    if n == 0 {
        (m, Seq::empty())
    } else {
        let (m1, r) = begin_connect_step(m, id);
        let (m2, rs) = begin_connect_race(m1, id, (n - 1) as nat);
        (m2, seq![r] + rs)
    }
}

/// `disconnect`: a live session leaves the registry and is handed back for shutdown.
pub open spec fn disconnect_step<S>(m: Map<Seq<char>, Slot<S>>, id: String) -> (
    Map<Seq<char>, Slot<S>>,
    Result<S, McpError>,
) {
    if is_live(m, id@) {
        (m.remove(id@), Ok(m[id@]->Live_0))
    } else {
        (m, Err(McpError::NotConnected(id)))
    }
}

/// `session`: the live session under `id`, through which tools are listed and called.
pub open spec fn session_step<S>(m: Map<Seq<char>, Slot<S>>, id: String) -> Result<S, McpError> {
    if is_live(m, id@) {
        Ok(m[id@]->Live_0)
    } else {
        Err(McpError::NotConnected(id))
    }
}

/// What a remote call on a live session gives the caller: the server's reply
/// as it came, or a transport failure as `ProtocolError`.
pub open spec fn reply_outcome<R>(reply: Result<R, String>) -> Result<R, McpError> {
    match reply {
        Ok(v) => Ok(v),
        Err(d) => Err(McpError::ProtocolError(d)),
    }
}

/// Hand on the outcome of a remote call on a live session. A reply is passed
/// through unchanged, also one whose own flag marks the remote tool as failed;
/// only a transport failure, given by its description, becomes an error of
/// the registry.
pub fn forward_reply<R>(reply: Result<R, String>) -> (r: Result<R, McpError>)
    ensures
        r == reply_outcome(reply),
{
    match reply {
        Ok(v) => Ok(v),
        Err(d) => Err(McpError::ProtocolError(d)),
    }
}

/// The registry of connections, keyed by caller-chosen identifiers.
///
/// `S` is the session handle: the established protocol client together with
/// its child process. The registry never performs I/O on it; it only keeps it.
pub struct McpState<S> {
    clients: Vec<(String, Slot<S>)>,
    model: Ghost<Map<Seq<char>, Slot<S>>>,
}

impl<S> View for McpState<S> {
    type V = Map<Seq<char>, Slot<S>>;

    closed spec fn view(&self) -> Map<Seq<char>, Slot<S>> {
        self.model@
    }
}

impl<S> McpState<S> {
    /// Identifiers are unique, and the entries are exactly the model.
    pub closed spec fn wf(&self) -> bool {
        &&& forall|i: int, j: int|
            0 <= i < j < self.clients@.len() ==> self.clients@[i].0@ != self.clients@[j].0@
        &&& forall|i: int|
            0 <= i < self.clients@.len() ==> #[trigger] self.model@.contains_key(
                self.clients@[i].0@,
            ) && self.model@[self.clients@[i].0@] == self.clients@[i].1
        &&& forall|k: Seq<char>| #[trigger]
            self.model@.contains_key(k) ==> exists|i: int|
                0 <= i < self.clients@.len() && self.clients@[i].0@ == k
    }

    /// An empty registry.
    pub fn new() -> (r: Self)
        ensures
            r.wf(),
            r@ == Map::<Seq<char>, Slot<S>>::empty(),
    {
        McpState { clients: Vec::new(), model: Ghost(Map::empty()) }
    }

    /// The index of the entry for `id`, if there is one.
    fn find(&self, id: &String) -> (r: Option<usize>)
        requires
            self.wf(),
        ensures
            match r {
                Some(i) => i < self.clients@.len() && self.clients@[i as int].0@ == id@
                    && self@.contains_key(id@) && self@[id@] == self.clients@[i as int].1,
                None => !self@.contains_key(id@),
            },
    {
        let mut i: usize = 0;
        while i < self.clients.len()
            invariant
                self.wf(),
                i <= self.clients@.len(),
                forall|j: int| 0 <= j < i ==> self.clients@[j].0@ != id@,
            decreases self.clients@.len() - i,
        {
            if self.clients[i].0 == *id {
                assert(self.model@.contains_key(self.clients@[i as int].0@));
                return Some(i);
            }
            i = i + 1;
        }
        None
    }
    /// Whether `id` names a live session.
    pub fn is_connected(&self, id: &String) -> (r: bool)
        requires
            self.wf(),
        ensures
            r == is_live(self@, id@),
    {
        match self.find(id) {
            Some(i) => matches!(self.clients[i].1, Slot::Live(_)),
            None => false,
        }
    }

    /// Whether a connect for `id` is under way.
    pub fn is_pending(&self, id: &String) -> (r: bool)
        requires
            self.wf(),
        ensures
            r == (self@.get(id@) == Some(Slot::<S>::Pending)),
    {
        match self.find(id) {
            Some(i) => matches!(self.clients[i].1, Slot::Pending),
            None => false,
        }
    }

    /// Reserve `connection_id` for a connect, in the same critical section as
    /// the check that it is free. Fails with `AlreadyConnected` when the
    /// identifier names a live session or another connect under way, and then
    /// changes nothing.
    pub fn begin_connect(&mut self, connection_id: String) -> (r: Result<(), McpError>)
        requires
            old(self).wf(),
        ensures
            final(self).wf(),
            (final(self)@, r) == begin_connect_step(old(self)@, connection_id),
    {
        match self.find(&connection_id) {
            Some(_) => Err(McpError::AlreadyConnected(connection_id)),
            None => {
                let ghost k = connection_id@;
                let ghost old_clients = self.clients@;
                self.clients.push((connection_id, Slot::Pending));
                self.model = Ghost(self.model@.insert(k, Slot::Pending));
                assert forall|q: Seq<char>| #[trigger] self.model@.contains_key(q) implies exists|
                    i: int,
                | 0 <= i < self.clients@.len() && self.clients@[i].0@ == q by {
                    if q == k {
                        assert(self.clients@[old_clients.len() as int].0@ == q);
                    } else {
                        let i = choose|i: int| 0 <= i < old_clients.len() && old_clients[i].0@ == q;
                        assert(self.clients@[i].0@ == q);
                    }
                }
                Ok(())
            },
        }
    }

    /// Settle the connect that reserved `connection_id`: a session from a
    /// successful spawn and handshake goes live; an error releases the
    /// identifier and is returned as it came.
    pub fn finish_connect(&mut self, connection_id: &String, outcome: Result<S, McpError>) -> (r:
        Result<(), McpError>)
        requires
            old(self).wf(),
            old(self)@.get(connection_id@) == Some(Slot::<S>::Pending),
        ensures
            final(self).wf(),
            (final(self)@, r) == finish_connect_step(old(self)@, *connection_id, outcome),
    {
        let i = match self.find(connection_id) {
            Some(i) => i,
            None => { return Err(McpError::NotConnected(connection_id.clone())) },
        };
        let ghost k = connection_id@;
        let ghost old_clients = self.clients@;
        match outcome {
            Ok(s) => {
                self.clients.set(i, (connection_id.clone(), Slot::Live(s)));
                self.model = Ghost(self.model@.insert(k, self.clients@[i as int].1));
                assert forall|q: Seq<char>| #[trigger] self.model@.contains_key(q) implies exists|
                    j: int,
                | 0 <= j < self.clients@.len() && self.clients@[j].0@ == q by {
                    let j = choose|j: int| 0 <= j < old_clients.len() && old_clients[j].0@ == q;
                    assert(self.clients@[j].0@ == q);
                }
                Ok(())
            },
            Err(e) => {
                self.remove_at(i);
                Err(e)
            },
        }
    }

    /// Take the entry at `i` out of the registry.
    fn remove_at(&mut self, i: usize) -> (r: Slot<S>)
        requires
            old(self).wf(),
            i < old(self).clients@.len(),
        ensures
            final(self).wf(),
            final(self)@ == old(self)@.remove(old(self).clients@[i as int].0@),
            r == old(self)@[old(self).clients@[i as int].0@],
    {
        let ghost old_clients = self.clients@;
        let ghost k = old_clients[i as int].0@;
        assert(self.model@.contains_key(old_clients[i as int].0@));
        let (_, slot) = self.clients.remove(i);
        self.model = Ghost(self.model@.remove(k));
        let n = self.clients.len();
        assert forall|j: int| 0 <= j < n implies self.clients@[j] == (if j < i {
            old_clients[j]
        } else {
            old_clients[j + 1]
        }) by {}
        assert forall|q: Seq<char>| #[trigger] self.model@.contains_key(q) implies exists|j: int|
            0 <= j < self.clients@.len() && self.clients@[j].0@ == q by {
            let j = choose|j: int| 0 <= j < old_clients.len() && old_clients[j].0@ == q;
            if j < i {
                assert(self.clients@[j].0@ == q);
            } else {
                assert(self.clients@[j - 1].0@ == q);
            }
        }
        slot
    }

    /// End the session under `connection_id`: it leaves the registry and is
    /// handed back so that the caller can shut it down. Fails with
    /// `NotConnected`, changing nothing, when no live session has that name.
    pub fn disconnect(&mut self, connection_id: &String) -> (r: Result<S, McpError>)
        requires
            old(self).wf(),
        ensures
            final(self).wf(),
            (final(self)@, r) == disconnect_step(old(self)@, *connection_id),
    {
        match self.find(connection_id) {
            Some(i) => {
                if matches!(self.clients[i].1, Slot::Live(_)) {
                    match self.remove_at(i) {
                        Slot::Live(s) => Ok(s),
                        Slot::Pending => Err(McpError::NotConnected(connection_id.clone())),
                    }
                } else {
                    Err(McpError::NotConnected(connection_id.clone()))
                }
            },
            None => Err(McpError::NotConnected(connection_id.clone())),
        }
    }

    /// The live session under `connection_id`, through which its tools are
    /// listed and called. Fails with `NotConnected` when there is none.
    pub fn session(&self, connection_id: &String) -> (r: Result<&S, McpError>)
        requires
            self.wf(),
        ensures
            match r {
                Ok(s) => session_step(self@, *connection_id) == Ok::<S, McpError>(*s),
                Err(e) => session_step(self@, *connection_id) == Err::<S, McpError>(e),
            },
    {
        match self.find(connection_id) {
            Some(i) => match &self.clients[i].1 {
                Slot::Live(s) => Ok(s),
                Slot::Pending => Err(McpError::NotConnected(connection_id.clone())),
            },
            None => Err(McpError::NotConnected(connection_id.clone())),
        }
    }
}

} // verus!
