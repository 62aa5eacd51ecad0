//! Properties of the registry that relate several operations.
use vstd::prelude::*;

use crate::error::McpError;
use crate::mcp::{
    begin_connect_race,
    begin_connect_step,
    connect_step,
    disconnect_step,
    session_step,
    Slot,
};

verus! {

/// An identifier that was never connected is rejected with `NotConnected` by
/// `disconnect` and by the session lookup behind `list_tools` and `call_tool`,
/// and the registry does not change.
pub proof fn lemma_unknown_id_rejected<S>(m: Map<Seq<char>, Slot<S>>, id: String)
    requires
        !m.contains_key(id@),
    ensures
        disconnect_step(m, id) == (m, Err::<S, McpError>(McpError::NotConnected(id))),
        session_step(m, id) == Err::<S, McpError>(McpError::NotConnected(id)),
{
}

/// Once a connect for `id` has succeeded, a second connect for `id` fails with
/// `AlreadyConnected`, launches nothing and leaves the first session in place.
pub proof fn lemma_connect_twice_rejected<S>(
    m: Map<Seq<char>, Slot<S>>,
    id: String,
    first: Result<S, McpError>,
    second: Result<S, McpError>,
)
    requires
        connect_step(m, id, first).1 is Ok,
    ensures
        ({
            let m1 = connect_step(m, id, first).0;
            &&& connect_step(m1, id, second) == (m1, Err::<(), McpError>(
                McpError::AlreadyConnected(id),
            ))
            &&& session_step(m1, id) == Ok::<S, McpError>(first->Ok_0)
        }),
{
}

/// After a successful disconnect the identifier is free at once: a connect
/// whose spawn and handshake succeed makes it live again with the new session.
pub proof fn lemma_reconnect_after_disconnect<S>(m: Map<Seq<char>, Slot<S>>, id: String, s: S)
    requires
        disconnect_step(m, id).1 is Ok,
    ensures
        ({
            let m1 = disconnect_step(m, id).0;
            &&& !m1.contains_key(id@)
            &&& connect_step(m1, id, Ok::<S, McpError>(s)) == (m1.insert(id@, Slot::Live(s)), Ok::<
                (),
                McpError,
            >(()))
            &&& session_step(connect_step(m1, id, Ok::<S, McpError>(s)).0, id) == Ok::<S, McpError>(
                s,
            )
        }),
{
}

/// While a connect for `id` is under way or its session is live, any other
/// connect for `id` is rejected with `AlreadyConnected` and changes nothing.
pub proof fn lemma_taken_id_rejected<S>(m: Map<Seq<char>, Slot<S>>, id: String)
    requires
        m.contains_key(id@),
    ensures
        begin_connect_step(m, id) == (m, Err::<(), McpError>(McpError::AlreadyConnected(id))),
{
}

/// Of `n` connects racing for an identifier not in use, exactly the first to
/// take the lock reserves it; every other one fails with `AlreadyConnected`.
pub proof fn lemma_racing_connects<S>(m: Map<Seq<char>, Slot<S>>, id: String, n: nat)
    requires
        !m.contains_key(id@),
        n >= 1,
    ensures
        begin_connect_race(m, id, n).0 == m.insert(id@, Slot::<S>::Pending),
        begin_connect_race(m, id, n).1.len() == n,
        begin_connect_race(m, id, n).1[0] == Ok::<(), McpError>(()),
        forall|i: int|
            1 <= i < n ==> #[trigger] begin_connect_race(m, id, n).1[i] == Err::<(), McpError>(
                McpError::AlreadyConnected(id),
            ),
{
    let m1 = m.insert(id@, Slot::<S>::Pending);
    lemma_race_on_taken_id(m1, id, (n - 1) as nat);
    let rs = begin_connect_race(m1, id, (n - 1) as nat).1;
    assert(begin_connect_race(m, id, n).1 == seq![Ok::<(), McpError>(())] + rs);
}

/// Every reservation of an identifier already in the registry fails, and the
/// registry stays as it was.
proof fn lemma_race_on_taken_id<S>(m: Map<Seq<char>, Slot<S>>, id: String, n: nat)
    requires
        m.contains_key(id@),
    ensures
        begin_connect_race(m, id, n).0 == m,
        begin_connect_race(m, id, n).1.len() == n,
        forall|i: int|
            0 <= i < n ==> #[trigger] begin_connect_race(m, id, n).1[i] == Err::<(), McpError>(
                McpError::AlreadyConnected(id),
            ),
    decreases n,
{
    if n > 0 {
        lemma_race_on_taken_id(m, id, (n - 1) as nat);
        let rs = begin_connect_race(m, id, (n - 1) as nat).1;
        let all = begin_connect_race(m, id, n).1;
        assert(all == seq![Err::<(), McpError>(McpError::AlreadyConnected(id))] + rs);
        assert forall|i: int| 0 <= i < n implies #[trigger] all[i] == Err::<(), McpError>(
            McpError::AlreadyConnected(id),
        ) by {
            if i > 0 {
                assert(all[i] == rs[i - 1]);
            }
        }
    }
}

} // verus!
