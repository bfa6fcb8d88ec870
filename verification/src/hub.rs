//! The connection registry and broadcast hub.
//!
//! The hub owns the mapping of sessions to their live connections. It
//! decides who receives which outbound message and which sessions the
//! periodic reconciliation tick targets; the caller owns the timers and
//! the delivery handles and sends what these functions hand out. A
//! connection id the registry does not know is skipped, never fatal.

use vstd::prelude::*;
use crate::engine::SessionAgentRequest;
use crate::messages::{
    DevicesComplete, DevicesPayload, KillComplete, Response, SearchComplete, StateUpdate,
    TransferComplete, TransferResponsePayload,
};

verus! {

/// The live connections of one session.
pub struct SessionConns {
    pub session_id: u128,
    pub connections: Vec<u128>,
}

/// Mathematical image of a [`SessionConns`].
#[verifier::ext_equal]
pub ghost struct SessionConnsV {
    pub session_id: u128,
    pub connections: Seq<u128>,
}

impl View for SessionConns {
    type V = SessionConnsV;

    open spec fn view(&self) -> SessionConnsV {
        SessionConnsV { session_id: self.session_id, connections: self.connections@ }
    }
}

/// The views of the records of a registry vector.
pub open spec fn conns_view(rs: Seq<SessionConns>) -> Seq<SessionConnsV> {
    rs.map_values(|r: SessionConns| r@)
}

/// Well-formed registry: session ids pairwise distinct, every session
/// holding at least one connection, connection ids distinct within a
/// session.
pub open spec fn hub_wf(hv: Seq<SessionConnsV>) -> bool {
    &&& forall|i: int, j: int|
        0 <= i < j < hv.len() ==> (#[trigger] hv[i]).session_id != (#[trigger] hv[j]).session_id
    &&& forall|i: int| 0 <= i < hv.len() ==> (#[trigger] hv[i]).connections.len() > 0
    &&& forall|i: int, a: int, b: int|
        #![trigger hv[i].connections[a], hv[i].connections[b]]
        0 <= i < hv.len() && 0 <= a < b < hv[i].connections.len() ==> hv[i].connections[a]
            != hv[i].connections[b]
}

/// Whether the registry holds this session.
pub open spec fn hub_has_session(hv: Seq<SessionConnsV>, id: u128) -> bool {
    exists|i: int| 0 <= i < hv.len() && (#[trigger] hv[i]).session_id == id
}

/// Index of the record for session `id`, or `-1` if there is none.
pub open spec fn hub_index_of(hv: Seq<SessionConnsV>, id: u128) -> int
    decreases hv.len(),
{
    if hv.len() == 0 {
        -1
    } else if hv[0].session_id == id {
        0
    } else {
        let r = hub_index_of(hv.skip(1), id);
        if r == -1 {
            -1
        } else {
            r + 1
        }
    }
}

/// The connections of session `id`, or empty if it is not registered.
pub open spec fn members_of(hv: Seq<SessionConnsV>, id: u128) -> Seq<u128> {
    if hub_has_session(hv, id) {
        hv[hub_index_of(hv, id)].connections
    } else {
        Seq::empty()
    }
}

/// Whether connection `c` is among `conns`.
pub open spec fn is_member(conns: Seq<u128>, c: u128) -> bool {
    exists|i: int| 0 <= i < conns.len() && conns[i] == c
}

pub proof fn lemma_hub_index_of_props(hv: Seq<SessionConnsV>, id: u128)
    ensures
        hub_has_session(hv, id) <==> 0 <= hub_index_of(hv, id) < hv.len(),
        hub_has_session(hv, id) ==> hv[hub_index_of(hv, id)].session_id == id,
        hub_has_session(hv, id) ==> forall|j: int|
            0 <= j < hub_index_of(hv, id) ==> (#[trigger] hv[j]).session_id != id,
    decreases hv.len(),
{
    if hv.len() > 0 && hv[0].session_id != id {
        let rest = hv.skip(1);
        lemma_hub_index_of_props(rest, id);
        assert(forall|i: int| 0 <= i < rest.len() ==> #[trigger] rest[i] == hv[i + 1]);
        if hub_has_session(hv, id) {
            let w = choose|i: int| 0 <= i < hv.len() && (#[trigger] hv[i]).session_id == id;
            assert(rest[w - 1].session_id == id);
            assert(hub_has_session(rest, id));
        }
        if hub_has_session(rest, id) {
            let w = choose|i: int| 0 <= i < rest.len() && (#[trigger] rest[i]).session_id == id;
            assert(hv[w + 1].session_id == id);
            assert(hub_has_session(hv, id));
        }
        if hub_has_session(hv, id) {
            assert forall|j: int| 0 <= j < hub_index_of(hv, id) implies (#[trigger] hv[j]).session_id
                != id by {
                if j > 0 {
                    assert(hv[j] == rest[j - 1]);
                    assert(rest[j - 1].session_id != id);
                }
            }
        }
    }
}

/// Find the record for session `id`, if any.
fn find_hub_session(sessions: &Vec<SessionConns>, id: u128) -> (r: Option<usize>)
    ensures
        r matches Some(i) ==> i < sessions@.len() && conns_view(sessions@)[i as int].session_id
            == id && i as int == hub_index_of(conns_view(sessions@), id),
        r is Some <==> hub_has_session(conns_view(sessions@), id),
{
    let ghost hv = conns_view(sessions@);
    let mut i: usize = 0;
    while i < sessions.len()
        invariant
            i <= sessions@.len(),
            hv == conns_view(sessions@),
            forall|j: int| 0 <= j < i ==> (#[trigger] hv[j]).session_id != id,
        decreases sessions@.len() - i,
    {
        if sessions[i].session_id == id {
            proof {
                assert(hv[i as int].session_id == id);
                lemma_hub_index_of_props(hv, id);
                let idx = hub_index_of(hv, id);
                if idx < i as int {
                    assert(hv[idx].session_id != id);
                } else if (i as int) < idx {
                    assert(hv[i as int].session_id != id);
                }
            }
            return Some(i);
        }
        i = i + 1;
    }
    None
}

/// Find `c` in a connection list.
fn find_conn(conns: &Vec<u128>, c: u128) -> (r: Option<usize>)
    ensures
        r matches Some(i) ==> i < conns@.len() && conns@[i as int] == c,
        r is Some <==> is_member(conns@, c),
{
    let mut i: usize = 0;
    while i < conns.len()
        invariant
            i <= conns@.len(),
            forall|j: int| 0 <= j < i ==> conns@[j] != c,
        decreases conns@.len() - i,
    {
        if conns[i] == c {
            return Some(i);
        }
        i = i + 1;
    }
    None
}

/// The registry of live connections, by session.
pub struct Hub {
    pub sessions: Vec<SessionConns>,
}

impl View for Hub {
    type V = Seq<SessionConnsV>;

    open spec fn view(&self) -> Seq<SessionConnsV> {
        conns_view(self.sessions@)
    }
}

impl Hub {
    /// Whether this registry satisfies all its invariants.
    pub open spec fn wf(&self) -> bool {
        hub_wf(self@)
    }

    /// An empty registry.
    pub fn new() -> (h: Hub)
        ensures
            h.wf(),
            h@.len() == 0,
    {
        let h = Hub { sessions: Vec::new() };
        proof {
            assert(h@ =~= Seq::<SessionConnsV>::empty());
        }
        h
    }

    /// Register a connection under its session, creating the session's
    /// entry if it is the first; registering the same connection twice
    /// changes nothing. Returns the delay before the session's first
    /// token refresh, which the caller arms.
    pub fn connect(&mut self, session_id: u128, connection_id: u128) -> (delay_ms: u64)
        requires
            old(self).wf(),
        ensures
            final(self).wf(),
            delay_ms == crate::INITIAL_REFRESH_INTERVAL_MS,
            !hub_has_session(old(self)@, session_id) ==> final(self)@ == old(self)@.push(
                SessionConnsV { session_id, connections: seq![connection_id] },
            ),
            hub_has_session(old(self)@, session_id) ==> {
                let idx = hub_index_of(old(self)@, session_id);
                &&& is_member(old(self)@[idx].connections, connection_id) ==> final(self)@ == old(
                    self,
                )@
                &&& !is_member(old(self)@[idx].connections, connection_id) ==> final(self)@ == old(
                    self,
                )@.update(
                    idx,
                    SessionConnsV {
                        session_id,
                        connections: old(self)@[idx].connections.push(connection_id),
                    },
                )
            },
            is_member(members_of(final(self)@, session_id), connection_id),
    {
        let ghost oldv = self@;
        proof {
            lemma_hub_index_of_props(oldv, session_id);
        }
        match find_hub_session(&self.sessions, session_id) {
            None => {
                let mut connections: Vec<u128> = Vec::new();
                connections.push(connection_id);
                self.sessions.push(SessionConns { session_id, connections });
                proof {
                    assert(self@ =~= oldv.push(
                        SessionConnsV { session_id, connections: seq![connection_id] },
                    ));
                    assert(self@[self@.len() - 1].session_id == session_id);
                    assert(hub_has_session(self@, session_id));
                    lemma_hub_index_of_props(self@, session_id);
                    let idx = hub_index_of(self@, session_id);
                    if idx < self@.len() - 1 {
                        assert(self@[idx] == oldv[idx]);
                        assert(hub_has_session(oldv, session_id));
                    }
                    assert(idx == self@.len() - 1);
                    assert(members_of(self@, session_id)[0] == connection_id);
                }
            },
            Some(i) => {
                let mut rec = self.sessions.remove(i);
                match find_conn(&rec.connections, connection_id) {
                    Some(_) => {
                        self.sessions.insert(i, rec);
                        proof {
                            assert(self@ =~= oldv);
                            let idx = hub_index_of(oldv, session_id);
                            assert(is_member(members_of(self@, session_id), connection_id));
                        }
                    },
                    None => {
                        rec.connections.push(connection_id);
                        self.sessions.insert(i, rec);
                        proof {
                            let idx = i as int;
                            let newrec = SessionConnsV {
                                session_id,
                                connections: oldv[idx].connections.push(connection_id),
                            };
                            assert(self@ =~= oldv.update(idx, newrec));
                            lemma_hub_index_of_props(self@, session_id);
                            let idx2 = hub_index_of(self@, session_id);
                            assert(self@[idx].session_id == session_id);
                            if idx2 < idx {
                                assert(self@[idx2] == oldv[idx2]);
                                assert(oldv[idx2].session_id != session_id);
                            }
                            assert(idx2 == idx);
                            let m = members_of(self@, session_id);
                            assert(m[m.len() - 1] == connection_id);
                        }
                    },
                }
            },
        }
        crate::INITIAL_REFRESH_INTERVAL_MS
    }

    /// Remove a connection from its session; the last connection takes
    /// the whole session out of the registry, which stops future
    /// reconciliation ticks for it. Unknown sessions and connections are
    /// a no-op.
    pub fn disconnect(&mut self, session_id: u128, connection_id: u128)
        requires
            old(self).wf(),
        ensures
            final(self).wf(),
            !hub_has_session(old(self)@, session_id) ==> final(self)@ == old(self)@,
            hub_has_session(old(self)@, session_id) ==> {
                let idx = hub_index_of(old(self)@, session_id);
                let conns = old(self)@[idx].connections;
                &&& !is_member(conns, connection_id) ==> final(self)@ == old(self)@
                &&& is_member(conns, connection_id) && conns.len() == 1 ==> final(self)@ == old(
                    self,
                )@.remove(idx) && !hub_has_session(final(self)@, session_id)
                &&& is_member(conns, connection_id) && conns.len() > 1 ==> final(self)@ == old(
                    self,
                )@.update(
                    idx,
                    SessionConnsV {
                        session_id,
                        connections: conns.remove(
                            crate::hub::index_of_conn(conns, connection_id),
                        ),
                    },
                ) && !is_member(members_of(final(self)@, session_id), connection_id)
            },
    {
        let ghost oldv = self@;
        proof {
            lemma_hub_index_of_props(oldv, session_id);
        }
        match find_hub_session(&self.sessions, session_id) {
            None => {
            },
            Some(i) => {
                let mut rec = self.sessions.remove(i);
                match find_conn(&rec.connections, connection_id) {
                    None => {
                        self.sessions.insert(i, rec);
                        proof {
                            assert(self@ =~= oldv);
                        }
                    },
                    Some(k) => {
                        proof {
                            lemma_index_of_conn_props(oldv[i as int].connections, connection_id);
                            let ki = index_of_conn(oldv[i as int].connections, connection_id);
                            if ki < k as int {
                                assert(oldv[i as int].connections[ki] != connection_id);
                            } else if (k as int) < ki {
                                assert(oldv[i as int].connections[k as int] != connection_id);
                            }
                        }
                        if rec.connections.len() == 1 {
                            proof {
                                assert(self@ =~= oldv.remove(i as int));
                                assert(forall|x: int|
                                    0 <= x < self@.len() ==> #[trigger] self@[x] == (if x < i {
                                        oldv[x]
                                    } else {
                                        oldv[x + 1]
                                    }));
                                if hub_has_session(self@, session_id) {
                                    let w = choose|x: int|
                                        0 <= x < self@.len() && (#[trigger] self@[x]).session_id
                                            == session_id;
                                    if w < i {
                                        assert(oldv[w].session_id == session_id);
                                    } else {
                                        assert(oldv[w + 1].session_id == session_id);
                                    }
                                }
                            }
                        } else {
                            rec.connections.remove(k);
                            self.sessions.insert(i, rec);
                            proof {
                                let idx = i as int;
                                let conns = oldv[idx].connections;
                                let newrec = SessionConnsV {
                                    session_id,
                                    connections: conns.remove(k as int),
                                };
                                assert(self@ =~= oldv.update(idx, newrec));
                                assert(forall|x: int|
                                    0 <= x < conns.remove(k as int).len()
                                        ==> #[trigger] conns.remove(k as int)[x] == (if x < k {
                                        conns[x]
                                    } else {
                                        conns[x + 1]
                                    }));
                                lemma_hub_index_of_props(self@, session_id);
                                let idx2 = hub_index_of(self@, session_id);
                                assert(self@[idx].session_id == session_id);
                                if idx2 < idx {
                                    assert(self@[idx2] == oldv[idx2]);
                                    assert(oldv[idx2].session_id != session_id);
                                }
                                assert(idx2 == idx);
                                if is_member(members_of(self@, session_id), connection_id) {
                                    let w = choose|x: int|
                                        0 <= x < newrec.connections.len() && newrec.connections[x]
                                            == connection_id;
                                    if w < k {
                                        assert(conns[w] == connection_id);
                                        assert(conns[k as int] == connection_id);
                                    } else {
                                        assert(conns[w + 1] == connection_id);
                                        assert(conns[k as int] == connection_id);
                                    }
                                }
                            }
                        }
                    },
                }
            },
        }
    }

    /// One reconciliation tick: a poll request for every registered
    /// session, and for no other.
    pub fn poll_tick(&self) -> (r: Vec<SessionAgentRequest>)
        ensures
            r@.len() == self@.len(),
            forall|i: int|
                0 <= i < r@.len() ==> ((#[trigger] r@[i]) matches SessionAgentRequest::PollState {
                    session_id,
                } && session_id == self@[i].session_id),
    {
        let mut r: Vec<SessionAgentRequest> = Vec::new();
        let mut i: usize = 0;
        while i < self.sessions.len()
            invariant
                i <= self.sessions@.len(),
                r@.len() == i,
                forall|j: int|
                    0 <= j < i ==> ((#[trigger] r@[j]) matches SessionAgentRequest::PollState {
                        session_id,
                    } && session_id == self@[j].session_id),
            decreases self.sessions@.len() - i,
        {
            r.push(SessionAgentRequest::PollState { session_id: self.sessions[i].session_id });
            i = i + 1;
        }
        r
    }

    /// Whom to deliver a session-wide message to: every connection of
    /// the session, or only `target` when one is named (and it belongs
    /// to the session). An unknown session yields nobody.
    pub fn broadcast_targets(&self, session_id: u128, target: Option<u128>) -> (r: Vec<u128>)
        ensures
            !hub_has_session(self@, session_id) ==> r@.len() == 0,
            hub_has_session(self@, session_id) ==> {
                let conns = members_of(self@, session_id);
                match target {
                    Option::Some(t) => r@ == conns.filter(|c: u128| c == t),
                    Option::None => r@ == conns,
                }
            },
    {
        let mut r: Vec<u128> = Vec::new();
        let found = find_hub_session(&self.sessions, session_id);
        match found {
            None => r,
            Some(i) => {
                let conns = &self.sessions[i].connections;
                let ghost cv = conns@;
                proof {
                    assert(cv == members_of(self@, session_id));
                }
                match target {
                    None => {
                        let mut j: usize = 0;
                        while j < conns.len()
                            invariant
                                j <= cv.len(),
                                cv == conns@,
                                r@ == cv.take(j as int),
                            decreases cv.len() - j,
                        {
                            r.push(conns[j]);
                            proof {
                                assert(r@ =~= cv.take(j as int + 1));
                            }
                            j = j + 1;
                        }
                        proof {
                            assert(cv.take(cv.len() as int) =~= cv);
                        }
                        r
                    },
                    Some(t) => {
                        let mut j: usize = 0;
                        proof {
                            assert(cv.take(0) =~= Seq::<u128>::empty());
                            assert(r@ =~= cv.take(0).filter(|c: u128| c == t));
                        }
                        while j < conns.len()
                            invariant
                                j <= cv.len(),
                                cv == conns@,
                                r@ == cv.take(j as int).filter(|c: u128| c == t),
                            decreases cv.len() - j,
                        {
                            proof {
                                assert(cv.take(j as int + 1) =~= cv.take(j as int).push(
                                    cv[j as int],
                                ));
                                crate::store::lemma_filter_push(
                                    cv.take(j as int),
                                    |c: u128| c == t,
                                    cv[j as int],
                                );
                            }
                            if conns[j] == t {
                                r.push(conns[j]);
                            }
                            j = j + 1;
                        }
                        proof {
                            assert(cv.take(cv.len() as int) =~= cv);
                        }
                        r
                    },
                }
            },
        }
    }

    /// Route a finished search to the one connection that asked.
    pub fn route_search_complete(&self, msg: SearchComplete) -> (r: (u128, Response))
        ensures
            r.0 == msg.connection_id,
            r.1 matches Response::SearchResult(p) && p == msg.result,
    {
        (msg.connection_id, Response::SearchResult(msg.result))
    }

    /// Route a new snapshot: to every connection of its session, or only
    /// to the one it names.
    pub fn route_state_update(&self, msg: StateUpdate) -> (r: (Vec<u128>, Response))
        ensures
            !hub_has_session(self@, msg.session_id) ==> r.0@.len() == 0,
            hub_has_session(self@, msg.session_id) ==> {
                let conns = members_of(self@, msg.session_id);
                match msg.connection_id {
                    Option::Some(t) => r.0@ == conns.filter(|c: u128| c == t),
                    Option::None => r.0@ == conns,
                }
            },
            r.1 matches Response::StateUpdate(p) && p == msg.update,
    {
        let targets = self.broadcast_targets(msg.session_id, msg.connection_id);
        (targets, Response::StateUpdate(msg.update))
    }

    /// Route a finished teardown: a shutdown notice to every connection
    /// of the session.
    pub fn route_kill_complete(&self, msg: KillComplete) -> (r: (Vec<u128>, Response))
        ensures
            !hub_has_session(self@, msg.session_id) ==> r.0@.len() == 0,
            hub_has_session(self@, msg.session_id) ==> r.0@ == members_of(self@, msg.session_id),
            r.1 is Shutdown,
    {
        let targets = self.broadcast_targets(msg.session_id, None);
        (targets, Response::Shutdown)
    }

    /// Route a finished device listing to the one connection that asked.
    pub fn route_devices_complete(&self, msg: DevicesComplete) -> (r: (u128, Response))
        ensures
            r.0 == msg.connection_id,
            r.1 matches Response::Devices(p) && p.payload == msg.devices,
    {
        (msg.connection_id, Response::Devices(DevicesPayload { payload: msg.devices }))
    }

    /// Route a finished transfer to the one connection that asked.
    pub fn route_transfer_complete(&self, msg: TransferComplete) -> (r: (u128, Response))
        ensures
            r.0 == msg.connection_id,
            r.1 matches Response::TransferResponse(p) && p.payload == msg.result,
    {
        (
            msg.connection_id,
            Response::TransferResponse(TransferResponsePayload { payload: msg.result }),
        )
    }
}

/// Index of the first occurrence of `c`, or `-1` if there is none.
pub open spec fn index_of_conn(conns: Seq<u128>, c: u128) -> int
    decreases conns.len(),
{
    if conns.len() == 0 {
        -1
    } else if conns[0] == c {
        0
    } else {
        let r = index_of_conn(conns.skip(1), c);
        if r == -1 {
            -1
        } else {
            r + 1
        }
    }
}

pub proof fn lemma_index_of_conn_props(conns: Seq<u128>, c: u128)
    ensures
        is_member(conns, c) <==> 0 <= index_of_conn(conns, c) < conns.len(),
        is_member(conns, c) ==> conns[index_of_conn(conns, c)] == c,
        is_member(conns, c) ==> forall|j: int|
            0 <= j < index_of_conn(conns, c) ==> conns[j] != c,
    decreases conns.len(),
{
    if conns.len() > 0 && conns[0] != c {
        let rest = conns.skip(1);
        lemma_index_of_conn_props(rest, c);
        assert(forall|i: int| 0 <= i < rest.len() ==> rest[i] == conns[i + 1]);
        if is_member(conns, c) {
            let w = choose|i: int| 0 <= i < conns.len() && conns[i] == c;
            assert(rest[w - 1] == c);
            assert(is_member(rest, c));
        }
        if is_member(rest, c) {
            let w = choose|i: int| 0 <= i < rest.len() && rest[i] == c;
            assert(conns[w + 1] == c);
            assert(is_member(conns, c));
        }
        if is_member(conns, c) {
            assert forall|j: int| 0 <= j < index_of_conn(conns, c) implies conns[j] != c by {
                if j > 0 {
                    assert(conns[j] == rest[j - 1]);
                    assert(rest[j - 1] != c);
                }
            }
        }
    }
}

} // verus!
