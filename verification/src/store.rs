//! The persisted per-session facts and their transition rules.
//!
//! A [`Session`] holds everything the reconciliation engine reads or
//! writes for one playback party: the playback credential token, the
//! current track, the ordered queue of upcoming tracks with their vote
//! counts, and the set of votes already cast. A [`Store`] is the
//! registry of sessions keyed by session id.
//!
//! The queue is kept sorted at all times: higher vote counts first, and
//! among equal vote counts the earliest-queued entry first (each entry
//! carries the insertion sequence number `pos` that decides such ties).
//! [`Session::wf`] states this invariant together with the uniqueness of
//! queued tracks and of cast votes; every operation preserves it.

use vstd::prelude::*;

verus! {

/// One upcoming track in a session's queue.
pub struct QueueEntry {
    pub track: String,
    pub votes: u64,
    pub pos: u64,
}

/// Mathematical image of a [`QueueEntry`].
#[verifier::ext_equal]
pub ghost struct QueueEntryV {
    pub track: Seq<char>,
    pub votes: u64,
    pub pos: u64,
}

impl View for QueueEntry {
    type V = QueueEntryV;

    open spec fn view(&self) -> QueueEntryV {
        QueueEntryV { track: self.track@, votes: self.votes, pos: self.pos }
    }
}

/// One vote already cast by a connection for a track.
pub struct VoteRecord {
    pub connection_id: u128,
    pub track: String,
}

/// Mathematical image of a [`VoteRecord`].
#[verifier::ext_equal]
pub ghost struct VoteRecordV {
    pub connection_id: u128,
    pub track: Seq<char>,
}

impl View for VoteRecord {
    type V = VoteRecordV;

    open spec fn view(&self) -> VoteRecordV {
        VoteRecordV { connection_id: self.connection_id, track: self.track@ }
    }
}

/// The persisted state of one playback session.
pub struct Session {
    pub token: String,
    pub current_track: Option<String>,
    pub queue: Vec<QueueEntry>,
    pub votes: Vec<VoteRecord>,
    pub next_pos: u64,
}

/// Mathematical image of a [`Session`].
#[verifier::ext_equal]
pub ghost struct SessionV {
    pub token: Seq<char>,
    pub current_track: Option<Seq<char>>,
    pub queue: Seq<QueueEntryV>,
    pub votes: Seq<VoteRecordV>,
    pub next_pos: u64,
}

/// The view of an optional owned string.
pub open spec fn opt_str_view(o: Option<String>) -> Option<Seq<char>> {
    match o {
        Option::Some(s) => Option::Some(s@),
        Option::None => Option::None,
    }
}

/// The views of the entries of a queue vector.
pub open spec fn queue_view(q: Seq<QueueEntry>) -> Seq<QueueEntryV> {
    q.map_values(|e: QueueEntry| e@)
}

/// The views of the records of a vote vector.
pub open spec fn votes_view(vs: Seq<VoteRecord>) -> Seq<VoteRecordV> {
    vs.map_values(|v: VoteRecord| v@)
}

impl View for Session {
    type V = SessionV;

    open spec fn view(&self) -> SessionV {
        SessionV {
            token: self.token@,
            current_track: opt_str_view(self.current_track),
            queue: queue_view(self.queue@),
            votes: votes_view(self.votes@),
            next_pos: self.next_pos,
        }
    }
}

/// Strict priority order on queue entries: more votes first, ties decided
/// in favour of the earlier insertion sequence number.
pub open spec fn entry_beats(a: QueueEntryV, b: QueueEntryV) -> bool {
    a.votes > b.votes || (a.votes == b.votes && a.pos < b.pos)
}

/// Well-formed queue: sorted by [`entry_beats`], tracks pairwise
/// distinct, insertion numbers pairwise distinct and below `next_pos`.
pub open spec fn queue_wf(q: Seq<QueueEntryV>, next_pos: u64) -> bool {
    &&& forall|i: int, j: int|
        0 <= i < j < q.len() ==> entry_beats(#[trigger] q[i], #[trigger] q[j])
    &&& forall|i: int, j: int|
        0 <= i < j < q.len() ==> (#[trigger] q[i]).track != (#[trigger] q[j]).track
    &&& forall|i: int, j: int|
        0 <= i < j < q.len() ==> (#[trigger] q[i]).pos != (#[trigger] q[j]).pos
    &&& forall|i: int| 0 <= i < q.len() ==> (#[trigger] q[i]).pos < next_pos
}

/// Well-formed votes: at most one record per (connection, track) pair.
pub open spec fn votes_wf(vs: Seq<VoteRecordV>) -> bool {
    forall|i: int, j: int|
        0 <= i < j < vs.len() ==> !((#[trigger] vs[i]).connection_id == (
        #[trigger] vs[j]).connection_id && vs[i].track == vs[j].track)
}

/// Well-formedness of a whole session state.
pub open spec fn session_wf(s: SessionV) -> bool {
    queue_wf(s.queue, s.next_pos) && votes_wf(s.votes)
}

/// Whether some queue entry is for track `t`.
pub open spec fn has_track(q: Seq<QueueEntryV>, t: Seq<char>) -> bool {
    exists|i: int| 0 <= i < q.len() && (#[trigger] q[i]).track == t
}

/// Whether connection `c` has already voted for track `t`.
pub open spec fn has_vote(vs: Seq<VoteRecordV>, c: u128, t: Seq<char>) -> bool {
    exists|i: int|
        0 <= i < vs.len() && (#[trigger] vs[i]).connection_id == c && vs[i].track == t
}

/// Index of the first queue entry for track `t`, or `-1` if there is none.
pub open spec fn index_of_track(q: Seq<QueueEntryV>, t: Seq<char>) -> int
    decreases q.len(),
{
    if q.len() == 0 {
        -1
    } else if q[0].track == t {
        0
    } else {
        let r = index_of_track(q.skip(1), t);
        if r == -1 {
            -1
        } else {
            r + 1
        }
    }
}

/// The position at which entry `e` belongs in the sorted queue `q`: the
/// first index whose entry `e` outranks.
pub open spec fn insert_index(q: Seq<QueueEntryV>, e: QueueEntryV) -> int
    decreases q.len(),
{
    if q.len() == 0 {
        0
    } else if entry_beats(e, q[0]) {
        0
    } else {
        1 + insert_index(q.skip(1), e)
    }
}

/// Transition: queue track `t`. A track already queued, and the
/// unreachable exhaustion of the insertion counter, leave the state
/// unchanged; otherwise the track is appended with zero votes.
pub open spec fn spec_queue_track(s: SessionV, t: Seq<char>) -> SessionV {
    if has_track(s.queue, t) || s.next_pos == u64::MAX {
        s
    } else {
        SessionV {
            queue: s.queue.push(QueueEntryV { track: t, votes: 0, pos: s.next_pos }),
            next_pos: (s.next_pos + 1) as u64,
            ..s
        }
    }
}

/// Transition: connection `c` votes for track `t`. A duplicate vote
/// changes nothing. Otherwise the vote is recorded and, if `t` is
/// queued, its entry's count grows by one (saturating) and the entry
/// moves to its new place in the vote order.
pub open spec fn spec_add_vote(s: SessionV, c: u128, t: Seq<char>) -> SessionV {
    if has_vote(s.votes, c, t) {
        s
    } else {
        let s1 = SessionV { votes: s.votes.push(VoteRecordV { connection_id: c, track: t }), ..s };
        if !has_track(s.queue, t) {
            s1
        } else {
            let i = index_of_track(s.queue, t);
            let e = s.queue[i];
            let e2 = QueueEntryV {
                votes: if e.votes < u64::MAX {
                    (e.votes + 1) as u64
                } else {
                    e.votes
                },
                ..e
            };
            let rest = s.queue.remove(i);
            SessionV { queue: rest.insert(insert_index(rest, e2), e2), ..s1 }
        }
    }
}

pub proof fn lemma_index_of_track_props(q: Seq<QueueEntryV>, t: Seq<char>)
    ensures
        has_track(q, t) <==> 0 <= index_of_track(q, t) < q.len(),
        has_track(q, t) ==> q[index_of_track(q, t)].track == t,
        has_track(q, t) ==> forall|j: int|
            0 <= j < index_of_track(q, t) ==> (#[trigger] q[j]).track != t,
    decreases q.len(),
{
    if q.len() > 0 && q[0].track != t {
        let rest = q.skip(1);
        lemma_index_of_track_props(rest, t);
        assert(forall|i: int| 0 <= i < rest.len() ==> #[trigger] rest[i] == q[i + 1]);
        if has_track(q, t) {
            let w = choose|i: int| 0 <= i < q.len() && (#[trigger] q[i]).track == t;
            assert(rest[w - 1].track == t);
            assert(has_track(rest, t));
        }
        if has_track(rest, t) {
            let w = choose|i: int| 0 <= i < rest.len() && (#[trigger] rest[i]).track == t;
            assert(q[w + 1].track == t);
            assert(has_track(q, t));
        }
        if has_track(q, t) {
            assert forall|j: int| 0 <= j < index_of_track(q, t) implies (#[trigger] q[j]).track
                != t by {
                if j > 0 {
                    assert(q[j] == rest[j - 1]);
                    assert(rest[j - 1].track != t);
                }
            }
        }
    }
}

pub proof fn lemma_insert_index_props(q: Seq<QueueEntryV>, e: QueueEntryV)
    ensures
        0 <= insert_index(q, e) <= q.len(),
        forall|j: int| 0 <= j < insert_index(q, e) ==> !entry_beats(e, #[trigger] q[j]),
        insert_index(q, e) < q.len() ==> entry_beats(e, q[insert_index(q, e)]),
    decreases q.len(),
{
    if q.len() > 0 && !entry_beats(e, q[0]) {
        let rest = q.skip(1);
        lemma_insert_index_props(rest, e);
        assert(forall|i: int| 0 <= i < rest.len() ==> #[trigger] rest[i] == q[i + 1]);
        assert forall|j: int| 0 <= j < insert_index(q, e) implies !entry_beats(
            e,
            #[trigger] q[j],
        ) by {
            if j > 0 {
                assert(q[j] == rest[j - 1]);
                assert(!entry_beats(e, rest[j - 1]));
            }
        }
    }
}

/// Find the first queue entry for track `t`, if any.
fn find_track(queue: &Vec<QueueEntry>, t: &String) -> (r: Option<usize>)
    ensures
        r matches Some(i) ==> {
            &&& i < queue@.len()
            &&& queue_view(queue@)[i as int].track == t@
            &&& forall|j: int|
                0 <= j < i ==> (#[trigger] queue_view(queue@)[j]).track != t@
        },
        r is Some <==> has_track(queue_view(queue@), t@),
{
    let ghost qv = queue_view(queue@);
    let mut i: usize = 0;
    while i < queue.len()
        invariant
            i <= queue@.len(),
            qv == queue_view(queue@),
            forall|j: int| 0 <= j < i ==> (#[trigger] qv[j]).track != t@,
        decreases queue@.len() - i,
    {
        if queue[i].track == *t {
            assert(qv[i as int].track == t@);
            return Some(i);
        }
        i = i + 1;
    }
    None
}

/// Find the vote cast by connection `c` for track `t`, if any.
fn find_vote(votes: &Vec<VoteRecord>, c: u128, t: &String) -> (r: Option<usize>)
    ensures
        r is Some <==> has_vote(votes_view(votes@), c, t@),
{
    let ghost vv = votes_view(votes@);
    let mut i: usize = 0;
    while i < votes.len()
        invariant
            i <= votes@.len(),
            vv == votes_view(votes@),
            forall|j: int|
                0 <= j < i ==> !((#[trigger] vv[j]).connection_id == c && vv[j].track == t@),
        decreases votes@.len() - i,
    {
        if votes[i].connection_id == c && votes[i].track == *t {
            assert(vv[i as int].connection_id == c && vv[i as int].track == t@);
            return Some(i);
        }
        i = i + 1;
    }
    None
}

pub proof fn lemma_filter_push<A>(s: Seq<A>, pred: spec_fn(A) -> bool, x: A)
    ensures
        s.push(x).filter(pred) == (if pred(x) {
            s.filter(pred).push(x)
        } else {
            s.filter(pred)
        }),
{
    reveal(Seq::filter);
    assert(s.push(x).drop_last() =~= s);
    assert(s.push(x).last() == x);
}

pub proof fn lemma_votes_wf_filter(vs: Seq<VoteRecordV>, pred: spec_fn(VoteRecordV) -> bool)
    requires
        votes_wf(vs),
    ensures
        votes_wf(vs.filter(pred)),
        forall|k: int|
            0 <= k < vs.filter(pred).len() ==> vs.contains(#[trigger] vs.filter(pred)[k]),
    decreases vs.len(),
{
    reveal(Seq::filter);
    let f = vs.filter(pred);
    if vs.len() == 0 {
        assert(f =~= Seq::<VoteRecordV>::empty());
    } else {
        let d = vs.drop_last();
        let x = vs.last();
        assert(forall|i: int| 0 <= i < d.len() ==> #[trigger] d[i] == vs[i]);
        lemma_votes_wf_filter(d, pred);
        let fd = d.filter(pred);
        assert forall|k: int| 0 <= k < f.len() implies vs.contains(#[trigger] f[k]) by {
            if k < fd.len() {
                assert(d.contains(fd[k]));
                let m = choose|m: int| 0 <= m < d.len() && d[m] == fd[k];
                assert(vs[m] == f[k]);
            } else {
                assert(f[k] == x);
                assert(vs[vs.len() - 1] == x);
            }
        }
        if pred(x) {
            assert forall|i: int, j: int| 0 <= i < j < f.len() implies !((#[trigger] f[i]).connection_id
                == (#[trigger] f[j]).connection_id && f[i].track == f[j].track) by {
                if j == f.len() - 1 {
                    assert(f[j] == x);
                    assert(d.contains(fd[i]));
                    let m = choose|m: int| 0 <= m < d.len() && d[m] == fd[i];
                    assert(vs[m] == f[i]);
                    assert(!(vs[m].connection_id == vs[vs.len() - 1].connection_id && vs[m].track
                        == vs[vs.len() - 1].track));
                } else {
                    assert(f[i] == fd[i] && f[j] == fd[j]);
                }
            }
        }
    }
}

/// Taking one entry out of a well-formed queue and re-inserting it at
/// its sort position, with a possibly raised vote count, yields a
/// well-formed queue again.
pub proof fn lemma_reinsert_wf(q: Seq<QueueEntryV>, next_pos: u64, i: int, e2: QueueEntryV)
    requires
        queue_wf(q, next_pos),
        0 <= i < q.len(),
        e2.pos == q[i].pos,
        e2.track == q[i].track,
    ensures
        queue_wf(q.remove(i).insert(insert_index(q.remove(i), e2), e2), next_pos),
{
    let rest = q.remove(i);
    let k = insert_index(rest, e2);
    lemma_insert_index_props(rest, e2);
    assert(forall|x: int|
        0 <= x < rest.len() ==> #[trigger] rest[x] == (if x < i {
            q[x]
        } else {
            q[x + 1]
        }));
    assert(forall|x: int|
        0 <= x < rest.len() ==> (#[trigger] rest[x]).pos != e2.pos && rest[x].track != e2.track);
    let nq = rest.insert(k, e2);
    assert(forall|x: int|
        0 <= x < nq.len() ==> #[trigger] nq[x] == (if x < k {
            rest[x]
        } else if x == k {
            e2
        } else {
            rest[x - 1]
        }));
    assert forall|a: int, b: int| 0 <= a < b < nq.len() implies entry_beats(nq[a], nq[b]) by {
        if a == k {
            assert(entry_beats(e2, rest[k]));
            if b > k + 1 {
                assert(entry_beats(rest[k], rest[b - 1]));
            }
        } else if b == k {
            assert(!entry_beats(e2, rest[a]));
            assert(rest[a].pos != e2.pos);
        } else if a < k && b > k {
            assert(entry_beats(rest[a], rest[b - 1]));
        }
    }
}

/// Exec counterpart of [`entry_beats`].
fn beats(a: &QueueEntry, b: &QueueEntry) -> (r: bool)
    ensures
        r == entry_beats(a@, b@),
{
    a.votes > b.votes || (a.votes == b.votes && a.pos < b.pos)
}

/// Find where entry `e` belongs in the sorted queue.
fn find_insert_pos(queue: &Vec<QueueEntry>, e: &QueueEntry) -> (k: usize)
    ensures
        k <= queue@.len(),
        k as int == insert_index(queue_view(queue@), e@),
{
    let ghost qv = queue_view(queue@);
    let mut k: usize = 0;
    while k < queue.len()
        invariant
            k <= queue@.len(),
            qv == queue_view(queue@),
            forall|j: int| 0 <= j < k ==> !entry_beats(e@, #[trigger] qv[j]),
        decreases queue@.len() - k,
    {
        if beats(e, &queue[k]) {
            proof {
                lemma_insert_index_props(qv, e@);
                let idx = insert_index(qv, e@);
                if (k as int) < idx {
                    assert(!entry_beats(e@, qv[k as int]));
                } else if idx < k as int {
                    assert(!entry_beats(e@, qv[idx]));
                    assert(entry_beats(e@, qv[idx]));
                }
            }
            return k;
        }
        k = k + 1;
    }
    proof {
        lemma_insert_index_props(qv, e@);
        let idx = insert_index(qv, e@);
        if idx < k as int {
            assert(!entry_beats(e@, qv[idx]));
            assert(entry_beats(e@, qv[idx]));
        }
    }
    k
}

impl Session {
    /// Whether this session's state satisfies all its invariants.
    pub open spec fn wf(&self) -> bool {
        session_wf(self@)
    }

    /// A fresh session holding the given playback credential token, with
    /// no current track, an empty queue and no votes.
    pub fn new(token: String) -> (s: Session)
        ensures
            s.wf(),
            s@.token == token@,
            s@.current_track is None,
            s@.queue.len() == 0,
            s@.votes.len() == 0,
            s@.next_pos == 0,
    {
        let s = Session {
            token,
            current_track: None,
            queue: Vec::new(),
            votes: Vec::new(),
            next_pos: 0,
        };
        proof {
            assert(s@.queue =~= Seq::<QueueEntryV>::empty());
            assert(s@.votes =~= Seq::<VoteRecordV>::empty());
        }
        s
    }

    /// The stored current track, if any.
    pub fn get_current_track(&self) -> (r: Option<String>)
        ensures
            opt_str_view(r) == self@.current_track,
    {
        match &self.current_track {
            Some(t) => Some(t.clone()),
            None => None,
        }
    }

    /// Replace the stored current track.
    pub fn set_current_track(&mut self, track: Option<String>)
        ensures
            final(self)@ == (SessionV { current_track: opt_str_view(track), ..old(self)@ }),
    {
        self.current_track = track;
    }

    /// Replace the stored credential token.
    pub fn set_token(&mut self, token: String)
        ensures
            final(self)@ == (SessionV { token: token@, ..old(self)@ }),
    {
        self.token = token;
    }

    /// The stored credential token.
    pub fn get_token(&self) -> (r: String)
        ensures
            r@ == self@.token,
    {
        self.token.clone()
    }

    /// Queue a track: appended with zero votes, unless it is already
    /// queued, in which case nothing changes (re-queueing is a no-op).
    /// Returns whether a new entry was created.
    pub fn queue_track(&mut self, track: &String) -> (added: bool)
        requires
            old(self).wf(),
        ensures
            final(self).wf(),
            final(self)@ == spec_queue_track(old(self)@, track@),
            added == (!has_track(old(self)@.queue, track@) && old(self)@.next_pos != u64::MAX),
    {
        let found = find_track(&self.queue, track);
        if found.is_some() {
            return false;
        }
        if self.next_pos == u64::MAX {
            return false;
        }
        let ghost oldv = self@;
        let pos = self.next_pos;
        self.next_pos = pos + 1;
        self.queue.push(QueueEntry { track: track.clone(), votes: 0, pos });
        proof {
            let newq = oldv.queue.push(QueueEntryV { track: track@, votes: 0, pos });
            assert(self@.queue =~= newq);
            assert(self@ =~= spec_queue_track(oldv, track@));
            assert forall|i: int, j: int| 0 <= i < j < newq.len() implies entry_beats(
                #[trigger] newq[i],
                #[trigger] newq[j],
            ) by {
                if j == newq.len() - 1 {
                    assert(newq[i] == oldv.queue[i]);
                    assert(oldv.queue[i].pos < pos);
                }
            }
        }
        true
    }

    /// Remove and return the track that plays next: the entry with the
    /// most votes, the earliest-queued one among equal counts. `None`
    /// when the queue is empty.
    pub fn pop_track_from_queue(&mut self) -> (r: Option<String>)
        requires
            old(self).wf(),
        ensures
            final(self).wf(),
            r is Some <==> old(self)@.queue.len() > 0,
            old(self)@.queue.len() == 0 ==> final(self)@ == old(self)@,
            r matches Some(t) ==> t@ == old(self)@.queue[0].track && final(self)@ == (SessionV {
                queue: old(self)@.queue.skip(1),
                ..old(self)@
            }),
            forall|j: int|
                1 <= j < old(self)@.queue.len() ==> entry_beats(
                    old(self)@.queue[0],
                    #[trigger] old(self)@.queue[j],
                ),
    {
        if self.queue.len() == 0 {
            return None;
        }
        let ghost oldv = self@;
        let e = self.queue.remove(0);
        proof {
            assert(self@.queue =~= oldv.queue.skip(1));
            assert(self@ =~= (SessionV { queue: oldv.queue.skip(1), ..oldv }));
            assert(forall|i: int|
                0 <= i < self@.queue.len() ==> #[trigger] self@.queue[i] == oldv.queue[i + 1]);
        }
        Some(e.track)
    }

    /// Record a vote by `connection_id` for `track`. A duplicate vote by
    /// the same connection for the same track changes nothing and is not
    /// counted. A counted vote is recorded and, when the track is queued,
    /// raises its entry's count by one and moves the entry to its new
    /// place in the vote order. Returns whether the vote was counted.
    #[verifier::rlimit(60)]
    pub fn add_vote(&mut self, connection_id: u128, track: &String) -> (counted: bool)
        requires
            old(self).wf(),
        ensures
            final(self).wf(),
            final(self)@ == spec_add_vote(old(self)@, connection_id, track@),
            counted == !has_vote(old(self)@.votes, connection_id, track@),
    {
        if find_vote(&self.votes, connection_id, track).is_some() {
            return false;
        }
        let ghost oldv = self@;
        let ghost tv = track@;
        self.votes.push(VoteRecord { connection_id, track: track.clone() });
        proof {
            assert(self@.votes =~= oldv.votes.push(
                VoteRecordV { connection_id, track: tv },
            ));
        }
        let found = find_track(&self.queue, track);
        let ghost s1 = SessionV {
            votes: oldv.votes.push(VoteRecordV { connection_id, track: tv }),
            ..oldv
        };
        match found {
            None => {
                proof {
                    assert(self@ =~= s1);
                    assert(self@ == spec_add_vote(oldv, connection_id, tv));
                }
                true
            },
            Some(i) => {
                proof {
                    lemma_index_of_track_props(oldv.queue, tv);
                    let idx = index_of_track(oldv.queue, tv);
                    if idx < i as int {
                        assert(oldv.queue[idx].track != tv);
                    } else if (i as int) < idx {
                        assert(oldv.queue[i as int].track != tv);
                    }
                    assert(i as int == idx);
                }
                let mut e = self.queue.remove(i);
                if e.votes < u64::MAX {
                    e.votes = e.votes + 1;
                }
                let ghost e2 = e@;
                let ghost rest = oldv.queue.remove(i as int);
                proof {
                    assert(self@.queue =~= rest);
                    assert(forall|x: int|
                        0 <= x < rest.len() ==> #[trigger] rest[x] == (if x < i {
                            oldv.queue[x]
                        } else {
                            oldv.queue[x + 1]
                        }));
                }
                let k = find_insert_pos(&self.queue, &e);
                self.queue.insert(k, e);
                proof {
                    let nq = rest.insert(k as int, e2);
                    assert(self@.queue =~= nq);
                    lemma_reinsert_wf(oldv.queue, oldv.next_pos, i as int, e2);
                    assert(self@ =~= (SessionV { queue: nq, ..s1 }));
                    assert(self@ == spec_add_vote(oldv, connection_id, tv));
                    assert(final(self).wf());
                }
                true
            },
        }
    }

    /// Forget every vote cast for `track` (used when the track leaves the
    /// queue to become the current track).
    pub fn remove_votes(&mut self, track: &String)
        requires
            old(self).wf(),
        ensures
            final(self).wf(),
            final(self)@ == (SessionV {
                votes: old(self)@.votes.filter(|v: VoteRecordV| v.track != track@),
                ..old(self)@
            }),
    {
        let ghost oldv = self@;
        let mut votes: Vec<VoteRecord> = Vec::new();
        core::mem::swap(&mut votes, &mut self.votes);
        let ghost all = votes_view(votes@);
        let mut kept: Vec<VoteRecord> = Vec::new();
        let mut i: usize = 0;
        proof {
            assert(all.take(0) =~= Seq::<VoteRecordV>::empty());
            assert(votes_view(kept@) =~= all.take(0).filter(|v: VoteRecordV| v.track != track@));
        }
        while i < votes.len()
            invariant
                i <= votes@.len(),
                all == votes_view(votes@),
                votes_view(kept@) == all.take(i as int).filter(
                    |v: VoteRecordV| v.track != track@,
                ),
            decreases votes@.len() - i,
        {
            let keep = !(votes[i].track == *track);
            proof {
                assert(all.take(i as int + 1) =~= all.take(i as int).push(all[i as int]));
                lemma_filter_push(
                    all.take(i as int),
                    |v: VoteRecordV| v.track != track@,
                    all[i as int],
                );
                assert(all[i as int] == votes@[i as int]@);
            }
            if keep {
                let ghost prev = votes_view(kept@);
                let v = &votes[i];
                kept.push(VoteRecord { connection_id: v.connection_id, track: v.track.clone() });
                proof {
                    assert(kept@[kept@.len() - 1]@ == all[i as int]);
                    assert(votes_view(kept@) =~= prev.push(all[i as int]));
                }
            }
            i = i + 1;
        }
        proof {
            assert(all.take(votes@.len() as int) =~= all);
        }
        self.votes = kept;
        proof {
            lemma_votes_wf_filter(oldv.votes, |v: VoteRecordV| v.track != track@);
            assert(self@ =~= (SessionV {
                votes: oldv.votes.filter(|v: VoteRecordV| v.track != track@),
                ..oldv
            }));
        }
    }

    /// The tracks this connection has already voted for, in the order the
    /// votes were cast.
    pub fn voted_tracks(&self, connection_id: u128) -> (r: Vec<String>)
        ensures
            r@.map_values(|s: String| s@) == self@.votes.filter(
                |v: VoteRecordV| v.connection_id == connection_id,
            ).map_values(|v: VoteRecordV| v.track),
    {
        let ghost all = self@.votes;
        let mut r: Vec<String> = Vec::new();
        let mut i: usize = 0;
        proof {
            assert(all.take(0) =~= Seq::<VoteRecordV>::empty());
            assert(r@.map_values(|s: String| s@) =~= all.take(0).filter(
                |v: VoteRecordV| v.connection_id == connection_id,
            ).map_values(|v: VoteRecordV| v.track));
        }
        while i < self.votes.len()
            invariant
                i <= self.votes@.len(),
                all == self@.votes,
                r@.map_values(|s: String| s@) == all.take(i as int).filter(
                    |v: VoteRecordV| v.connection_id == connection_id,
                ).map_values(|v: VoteRecordV| v.track),
            decreases self.votes@.len() - i,
        {
            proof {
                assert(all.take(i as int + 1) =~= all.take(i as int).push(all[i as int]));
                lemma_filter_push(
                    all.take(i as int),
                    |v: VoteRecordV| v.connection_id == connection_id,
                    all[i as int],
                );
                assert(all[i as int] == self.votes@[i as int]@);
            }
            if self.votes[i].connection_id == connection_id {
                let ghost prev = r@.map_values(|s: String| s@);
                r.push(self.votes[i].track.clone());
                proof {
                    assert(r@.map_values(|s: String| s@) =~= prev.push(all[i as int].track));
                    assert(all.take(i as int + 1).filter(
                        |v: VoteRecordV| v.connection_id == connection_id,
                    ).map_values(|v: VoteRecordV| v.track) =~= all.take(i as int).filter(
                        |v: VoteRecordV| v.connection_id == connection_id,
                    ).map_values(|v: VoteRecordV| v.track).push(all[i as int].track));
                }
            }
            i = i + 1;
        }
        proof {
            assert(all.take(self.votes@.len() as int) =~= all);
        }
        r
    }
}

/// One session registered in the [`Store`], under its id.
pub struct SessionRecord {
    pub session_id: u128,
    pub session: Session,
}

/// Mathematical image of a [`SessionRecord`].
#[verifier::ext_equal]
pub ghost struct SessionRecordV {
    pub session_id: u128,
    pub session: SessionV,
}

impl View for SessionRecord {
    type V = SessionRecordV;

    open spec fn view(&self) -> SessionRecordV {
        SessionRecordV { session_id: self.session_id, session: self.session@ }
    }
}

/// The views of the records of a session vector.
pub open spec fn records_view(rs: Seq<SessionRecord>) -> Seq<SessionRecordV> {
    rs.map_values(|r: SessionRecord| r@)
}

/// Well-formed store: session ids pairwise distinct, every session
/// well-formed.
pub open spec fn store_wf(rs: Seq<SessionRecordV>) -> bool {
    &&& forall|i: int, j: int|
        0 <= i < j < rs.len() ==> (#[trigger] rs[i]).session_id != (#[trigger] rs[j]).session_id
    &&& forall|i: int| 0 <= i < rs.len() ==> session_wf((#[trigger] rs[i]).session)
}

/// Whether a session with this id is registered.
pub open spec fn store_has(rs: Seq<SessionRecordV>, id: u128) -> bool {
    exists|i: int| 0 <= i < rs.len() && (#[trigger] rs[i]).session_id == id
}

/// Index of the first record for session `id`, or `-1` if there is none.
pub open spec fn index_of_session(rs: Seq<SessionRecordV>, id: u128) -> int
    decreases rs.len(),
{
    if rs.len() == 0 {
        -1
    } else if rs[0].session_id == id {
        0
    } else {
        let r = index_of_session(rs.skip(1), id);
        if r == -1 {
            -1
        } else {
            r + 1
        }
    }
}

pub proof fn lemma_index_of_session_props(rs: Seq<SessionRecordV>, id: u128)
    ensures
        store_has(rs, id) <==> 0 <= index_of_session(rs, id) < rs.len(),
        store_has(rs, id) ==> rs[index_of_session(rs, id)].session_id == id,
        store_has(rs, id) ==> forall|j: int|
            0 <= j < index_of_session(rs, id) ==> (#[trigger] rs[j]).session_id != id,
    decreases rs.len(),
{
    if rs.len() > 0 && rs[0].session_id != id {
        let rest = rs.skip(1);
        lemma_index_of_session_props(rest, id);
        assert(forall|i: int| 0 <= i < rest.len() ==> #[trigger] rest[i] == rs[i + 1]);
        if store_has(rs, id) {
            let w = choose|i: int| 0 <= i < rs.len() && (#[trigger] rs[i]).session_id == id;
            assert(rest[w - 1].session_id == id);
            assert(store_has(rest, id));
        }
        if store_has(rest, id) {
            let w = choose|i: int| 0 <= i < rest.len() && (#[trigger] rest[i]).session_id == id;
            assert(rs[w + 1].session_id == id);
            assert(store_has(rs, id));
        }
        if store_has(rs, id) {
            assert forall|j: int| 0 <= j < index_of_session(rs, id) implies (#[trigger] rs[j]).session_id
                != id by {
                if j > 0 {
                    assert(rs[j] == rest[j - 1]);
                    assert(rest[j - 1].session_id != id);
                }
            }
        }
    }
}

/// The registry of all sessions, keyed by session id: the durable facts
/// of the whole system.
pub struct Store {
    pub sessions: Vec<SessionRecord>,
}

impl View for Store {
    type V = Seq<SessionRecordV>;

    open spec fn view(&self) -> Seq<SessionRecordV> {
        records_view(self.sessions@)
    }
}

/// Find the record for session `id`, if any.
fn find_session(sessions: &Vec<SessionRecord>, id: u128) -> (r: Option<usize>)
    ensures
        r matches Some(i) ==> i < sessions@.len() && records_view(sessions@)[i as int].session_id
            == id && i as int == index_of_session(records_view(sessions@), id),
        r is Some <==> store_has(records_view(sessions@), id),
{
    let ghost rv = records_view(sessions@);
    let mut i: usize = 0;
    while i < sessions.len()
        invariant
            i <= sessions@.len(),
            rv == records_view(sessions@),
            forall|j: int| 0 <= j < i ==> (#[trigger] rv[j]).session_id != id,
        decreases sessions@.len() - i,
    {
        if sessions[i].session_id == id {
            proof {
                assert(rv[i as int].session_id == id);
                lemma_index_of_session_props(rv, id);
                let idx = index_of_session(rv, id);
                if idx < i as int {
                    assert(rv[idx].session_id != id);
                } else if (i as int) < idx {
                    assert(rv[i as int].session_id != id);
                }
            }
            return Some(i);
        }
        i = i + 1;
    }
    None
}

impl Store {
    /// Whether this store's state satisfies all its invariants.
    pub open spec fn wf(&self) -> bool {
        store_wf(self@)
    }

    /// An empty registry.
    pub fn new() -> (s: Store)
        ensures
            s.wf(),
            s@.len() == 0,
    {
        let s = Store { sessions: Vec::new() };
        proof {
            assert(s@ =~= Seq::<SessionRecordV>::empty());
        }
        s
    }

    /// Whether a session with this id is registered.
    pub fn session_exists(&self, id: u128) -> (r: bool)
        ensures
            r == store_has(self@, id),
    {
        find_session(&self.sessions, id).is_some()
    }

    /// Register a fresh session under `id` with the given credential
    /// token. An id already in use is refused, and nothing changes.
    pub fn new_session(&mut self, id: u128, token: String) -> (created: bool)
        requires
            old(self).wf(),
        ensures
            final(self).wf(),
            created == !store_has(old(self)@, id),
            !created ==> final(self)@ == old(self)@,
            created ==> final(self)@ == old(self)@.push(
                SessionRecordV {
                    session_id: id,
                    session: SessionV {
                        token: token@,
                        current_track: Option::None,
                        queue: Seq::empty(),
                        votes: Seq::empty(),
                        next_pos: 0,
                    },
                },
            ),
    {
        if find_session(&self.sessions, id).is_some() {
            return false;
        }
        let ghost oldv = self@;
        let session = Session::new(token);
        proof {
            assert(session@ =~= (SessionV {
                token: session@.token,
                current_track: Option::None,
                queue: Seq::empty(),
                votes: Seq::empty(),
                next_pos: 0,
            }));
        }
        self.sessions.push(SessionRecord { session_id: id, session });
        proof {
            assert(self@ =~= oldv.push(self@[oldv.len() as int]));
        }
        true
    }

    /// Purge everything stored for session `id`: its record, queue and
    /// votes. Unknown ids are a no-op.
    pub fn delete_session(&mut self, id: u128)
        requires
            old(self).wf(),
        ensures
            final(self).wf(),
            !store_has(old(self)@, id) ==> final(self)@ == old(self)@,
            store_has(old(self)@, id) ==> final(self)@ == old(self)@.remove(
                index_of_session(old(self)@, id),
            ),
            !store_has(final(self)@, id),
    {
        let ghost oldv = self@;
        match find_session(&self.sessions, id) {
            None => {
            },
            Some(i) => {
                self.sessions.remove(i);
                proof {
                    assert(self@ =~= oldv.remove(i as int));
                    assert(forall|x: int|
                        0 <= x < self@.len() ==> #[trigger] self@[x] == (if x < i {
                            oldv[x]
                        } else {
                            oldv[x + 1]
                        }));
                    if store_has(self@, id) {
                        let w = choose|x: int|
                            0 <= x < self@.len() && (#[trigger] self@[x]).session_id == id;
                        if w < i {
                            assert(oldv[w].session_id == id);
                        } else {
                            assert(oldv[w + 1].session_id == id);
                        }
                    }
                }
            },
        }
    }

    /// Check out the session registered under `id`, removing it from the
    /// registry; the caller works on it and checks it back in with
    /// [`Store::put_session`].
    pub fn take_session(&mut self, id: u128) -> (r: Option<Session>)
        requires
            old(self).wf(),
        ensures
            final(self).wf(),
            r is Some <==> store_has(old(self)@, id),
            r is None ==> final(self)@ == old(self)@,
            r matches Some(s) ==> s.wf() && s@ == old(self)@[index_of_session(old(self)@, id)].session
                && final(self)@ == old(self)@.remove(index_of_session(old(self)@, id)),
    {
        let ghost oldv = self@;
        match find_session(&self.sessions, id) {
            None => None,
            Some(i) => {
                let rec = self.sessions.remove(i);
                proof {
                    assert(self@ =~= oldv.remove(i as int));
                    assert(forall|x: int|
                        0 <= x < self@.len() ==> #[trigger] self@[x] == (if x < i {
                            oldv[x]
                        } else {
                            oldv[x + 1]
                        }));
                }
                Some(rec.session)
            },
        }
    }

    /// Check a session back in under `id`. An id already in use is
    /// refused, and nothing changes.
    pub fn put_session(&mut self, id: u128, session: Session) -> (stored: bool)
        requires
            old(self).wf(),
            session.wf(),
        ensures
            final(self).wf(),
            stored == !store_has(old(self)@, id),
            !stored ==> final(self)@ == old(self)@,
            stored ==> final(self)@ == old(self)@.push(
                SessionRecordV { session_id: id, session: session@ },
            ),
    {
        if find_session(&self.sessions, id).is_some() {
            return false;
        }
        let ghost oldv = self@;
        self.sessions.push(SessionRecord { session_id: id, session });
        proof {
            assert(self@ =~= oldv.push(self@[oldv.len() as int]));
        }
        true
    }
}

/// Law: queueing a track is idempotent. Queueing `t` twice leaves the
/// state exactly as queueing it once, and once `t` is queued the
/// uniqueness clause of [`queue_wf`] says it has exactly one entry.
pub proof fn lemma_queue_track_idempotent(s: SessionV, t: Seq<char>)
    ensures
        spec_queue_track(spec_queue_track(s, t), t) == spec_queue_track(s, t),
        has_track(s.queue, t) || s.next_pos != u64::MAX ==> has_track(
            spec_queue_track(s, t).queue,
            t,
        ),
        session_wf(s) ==> session_wf(spec_queue_track(s, t)),
{
    let s1 = spec_queue_track(s, t);
    if !has_track(s.queue, t) && s.next_pos != u64::MAX {
        assert(s1.queue[s1.queue.len() - 1].track == t);
        assert(has_track(s1.queue, t));
    }
    if session_wf(s) && !has_track(s.queue, t) && s.next_pos != u64::MAX {
        assert forall|i: int, j: int| 0 <= i < j < s1.queue.len() implies entry_beats(
            #[trigger] s1.queue[i],
            #[trigger] s1.queue[j],
        ) by {
            if j == s1.queue.len() - 1 {
                assert(s1.queue[i] == s.queue[i]);
                assert(s.queue[i].pos < s.next_pos);
            }
        }
    }
}

/// Law: a vote is counted once. A second vote by the same connection for
/// the same track leaves the state exactly as the first, and the
/// uniqueness clause of [`votes_wf`] says the vote has exactly one
/// record.
pub proof fn lemma_add_vote_unique(s: SessionV, c: u128, t: Seq<char>)
    ensures
        spec_add_vote(spec_add_vote(s, c, t), c, t) == spec_add_vote(s, c, t),
        has_vote(spec_add_vote(s, c, t).votes, c, t),
{
    let s1 = spec_add_vote(s, c, t);
    if !has_vote(s.votes, c, t) {
        let pushed = s.votes.push(VoteRecordV { connection_id: c, track: t });
        assert(s1.votes == pushed);
        assert(pushed[pushed.len() - 1].connection_id == c && pushed[pushed.len() - 1].track == t);
        assert(has_vote(s1.votes, c, t));
    }
}

} // verus!
