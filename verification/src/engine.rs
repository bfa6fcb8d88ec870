//! The playback reconciliation engine.
//!
//! The engine is the only component that mutates a session's persisted
//! state or commands the Player, and it handles one request at a time.
//! Here its per-request business logic is a family of functions from
//! the session state and the Player's answers to the new state, the
//! Player commands to issue, and the replies to send; the caller owns
//! the request queue, performs the Player calls and the persistence,
//! and feeds their results in. When a Player command fails, the caller
//! drops the new state instead of persisting it, which is what keeps a
//! failed step free of partial effects.

use vstd::prelude::*;
use crate::messages::{
    DeviceData, DeviceInfo, DevicesComplete, KillComplete, Refresh, SearchComplete,
    SearchResultPayload, State, StateUpdate, StateUpdatePayload, TransferComplete,
    VotedTracksComplete, device_datas_view, device_infos_view, spec_device_list, resolve_device,
};
use crate::store::{
    Session, SessionV, Store, VoteRecordV, opt_str_view, session_wf, spec_add_vote,
    spec_queue_track, store_has, index_of_session, has_vote, entry_beats,
};
use crate::track::{
    TrackData, TrackInfo, datas_view, get_search_results, infos_view, resolve_track,
    spec_resolve_list, spec_search_results, to_info,
};

verus! {

/// One command for the Player.
pub enum PlayerAction {
    /// Start playing this track from the beginning.
    StartPlayback { track: String },
    /// Resume the paused playback.
    ResumePlayback,
    /// Append this track to the Player's own upcoming queue.
    AddToNativeQueue { track: String },
    /// Move playback to this device.
    TransferPlayback { device_id: String },
}

/// Whether `a` starts playback of track `t`.
pub open spec fn is_start_action(a: PlayerAction, t: Seq<char>) -> bool {
    a matches PlayerAction::StartPlayback { track } && track@ == t
}

/// Whether `a` resumes playback.
pub open spec fn is_resume_action(a: PlayerAction) -> bool {
    a is ResumePlayback
}

/// Whether `a` appends track `t` to the Player's native queue.
pub open spec fn is_enqueue_action(a: PlayerAction, t: Seq<char>) -> bool {
    a matches PlayerAction::AddToNativeQueue { track } && track@ == t
}

/// Whether `a` transfers playback to device `d`.
pub open spec fn is_transfer_action(a: PlayerAction, d: Seq<char>) -> bool {
    a matches PlayerAction::TransferPlayback { device_id } && device_id@ == d
}

/// What the Player reported as its playing item.
pub enum PlayingItem {
    /// A playing context without an item.
    NoItem,
    /// A podcast episode; the engine only reconciles tracks.
    Episode,
    /// A track, possibly without a resolvable id.
    Track { id: Option<String>, duration_ms: u64 },
}

/// What the Player reported about current playback.
pub struct PlayingReport {
    pub item: PlayingItem,
    pub is_playing: bool,
    pub progress_ms: Option<u64>,
}

/// The current track of a session state, where one is set.
pub open spec fn cur_of(s: SessionV) -> Seq<char> {
    match s.current_track {
        Option::Some(t) => t,
        Option::None => Seq::empty(),
    }
}

/// Time left before the reported track ends.
pub open spec fn spec_remaining_ms(duration_ms: u64, progress_ms: u64) -> u64 {
    if progress_ms <= duration_ms {
        (duration_ms - progress_ms) as u64
    } else {
        0
    }
}

/// What the reconciliation tick decides for a session whose stored
/// current track is `cur`, given the Player's report.
pub ghost enum PollDecision {
    /// Nothing is playing: start the stored track again.
    Recover,
    /// Something else is playing: force the stored track back, since the
    /// stored value is authoritative.
    Force,
    /// The stored track is paused: resume it.
    Resume,
    /// Leave everything alone.
    Idle,
    /// The stored track ends before the next tick: advance the queue.
    Pop,
}

/// The decision table of the drift-correction loop.
pub open spec fn spec_poll_decision(cur: Seq<char>, report: Option<PlayingReport>) -> PollDecision {
    match report {
        Option::None => PollDecision::Recover,
        Option::Some(rep) => match rep.item {
            PlayingItem::NoItem => PollDecision::Recover,
            PlayingItem::Episode => PollDecision::Idle,
            PlayingItem::Track { id, duration_ms } => match id {
                Option::None => PollDecision::Idle,
                Option::Some(aid) => if aid@ != cur {
                    PollDecision::Force
                } else if !rep.is_playing {
                    PollDecision::Resume
                } else {
                    match rep.progress_ms {
                        Option::None => PollDecision::Idle,
                        Option::Some(p) => if spec_remaining_ms(duration_ms, p)
                            < crate::POLL_STATE_INTERVAL_MS {
                            PollDecision::Pop
                        } else {
                            PollDecision::Idle
                        },
                    }
                },
            },
        },
    }
}

/// The session state after one reconciliation tick: unchanged unless the
/// tick pops the queue, in which case the best entry (or nothing)
/// becomes the current track and its votes are forgotten.
pub open spec fn spec_poll_state(s: SessionV, report: Option<PlayingReport>) -> SessionV {
    if spec_poll_decision(cur_of(s), report) is Pop {
        if s.queue.len() == 0 {
            SessionV { current_track: Option::None, ..s }
        } else {
            SessionV {
                current_track: Option::Some(s.queue[0].track),
                queue: s.queue.skip(1),
                votes: s.votes.filter(|v: VoteRecordV| v.track != s.queue[0].track),
                ..s
            }
        }
    } else {
        s
    }
}

/// The outcome of one reconciliation tick.
pub struct PollOutcome {
    /// The Player commands to issue, in order.
    pub actions: Vec<PlayerAction>,
    /// Whether the state changed, so that a new snapshot must be
    /// broadcast to the session.
    pub changed: bool,
}

/// Which track to ask the Player about for a reconciliation tick:
/// the stored current track. With none stored the tick is a no-op and
/// the Player is never queried — this function neither mutates the
/// session nor returns a query target then.
pub fn poll_prepare(session: &Session) -> (r: Option<String>)
    ensures
        opt_str_view(r) == session@.current_track,
{
    session.get_current_track()
}

/// One reconciliation tick for a session with a stored current track,
/// given the Player's report: enforce the stored track (recover, force
/// or resume), or advance the queue when the track is about to end, or
/// do nothing.
pub fn on_poll_state(session: &mut Session, report: Option<PlayingReport>) -> (r: PollOutcome)
    requires
        old(session).wf(),
        old(session)@.current_track is Some,
    ensures
        final(session).wf(),
        final(session)@ == spec_poll_state(old(session)@, report),
        r.changed == (spec_poll_decision(cur_of(old(session)@), report) is Pop),
        ({
            let d = spec_poll_decision(cur_of(old(session)@), report);
            &&& (d is Recover || d is Force) ==> r.actions@.len() == 1 && is_start_action(
                r.actions@[0],
                cur_of(old(session)@),
            )
            &&& d is Resume ==> r.actions@.len() == 1 && is_resume_action(r.actions@[0])
            &&& d is Idle ==> r.actions@.len() == 0
            &&& d is Pop && old(session)@.queue.len() > 0 ==> r.actions@.len() == 1
                && is_enqueue_action(r.actions@[0], old(session)@.queue[0].track)
            &&& d is Pop && old(session)@.queue.len() == 0 ==> r.actions@.len() == 0
        }),
{
    let ghost oldv = session@;
    let cur = match session.get_current_track() {
        Some(t) => t,
        None => {
            proof {
                assert(false);
            }
            String::new()
        },
    };
    let mut actions: Vec<PlayerAction> = Vec::new();
    let mut changed = false;
    match report {
        None => {
            actions.push(PlayerAction::StartPlayback { track: cur });
        },
        Some(rep) => {
            match rep.item {
                PlayingItem::NoItem => {
                    actions.push(PlayerAction::StartPlayback { track: cur });
                },
                PlayingItem::Episode => {
                },
                PlayingItem::Track { id, duration_ms } => {
                    match id {
                        None => {
                        },
                        Some(aid) => {
                            if !(aid == cur) {
                                actions.push(PlayerAction::StartPlayback { track: cur });
                            } else if !rep.is_playing {
                                actions.push(PlayerAction::ResumePlayback);
                            } else {
                                match rep.progress_ms {
                                    None => {
                                    },
                                    Some(p) => {
                                        let remaining = if p <= duration_ms {
                                            duration_ms - p
                                        } else {
                                            0
                                        };
                                        if remaining < crate::POLL_STATE_INTERVAL_MS {
                                            changed = true;
                                            match session.pop_track_from_queue() {
                                                Some(next) => {
                                                    session.remove_votes(&next);
                                                    session.set_current_track(
                                                        Some(next.clone()),
                                                    );
                                                    actions.push(
                                                        PlayerAction::AddToNativeQueue {
                                                            track: next,
                                                        },
                                                    );
                                                    proof {
                                                        assert(session@ =~= spec_poll_state(
                                                            oldv,
                                                            report,
                                                        ));
                                                    }
                                                },
                                                None => {
                                                    session.set_current_track(None);
                                                    proof {
                                                        assert(session@ =~= spec_poll_state(
                                                            oldv,
                                                            report,
                                                        ));
                                                    }
                                                },
                                            }
                                        }
                                    },
                                }
                            }
                        },
                    }
                },
            }
        },
    }
    PollOutcome { actions, changed }
}

/// Queue a track: when the session has no current track, playback of
/// the track is started and it becomes the current track; otherwise it
/// joins the queue (a repeat is a no-op). The caller broadcasts the new
/// snapshot either way, and discards the new state if starting playback
/// fails.
pub fn on_queue(session: &mut Session, track: &String) -> (actions: Vec<PlayerAction>)
    requires
        old(session).wf(),
    ensures
        final(session).wf(),
        old(session)@.current_track is None ==> actions@.len() == 1 && is_start_action(
            actions@[0],
            track@,
        ) && final(session)@ == (SessionV {
            current_track: Option::Some(track@),
            ..old(session)@
        }),
        old(session)@.current_track is Some ==> actions@.len() == 0 && final(session)@
            == spec_queue_track(old(session)@, track@),
{
    let mut actions: Vec<PlayerAction> = Vec::new();
    if session.get_current_track().is_some() {
        session.queue_track(track);
    } else {
        session.set_current_track(Some(track.clone()));
        actions.push(PlayerAction::StartPlayback { track: track.clone() });
    }
    actions
}

/// Count a vote: a duplicate by the same connection for the same track
/// changes nothing and no snapshot is broadcast; a counted vote updates
/// the vote order and the caller broadcasts the new snapshot.
pub fn on_vote(session: &mut Session, connection_id: u128, track: &String) -> (counted: bool)
    requires
        old(session).wf(),
    ensures
        final(session).wf(),
        final(session)@ == spec_add_vote(old(session)@, connection_id, track@),
        counted == !has_vote(old(session)@.votes, connection_id, track@),
{
    session.add_vote(connection_id, track)
}

/// Persist the outcome of a token refresh and say when to try next:
/// after a success the fresh token is stored and the normal interval
/// applies; after a failure nothing changes and the short backoff
/// applies. There is no retry limit.
pub fn on_refresh(session: &mut Session, new_token: Option<String>) -> (delay_ms: u64)
    requires
        old(session).wf(),
    ensures
        final(session).wf(),
        new_token matches Some(t) ==> delay_ms == crate::REFRESH_TOKEN_INTERVAL_MS
            && final(session)@ == (SessionV { token: t@, ..old(session)@ }),
        new_token is None ==> delay_ms == crate::REFRESH_RETRY_INTERVAL_MS && final(session)@
            == old(session)@,
{
    match new_token {
        Some(t) => {
            session.set_token(t);
            crate::REFRESH_TOKEN_INTERVAL_MS
        },
        None => crate::REFRESH_RETRY_INTERVAL_MS,
    }
}

/// Map the Player's device report to the client projection: devices
/// without an id are dropped, order is kept.
pub fn on_devices(devices: &Vec<DeviceData>) -> (r: Vec<DeviceInfo>)
    ensures
        device_infos_view(r@) == spec_device_list(device_datas_view(devices@)),
{
    let ghost all = device_datas_view(devices@);
    let mut out: Vec<DeviceInfo> = Vec::new();
    let mut i: usize = 0;
    proof {
        assert(all.take(0) =~= Seq::<crate::messages::DeviceDataV>::empty());
        assert(device_infos_view(out@) =~= spec_device_list(all.take(0)));
    }
    while i < devices.len()
        invariant
            i <= devices@.len(),
            all == device_datas_view(devices@),
            device_infos_view(out@) == spec_device_list(all.take(i as int)),
        decreases devices@.len() - i,
    {
        proof {
            assert(all.take(i as int + 1) =~= all.take(i as int).push(all[i as int]));
            crate::store::lemma_filter_push(
                all.take(i as int),
                |d: crate::messages::DeviceDataV| d.id is Some,
                all[i as int],
            );
            assert(all[i as int] == devices@[i as int]@);
        }
        match resolve_device(&devices[i]) {
            Some(info) => {
                let ghost prev = device_infos_view(out@);
                out.push(info);
                proof {
                    assert(device_infos_view(out@) =~= prev.push(
                        crate::messages::spec_resolve_device(all[i as int])->Some_0,
                    ));
                    assert(spec_device_list(all.take(i as int + 1)) =~= spec_device_list(
                        all.take(i as int),
                    ).push(crate::messages::spec_resolve_device(all[i as int])->Some_0));
                }
            },
            None => {
                proof {
                    assert(spec_device_list(all.take(i as int + 1)) =~= spec_device_list(
                        all.take(i as int),
                    ));
                }
            },
        }
        i = i + 1;
    }
    proof {
        assert(all.take(devices@.len() as int) =~= all);
    }
    out
}

/// Issue the transfer of playback to a device.
pub fn on_transfer(device_id: &String) -> (actions: Vec<PlayerAction>)
    ensures
        actions@.len() == 1 && is_transfer_action(actions@[0], device_id@),
{
    let mut actions: Vec<PlayerAction> = Vec::new();
    actions.push(PlayerAction::TransferPlayback { device_id: device_id.clone() });
    actions
}

/// The reply after a transfer attempt: `OK` on success, `Err` on
/// failure.
pub fn transfer_reply(connection_id: u128, success: bool) -> (r: TransferComplete)
    ensures
        r.connection_id == connection_id,
        success ==> r.result@ == "OK"@,
        !success ==> r.result@ == "Err"@,
{
    TransferComplete {
        connection_id,
        result: if success {
            String::from_str("OK")
        } else {
            String::from_str("Err")
        },
    }
}

/// The tracks this connection has already voted for, for client-side
/// state.
pub fn on_voted_tracks(session: &Session, connection_id: u128) -> (r: VotedTracksComplete)
    ensures
        r.connection_id == connection_id,
        r.tracks@.map_values(|s: String| s@) == session@.votes.filter(
            |v: VoteRecordV| v.connection_id == connection_id,
        ).map_values(|v: VoteRecordV| v.track),
{
    VotedTracksComplete { connection_id, tracks: session.voted_tracks(connection_id) }
}

/// Tear a session down: purge everything stored for it, and hand back
/// the completion the hub broadcasts as a shutdown.
pub fn on_kill(store: &mut Store, session_id: u128) -> (r: KillComplete)
    requires
        old(store).wf(),
    ensures
        final(store).wf(),
        r.session_id == session_id,
        !store_has(final(store)@, session_id),
        !store_has(old(store)@, session_id) ==> final(store)@ == old(store)@,
        store_has(old(store)@, session_id) ==> final(store)@ == old(store)@.remove(
            index_of_session(old(store)@, session_id),
        ),
{
    store.delete_session(session_id);
    KillComplete { session_id }
}

/// The snapshot of a session as stored: the current track reference and
/// the queued track references in vote order (most votes first, ties to
/// the earliest-queued).
pub fn get_current_state(session: &Session) -> (r: (Option<String>, Vec<String>))
    ensures
        opt_str_view(r.0) == session@.current_track,
        r.1@.map_values(|s: String| s@) == session@.queue.map_values(
            |e: crate::store::QueueEntryV| e.track,
        ),
{
    let current = session.get_current_track();
    let mut queue: Vec<String> = Vec::new();
    let mut i: usize = 0;
    while i < session.queue.len()
        invariant
            i <= session.queue@.len(),
            queue@.len() == i,
            forall|j: int| 0 <= j < i ==> (#[trigger] queue@[j])@ == session@.queue[j].track,
        decreases session.queue@.len() - i,
    {
        queue.push(session.queue[i].track.clone());
        proof {
            assert(queue@[queue@.len() - 1]@ == session@.queue[i as int].track);
        }
        i = i + 1;
    }
    proof {
        assert(queue@.map_values(|s: String| s@) =~= session@.queue.map_values(
            |e: crate::store::QueueEntryV| e.track,
        ));
    }
    (current, queue)
}

/// Law: the snapshot's queue is ordered by descending vote count, with
/// ties decided for the earliest-queued entry — in every well-formed
/// state, so after every operation.
pub proof fn lemma_snapshot_queue_sorted(s: SessionV)
    requires
        session_wf(s),
    ensures
        forall|i: int, j: int|
            0 <= i < j < s.queue.len() ==> ((#[trigger] s.queue[i]).votes > (
            #[trigger] s.queue[j]).votes || (s.queue[i].votes == s.queue[j].votes
                && s.queue[i].pos < s.queue[j].pos)),
{
    assert forall|i: int, j: int| 0 <= i < j < s.queue.len() implies ((#[trigger] s.queue[i]).votes
        > (#[trigger] s.queue[j]).votes || (s.queue[i].votes == s.queue[j].votes
        && s.queue[i].pos < s.queue[j].pos)) by {
        assert(entry_beats(s.queue[i], s.queue[j]));
    }
}

/// Law: a tick that finds the stored track playing with at least a full
/// poll interval remaining changes nothing — it never pops the queue,
/// however many votes are waiting.
pub proof fn lemma_poll_no_early_pop(s: SessionV, report: Option<PlayingReport>)
    requires
        ({
            &&& report matches Some(rep)
            &&& rep.item matches PlayingItem::Track { id: Some(aid), duration_ms }
            &&& aid@ == cur_of(s)
            &&& rep.is_playing
            &&& rep.progress_ms matches Some(p)
            &&& spec_remaining_ms(duration_ms, p) >= crate::POLL_STATE_INTERVAL_MS
        }),
    ensures
        spec_poll_state(s, report) == s,
        !(spec_poll_decision(cur_of(s), report) is Pop),
{
}

/// Build the client-facing snapshot from the Player's metadata for the
/// stored references: an unresolvable current track shows as none, and
/// unresolvable queue entries are dropped.
pub fn build_state(current: Option<TrackData>, queue: &Vec<TrackData>) -> (r: State)
    ensures
        current is None ==> r.track is None,
        current matches Some(t) ==> ((t@.id is Some ==> (r.track matches Some(info) && info@
            == to_info(t@))) && (t@.id is None ==> r.track is None)),
        infos_view(r.queue@) == spec_resolve_list(datas_view(queue@)),
{
    let track = match current {
        None => None,
        Some(t) => resolve_track(&t),
    };
    let ghost all = datas_view(queue@);
    let mut out: Vec<TrackInfo> = Vec::new();
    let mut i: usize = 0;
    proof {
        assert(all.take(0) =~= Seq::<crate::track::TrackDataV>::empty());
        assert(infos_view(out@) =~= spec_resolve_list(all.take(0)));
    }
    while i < queue.len()
        invariant
            i <= queue@.len(),
            all == datas_view(queue@),
            infos_view(out@) == spec_resolve_list(all.take(i as int)),
        decreases queue@.len() - i,
    {
        proof {
            assert(all.take(i as int + 1) =~= all.take(i as int).push(all[i as int]));
            crate::store::lemma_filter_push(
                all.take(i as int),
                |t: crate::track::TrackDataV| t.id is Some,
                all[i as int],
            );
            assert(all[i as int] == queue@[i as int]@);
        }
        match resolve_track(&queue[i]) {
            Some(info) => {
                let ghost prev = infos_view(out@);
                out.push(info);
                proof {
                    assert(infos_view(out@) =~= prev.push(to_info(all[i as int])));
                    assert(spec_resolve_list(all.take(i as int + 1)) =~= spec_resolve_list(
                        all.take(i as int),
                    ).push(to_info(all[i as int])));
                }
            },
            None => {
                proof {
                    assert(spec_resolve_list(all.take(i as int + 1)) =~= spec_resolve_list(
                        all.take(i as int),
                    ));
                }
            },
        }
        i = i + 1;
    }
    proof {
        assert(all.take(queue@.len() as int) =~= all);
    }
    State { track, queue: out }
}

/// Wrap a snapshot for delivery: to the whole session, or to one
/// connection when `connection_id` names one.
pub fn build_state_update(session_id: u128, connection_id: Option<u128>, state: State) -> (r:
    StateUpdate)
    ensures
        r.session_id == session_id,
        r.connection_id == connection_id,
        r.update.payload == state,
{
    StateUpdate { update: StateUpdatePayload { payload: state }, session_id, connection_id }
}

/// One request for the engine, as the hub forwards it: a closed set of
/// kinds, each carrying its session id and, where applicable, the
/// asking connection.
pub enum SessionAgentRequest {
    Search { query: String, session_id: u128, connection_id: u128 },
    Queue { track_id: String, session_id: u128 },
    GetState { session_id: u128, connection_id: Option<u128> },
    PollState { session_id: u128 },
    Vote { track_id: String, session_id: u128, connection_id: u128 },
    Refresh { session_id: u128 },
    Kill { session_id: u128 },
    Devices { session_id: u128, connection_id: u128 },
    Transfer { session_id: u128, connection_id: u128, device_id: String },
    VotedTracks { session_id: u128, connection_id: u128 },
}

/// What the engine needs from the Player before it can handle a
/// request.
pub enum PlayerQuery {
    /// Search the catalogue for tracks matching this query.
    SearchTracks { query: String },
    /// Report what is currently playing.
    CurrentPlayback,
    /// List the available devices.
    ListDevices,
    /// Obtain a fresh access token.
    RefreshToken,
}

/// The Player's answer to the query a request needed, or `NoData` for a
/// request that needed none.
pub enum PlayerData {
    NoData,
    SearchResults { items: Vec<TrackData> },
    Playback { report: Option<PlayingReport> },
    DeviceList { devices: Vec<DeviceData> },
    RefreshOutcome { new_token: Option<String> },
}

/// An engine reply for the hub to route.
pub enum EngineReply {
    Search(SearchComplete),
    Devices(DevicesComplete),
    RefreshSchedule(Refresh),
    VotedTracks(VotedTracksComplete),
}

/// Everything one engine step asks of its caller: the Player commands
/// to issue, a reply to route, and, when `snapshot` is set, a new
/// snapshot to broadcast — to the whole session, or to the one
/// connection it names.
pub struct EngineOutcome {
    pub actions: Vec<PlayerAction>,
    pub reply: Option<EngineReply>,
    pub snapshot: Option<Option<u128>>,
}

/// Whether `data` answers exactly the query that [`request_query`]
/// raises for this request on this state.
pub open spec fn data_ok(s: SessionV, request: SessionAgentRequest, data: PlayerData) -> bool {
    match request {
        SessionAgentRequest::Search { .. } => data is SearchResults,
        SessionAgentRequest::Queue { .. } => data is NoData,
        SessionAgentRequest::GetState { .. } => data is NoData,
        SessionAgentRequest::PollState { .. } => if s.current_track is Some {
            data is Playback
        } else {
            data is NoData
        },
        SessionAgentRequest::Vote { .. } => data is NoData,
        SessionAgentRequest::Refresh { .. } => data is RefreshOutcome,
        SessionAgentRequest::Kill { .. } => false,
        SessionAgentRequest::Devices { .. } => data is DeviceList,
        SessionAgentRequest::Transfer { .. } => data is NoData,
        SessionAgentRequest::VotedTracks { .. } => data is NoData,
    }
}

/// What to ask the Player before handling `request` on this session:
/// nothing for most kinds, and — the no-op law of the reconciliation
/// tick — nothing for a tick without a stored current track.
pub fn request_query(session: &Session, request: &SessionAgentRequest) -> (q: Option<PlayerQuery>)
    ensures
        *request matches SessionAgentRequest::Search { query, .. } ==> (q matches Some(
            PlayerQuery::SearchTracks { query: q2 },
        ) && q2@ == query@),
        *request matches SessionAgentRequest::PollState { .. } ==> {
            &&& session@.current_track is Some <==> (q matches Some(
                PlayerQuery::CurrentPlayback,
            ))
            &&& session@.current_track is None ==> q is None
        },
        *request matches SessionAgentRequest::Devices { .. } ==> q matches Some(
            PlayerQuery::ListDevices,
        ),
        *request matches SessionAgentRequest::Refresh { .. } ==> q matches Some(
            PlayerQuery::RefreshToken,
        ),
        (*request matches SessionAgentRequest::Queue { .. } || *request
            matches SessionAgentRequest::GetState { .. } || *request
            matches SessionAgentRequest::Vote { .. } || *request
            matches SessionAgentRequest::Kill { .. } || *request
            matches SessionAgentRequest::Transfer { .. } || *request
            matches SessionAgentRequest::VotedTracks { .. }) ==> q is None,
{
    match request {
        SessionAgentRequest::Search { query, .. } => Some(
            PlayerQuery::SearchTracks { query: query.clone() },
        ),
        SessionAgentRequest::PollState { .. } => {
            if session.get_current_track().is_some() {
                Some(PlayerQuery::CurrentPlayback)
            } else {
                None
            }
        },
        SessionAgentRequest::Devices { .. } => Some(PlayerQuery::ListDevices),
        SessionAgentRequest::Refresh { .. } => Some(PlayerQuery::RefreshToken),
        _ => None,
    }
}

/// Handle one session-scoped request, given the Player's answer to the
/// query the request needed. This is the engine's dispatch: every kind
/// but `Kill` (which acts on the whole [`Store`] and goes through
/// [`on_kill`]) is served here, one at a time.
pub fn handle_request(session: &mut Session, request: &SessionAgentRequest, data: PlayerData) -> (r:
    EngineOutcome)
    requires
        old(session).wf(),
        data_ok(old(session)@, *request, data),
    ensures
        final(session).wf(),
        *request matches SessionAgentRequest::Search { connection_id, .. } ==> {
            &&& final(session)@ == old(session)@
            &&& r.actions@.len() == 0
            &&& r.snapshot is None
            &&& r.reply matches Some(EngineReply::Search(sc)) && sc.connection_id == connection_id
                && infos_view(sc.result.payload.tracks@) == spec_search_results(
                datas_view(data->SearchResults_items@),
            )
        },
        *request matches SessionAgentRequest::Queue { track_id, .. } ==> {
            &&& old(session)@.current_track is None ==> r.actions@.len() == 1 && is_start_action(
                r.actions@[0],
                track_id@,
            ) && final(session)@ == (SessionV {
                current_track: Option::Some(track_id@),
                ..old(session)@
            })
            &&& old(session)@.current_track is Some ==> r.actions@.len() == 0 && final(session)@
                == spec_queue_track(old(session)@, track_id@)
            &&& r.snapshot == Option::Some(Option::<u128>::None)
            &&& r.reply is None
        },
        *request matches SessionAgentRequest::GetState { connection_id, .. } ==> {
            &&& final(session)@ == old(session)@
            &&& r.actions@.len() == 0
            &&& r.reply is None
            &&& r.snapshot == Option::Some(connection_id)
        },
        *request matches SessionAgentRequest::PollState { .. } ==> {
            &&& old(session)@.current_track is None ==> final(session)@ == old(session)@
                && r.actions@.len() == 0 && r.reply is None && r.snapshot is None
            &&& old(session)@.current_track is Some ==> {
                let report = data->Playback_report;
                let d = spec_poll_decision(cur_of(old(session)@), report);
                &&& final(session)@ == spec_poll_state(old(session)@, report)
                &&& (d is Recover || d is Force) ==> r.actions@.len() == 1 && is_start_action(
                    r.actions@[0],
                    cur_of(old(session)@),
                )
                &&& d is Resume ==> r.actions@.len() == 1 && is_resume_action(r.actions@[0])
                &&& d is Idle ==> r.actions@.len() == 0
                &&& d is Pop && old(session)@.queue.len() > 0 ==> r.actions@.len() == 1
                    && is_enqueue_action(r.actions@[0], old(session)@.queue[0].track)
                &&& d is Pop && old(session)@.queue.len() == 0 ==> r.actions@.len() == 0
                &&& r.snapshot == (if d is Pop {
                    Option::Some(Option::<u128>::None)
                } else {
                    Option::<Option<u128>>::None
                })
                &&& r.reply is None
            }
        },
        *request matches SessionAgentRequest::Vote { track_id, connection_id, .. } ==> {
            &&& final(session)@ == spec_add_vote(old(session)@, connection_id, track_id@)
            &&& r.actions@.len() == 0
            &&& r.reply is None
            &&& r.snapshot == (if !has_vote(old(session)@.votes, connection_id, track_id@) {
                Option::Some(Option::<u128>::None)
            } else {
                Option::<Option<u128>>::None
            })
        },
        *request matches SessionAgentRequest::Refresh { session_id } ==> {
            &&& r.actions@.len() == 0
            &&& r.snapshot is None
            &&& r.reply matches Some(EngineReply::RefreshSchedule(rf)) && rf.session_id
                == session_id
            &&& data->RefreshOutcome_new_token matches Some(t) ==> final(session)@ == (SessionV {
                token: t@,
                ..old(session)@
            }) && (r.reply matches Some(EngineReply::RefreshSchedule(rf)) && rf.duration_ms
                == crate::REFRESH_TOKEN_INTERVAL_MS)
            &&& data->RefreshOutcome_new_token is None ==> final(session)@ == old(session)@ && (
            r.reply matches Some(EngineReply::RefreshSchedule(rf)) && rf.duration_ms
                == crate::REFRESH_RETRY_INTERVAL_MS)
        },
        *request matches SessionAgentRequest::Devices { connection_id, .. } ==> {
            &&& final(session)@ == old(session)@
            &&& r.actions@.len() == 0
            &&& r.snapshot is None
            &&& r.reply matches Some(EngineReply::Devices(dc)) && dc.connection_id == connection_id
                && device_infos_view(dc.devices@) == spec_device_list(
                device_datas_view(data->DeviceList_devices@),
            )
        },
        *request matches SessionAgentRequest::Transfer { device_id, .. } ==> {
            &&& final(session)@ == old(session)@
            &&& r.actions@.len() == 1 && is_transfer_action(r.actions@[0], device_id@)
            &&& r.reply is None
            &&& r.snapshot is None
        },
        *request matches SessionAgentRequest::VotedTracks { connection_id, .. } ==> {
            &&& final(session)@ == old(session)@
            &&& r.actions@.len() == 0
            &&& r.snapshot is None
            &&& r.reply matches Some(EngineReply::VotedTracks(vc)) && vc.connection_id
                == connection_id && vc.tracks@.map_values(|s: String| s@) == old(
                session,
            )@.votes.filter(|v: VoteRecordV| v.connection_id == connection_id).map_values(
                |v: VoteRecordV| v.track,
            )
        },
{
    match request {
        SessionAgentRequest::Search { connection_id, .. } => {
            match data {
                PlayerData::SearchResults { items } => {
                    let result = get_search_results(&items);
                    EngineOutcome {
                        actions: Vec::new(),
                        reply: Some(
                            EngineReply::Search(
                                SearchComplete {
                                    result: SearchResultPayload { payload: result },
                                    connection_id: *connection_id,
                                },
                            ),
                        ),
                        snapshot: None,
                    }
                },
                _ => {
                    proof {
                        assert(false);
                    }
                    EngineOutcome { actions: Vec::new(), reply: None, snapshot: None }
                },
            }
        },
        SessionAgentRequest::Queue { track_id, .. } => {
            let actions = on_queue(session, track_id);
            EngineOutcome { actions, reply: None, snapshot: Some(None) }
        },
        SessionAgentRequest::GetState { connection_id, .. } => {
            EngineOutcome { actions: Vec::new(), reply: None, snapshot: Some(*connection_id) }
        },
        SessionAgentRequest::PollState { .. } => {
            match data {
                PlayerData::Playback { report } => {
                    let outcome = on_poll_state(session, report);
                    EngineOutcome {
                        actions: outcome.actions,
                        reply: None,
                        snapshot: if outcome.changed {
                            Some(None)
                        } else {
                            None
                        },
                    }
                },
                _ => {
                    EngineOutcome { actions: Vec::new(), reply: None, snapshot: None }
                },
            }
        },
        SessionAgentRequest::Vote { track_id, connection_id, .. } => {
            let counted = on_vote(session, *connection_id, track_id);
            EngineOutcome {
                actions: Vec::new(),
                reply: None,
                snapshot: if counted {
                    Some(None)
                } else {
                    None
                },
            }
        },
        SessionAgentRequest::Refresh { session_id } => {
            match data {
                PlayerData::RefreshOutcome { new_token } => {
                    let delay_ms = on_refresh(session, new_token);
                    EngineOutcome {
                        actions: Vec::new(),
                        reply: Some(
                            EngineReply::RefreshSchedule(
                                Refresh { duration_ms: delay_ms, session_id: *session_id },
                            ),
                        ),
                        snapshot: None,
                    }
                },
                _ => {
                    proof {
                        assert(false);
                    }
                    EngineOutcome { actions: Vec::new(), reply: None, snapshot: None }
                },
            }
        },
        SessionAgentRequest::Kill { .. } => {
            proof {
                assert(false);
            }
            EngineOutcome { actions: Vec::new(), reply: None, snapshot: None }
        },
        SessionAgentRequest::Devices { connection_id, .. } => {
            match data {
                PlayerData::DeviceList { devices } => {
                    let infos = on_devices(&devices);
                    EngineOutcome {
                        actions: Vec::new(),
                        reply: Some(
                            EngineReply::Devices(
                                DevicesComplete { connection_id: *connection_id, devices: infos },
                            ),
                        ),
                        snapshot: None,
                    }
                },
                _ => {
                    proof {
                        assert(false);
                    }
                    EngineOutcome { actions: Vec::new(), reply: None, snapshot: None }
                },
            }
        },
        SessionAgentRequest::Transfer { device_id, .. } => {
            EngineOutcome { actions: on_transfer(device_id), reply: None, snapshot: None }
        },
        SessionAgentRequest::VotedTracks { connection_id, .. } => {
            EngineOutcome {
                actions: Vec::new(),
                reply: Some(EngineReply::VotedTracks(on_voted_tracks(session, *connection_id))),
                snapshot: None,
            }
        },
    }
}

} // verus!
