use queuetify::engine::{
    handle_request, on_devices, on_kill, on_poll_state, on_queue, on_refresh, on_vote,
    on_voted_tracks, poll_prepare, request_query, transfer_reply, build_state, build_state_update,
    get_current_state, EngineReply, PlayerAction, PlayerData, PlayerQuery, PlayingItem,
    PlayingReport, SessionAgentRequest,
};
use queuetify::messages::{DeviceData, DeviceKind};
use queuetify::store::{Session, Store};
use queuetify::track::{get_search_results, TrackData};
use queuetify::{POLL_STATE_INTERVAL_MS, REFRESH_RETRY_INTERVAL_MS, REFRESH_TOKEN_INTERVAL_MS};

fn session() -> Session {
    Session::new(String::from("token-1"))
}

fn track(id: &str) -> TrackData {
    TrackData {
        id: Some(String::from(id)),
        name: format!("name of {id}"),
        artists: vec![String::from("artist")],
    }
}

fn unresolvable_track() -> TrackData {
    TrackData { id: None, name: String::from("ghost"), artists: Vec::new() }
}

fn playing_report(id: &str, is_playing: bool, progress_ms: Option<u64>, duration_ms: u64) -> PlayingReport {
    PlayingReport {
        item: PlayingItem::Track { id: Some(String::from(id)), duration_ms },
        is_playing,
        progress_ms,
    }
}

#[test]
fn queue_on_idle_session_starts_playback() {
    // client queues a track while nothing is current: the Player gets
    // start-playback for it and it becomes the current track
    let mut s = session();
    let actions = on_queue(&mut s, &String::from("trackX"));
    assert_eq!(actions.len(), 1);
    assert!(matches!(&actions[0], PlayerAction::StartPlayback { track } if track == "trackX"));
    assert_eq!(s.get_current_track().as_deref(), Some("trackX"));
    assert_eq!(s.queue.len(), 0);
}

#[test]
fn queue_on_busy_session_joins_queue() {
    let mut s = session();
    s.set_current_track(Some(String::from("current")));
    let actions = on_queue(&mut s, &String::from("next"));
    assert!(actions.is_empty());
    assert_eq!(s.get_current_track().as_deref(), Some("current"));
    assert_eq!(s.queue.len(), 1);
    assert_eq!(s.queue[0].track, "next");
}

#[test]
fn poll_without_current_track_queries_nothing() {
    // with no stored current track the tick never reaches the Player
    let s = session();
    assert!(poll_prepare(&s).is_none());
    let req = SessionAgentRequest::PollState { session_id: 1 };
    assert!(request_query(&s, &req).is_none());
}

#[test]
fn poll_with_current_track_queries_playback() {
    let mut s = session();
    s.set_current_track(Some(String::from("aaa")));
    assert_eq!(poll_prepare(&s).as_deref(), Some("aaa"));
    let req = SessionAgentRequest::PollState { session_id: 1 };
    assert!(matches!(request_query(&s, &req), Some(PlayerQuery::CurrentPlayback)));
}

#[test]
fn poll_recovers_when_nothing_plays() {
    let mut s = session();
    s.set_current_track(Some(String::from("aaa")));
    let outcome = on_poll_state(&mut s, None);
    assert!(!outcome.changed);
    assert_eq!(outcome.actions.len(), 1);
    assert!(matches!(&outcome.actions[0], PlayerAction::StartPlayback { track } if track == "aaa"));
    assert_eq!(s.get_current_track().as_deref(), Some("aaa"));
}

#[test]
fn poll_forces_stored_track_back() {
    // the stored value is authoritative, not the device's
    let mut s = session();
    s.set_current_track(Some(String::from("aaa")));
    let report = playing_report("intruder", true, Some(10), 100_000);
    let outcome = on_poll_state(&mut s, Some(report));
    assert!(!outcome.changed);
    assert_eq!(outcome.actions.len(), 1);
    assert!(matches!(&outcome.actions[0], PlayerAction::StartPlayback { track } if track == "aaa"));
}

#[test]
fn poll_resumes_paused_match() {
    let mut s = session();
    s.set_current_track(Some(String::from("aaa")));
    let report = playing_report("aaa", false, Some(10), 100_000);
    let outcome = on_poll_state(&mut s, Some(report));
    assert!(!outcome.changed);
    assert_eq!(outcome.actions.len(), 1);
    assert!(matches!(&outcome.actions[0], PlayerAction::ResumePlayback));
}

#[test]
fn poll_with_enough_time_left_never_pops() {
    // remaining time equals the poll interval: no pop, even with votes
    let mut s = session();
    s.set_current_track(Some(String::from("aaa")));
    s.queue_track(&String::from("bbb"));
    on_vote(&mut s, 1, &String::from("bbb"));
    let duration = 200_000;
    let progress = duration - POLL_STATE_INTERVAL_MS;
    let report = playing_report("aaa", true, Some(progress), duration);
    let outcome = on_poll_state(&mut s, Some(report));
    assert!(!outcome.changed);
    assert!(outcome.actions.is_empty());
    assert_eq!(s.get_current_track().as_deref(), Some("aaa"));
    assert_eq!(s.queue.len(), 1);
}

#[test]
fn poll_pop_selects_highest_votes_and_clears_them() {
    // queue {aaa: 2 votes, bbb: 5 votes, ccc: 0 votes}: the pop selects
    // bbb, forgets bbb's votes and makes it current
    let mut s = session();
    s.set_current_track(Some(String::from("old")));
    s.queue_track(&String::from("aaa"));
    s.queue_track(&String::from("bbb"));
    s.queue_track(&String::from("ccc"));
    for c in 1..=2u128 {
        on_vote(&mut s, c, &String::from("aaa"));
    }
    for c in 3..=7u128 {
        on_vote(&mut s, c, &String::from("bbb"));
    }
    let report = playing_report("old", true, Some(199_000), 200_000);
    let outcome = on_poll_state(&mut s, Some(report));
    assert!(outcome.changed);
    assert_eq!(outcome.actions.len(), 1);
    assert!(matches!(&outcome.actions[0], PlayerAction::AddToNativeQueue { track } if track == "bbb"));
    assert_eq!(s.get_current_track().as_deref(), Some("bbb"));
    assert!(s.votes.iter().all(|v| v.track != "bbb"));
    assert_eq!(s.queue.len(), 2);
    assert_eq!(s.queue[0].track, "aaa");
    assert_eq!(s.queue[1].track, "ccc");
}

#[test]
fn poll_pop_on_empty_queue_goes_idle() {
    let mut s = session();
    s.set_current_track(Some(String::from("aaa")));
    let report = playing_report("aaa", true, Some(199_000), 200_000);
    let outcome = on_poll_state(&mut s, Some(report));
    assert!(outcome.changed);
    assert!(outcome.actions.is_empty());
    assert!(s.get_current_track().is_none());
}

#[test]
fn poll_ignores_episodes_and_missing_data() {
    let mut s = session();
    s.set_current_track(Some(String::from("aaa")));
    let episode = PlayingReport { item: PlayingItem::Episode, is_playing: true, progress_ms: Some(1) };
    let outcome = on_poll_state(&mut s, Some(episode));
    assert!(!outcome.changed && outcome.actions.is_empty());
    let no_progress = playing_report("aaa", true, None, 100_000);
    let outcome = on_poll_state(&mut s, Some(no_progress));
    assert!(!outcome.changed && outcome.actions.is_empty());
    let no_id = PlayingReport {
        item: PlayingItem::Track { id: None, duration_ms: 100_000 },
        is_playing: true,
        progress_ms: Some(1),
    };
    let outcome = on_poll_state(&mut s, Some(no_id));
    assert!(!outcome.changed && outcome.actions.is_empty());
}

#[test]
fn refresh_backs_off_after_failure_then_recovers() {
    // a failed refresh reschedules soon; the next success returns to the
    // normal interval and stores the new token
    let mut s = session();
    let delay = on_refresh(&mut s, None);
    assert_eq!(delay, REFRESH_RETRY_INTERVAL_MS);
    assert_eq!(s.get_token(), "token-1");
    let delay = on_refresh(&mut s, Some(String::from("token-2")));
    assert_eq!(delay, REFRESH_TOKEN_INTERVAL_MS);
    assert_eq!(s.get_token(), "token-2");
    assert!(REFRESH_RETRY_INTERVAL_MS < REFRESH_TOKEN_INTERVAL_MS);
}

#[test]
fn search_caps_results_and_drops_unresolvable() {
    let mut items = Vec::new();
    for i in 0..6 {
        items.push(track(&format!("id{i}")));
        items.push(unresolvable_track());
    }
    for i in 6..12 {
        items.push(track(&format!("id{i}")));
    }
    let result = get_search_results(&items);
    assert_eq!(result.tracks.len(), 10);
    for (k, info) in result.tracks.iter().enumerate() {
        assert_eq!(info.id, format!("id{k}"));
        assert_eq!(info.name, format!("name of id{k}"));
        assert_eq!(info.artists, vec![String::from("artist")]);
    }
}

#[test]
fn search_returns_all_when_few() {
    let items = vec![unresolvable_track(), track("only")];
    let result = get_search_results(&items);
    assert_eq!(result.tracks.len(), 1);
    assert_eq!(result.tracks[0].id, "only");
}

#[test]
fn devices_drop_missing_ids_and_label_kinds() {
    let devices = vec![
        DeviceData { id: Some(String::from("d1")), name: String::from("desk"), kind: DeviceKind::Computer },
        DeviceData { id: None, name: String::from("nameless"), kind: DeviceKind::Speaker },
        DeviceData { id: Some(String::from("d2")), name: String::from("phone"), kind: DeviceKind::Smartphone },
        DeviceData { id: Some(String::from("d3")), name: String::from("box"), kind: DeviceKind::Unknown },
    ];
    let infos = on_devices(&devices);
    assert_eq!(infos.len(), 3);
    assert_eq!(infos[0].id, "d1");
    assert_eq!(infos[0].dev_type, "Computer");
    assert_eq!(infos[1].id, "d2");
    assert_eq!(infos[1].dev_type, "Smartphone");
    assert_eq!(infos[2].dev_type, "Unknown");
}

#[test]
fn transfer_reply_reports_both_outcomes() {
    let ok = transfer_reply(9, true);
    assert_eq!(ok.connection_id, 9);
    assert_eq!(ok.result, "OK");
    let err = transfer_reply(9, false);
    assert_eq!(err.result, "Err");
}

#[test]
fn kill_purges_the_session() {
    let mut st = Store::new();
    st.new_session(5, String::from("tok"));
    let done = on_kill(&mut st, 5);
    assert_eq!(done.session_id, 5);
    assert!(!st.session_exists(5));
}

#[test]
fn snapshot_lists_queue_in_vote_order() {
    let mut s = session();
    s.set_current_track(Some(String::from("cur")));
    s.queue_track(&String::from("aaa"));
    s.queue_track(&String::from("bbb"));
    on_vote(&mut s, 1, &String::from("bbb"));
    let (current, queue) = get_current_state(&s);
    assert_eq!(current.as_deref(), Some("cur"));
    assert_eq!(queue, vec![String::from("bbb"), String::from("aaa")]);
}

#[test]
fn build_state_resolves_and_skips() {
    let state = build_state(
        Some(unresolvable_track()),
        &vec![track("q1"), unresolvable_track(), track("q2")],
    );
    assert!(state.track.is_none());
    assert_eq!(state.queue.len(), 2);
    assert_eq!(state.queue[0].id, "q1");
    assert_eq!(state.queue[1].id, "q2");
    let state = build_state(Some(track("cur")), &Vec::new());
    match &state.track {
        Some(info) => assert_eq!(info.id, "cur"),
        None => panic!("expected a resolvable current track"),
    }
    let update = build_state_update(4, Some(8), state);
    assert_eq!(update.session_id, 4);
    assert_eq!(update.connection_id, Some(8));
}

#[test]
fn handle_request_serves_search_to_asker_only() {
    let mut s = session();
    let req = SessionAgentRequest::Search {
        query: String::from("q"),
        session_id: 1,
        connection_id: 42,
    };
    let outcome = handle_request(
        &mut s,
        &req,
        PlayerData::SearchResults { items: vec![track("hit")] },
    );
    assert!(outcome.actions.is_empty());
    assert!(outcome.snapshot.is_none());
    match outcome.reply {
        Some(EngineReply::Search(sc)) => {
            assert_eq!(sc.connection_id, 42);
            assert_eq!(sc.result.payload.tracks.len(), 1);
            assert_eq!(sc.result.payload.tracks[0].id, "hit");
        }
        _ => panic!("expected a search reply"),
    }
}

#[test]
fn handle_request_vote_broadcasts_only_when_counted() {
    let mut s = session();
    s.queue_track(&String::from("aaa"));
    let req = SessionAgentRequest::Vote {
        track_id: String::from("aaa"),
        session_id: 1,
        connection_id: 7,
    };
    let outcome = handle_request(&mut s, &req, PlayerData::NoData);
    assert_eq!(outcome.snapshot, Some(None));
    let outcome = handle_request(&mut s, &req, PlayerData::NoData);
    assert!(outcome.snapshot.is_none());
}

#[test]
fn handle_request_get_state_targets_the_asker() {
    let mut s = session();
    let req = SessionAgentRequest::GetState { session_id: 1, connection_id: Some(3) };
    let outcome = handle_request(&mut s, &req, PlayerData::NoData);
    assert_eq!(outcome.snapshot, Some(Some(3)));
    assert!(outcome.reply.is_none());
    assert!(outcome.actions.is_empty());
}

#[test]
fn handle_request_poll_without_current_is_noop() {
    let mut s = session();
    s.queue_track(&String::from("waiting"));
    let req = SessionAgentRequest::PollState { session_id: 1 };
    let outcome = handle_request(&mut s, &req, PlayerData::NoData);
    assert!(outcome.actions.is_empty());
    assert!(outcome.reply.is_none());
    assert!(outcome.snapshot.is_none());
    assert_eq!(s.queue.len(), 1);
    assert!(s.get_current_track().is_none());
}

#[test]
fn handle_request_refresh_reschedules() {
    let mut s = session();
    let req = SessionAgentRequest::Refresh { session_id: 11 };
    let outcome = handle_request(&mut s, &req, PlayerData::RefreshOutcome { new_token: None });
    match outcome.reply {
        Some(EngineReply::RefreshSchedule(r)) => {
            assert_eq!(r.session_id, 11);
            assert_eq!(r.duration_ms, REFRESH_RETRY_INTERVAL_MS);
        }
        _ => panic!("expected a refresh schedule"),
    }
    let outcome = handle_request(
        &mut s,
        &req,
        PlayerData::RefreshOutcome { new_token: Some(String::from("t2")) },
    );
    match outcome.reply {
        Some(EngineReply::RefreshSchedule(r)) => {
            assert_eq!(r.duration_ms, REFRESH_TOKEN_INTERVAL_MS);
        }
        _ => panic!("expected a refresh schedule"),
    }
    assert_eq!(s.get_token(), "t2");
}

#[test]
fn handle_request_voted_tracks_answers_the_asker() {
    let mut s = session();
    on_vote(&mut s, 7, &String::from("aaa"));
    let reply = on_voted_tracks(&s, 7);
    assert_eq!(reply.connection_id, 7);
    assert_eq!(reply.tracks, vec![String::from("aaa")]);
    let req = SessionAgentRequest::VotedTracks { session_id: 1, connection_id: 7 };
    let outcome = handle_request(&mut s, &req, PlayerData::NoData);
    match outcome.reply {
        Some(EngineReply::VotedTracks(v)) => {
            assert_eq!(v.connection_id, 7);
            assert_eq!(v.tracks, vec![String::from("aaa")]);
        }
        _ => panic!("expected a voted-tracks reply"),
    }
}

#[test]
fn handle_request_transfer_issues_the_command() {
    let mut s = session();
    let req = SessionAgentRequest::Transfer {
        session_id: 1,
        connection_id: 2,
        device_id: String::from("dev"),
    };
    let outcome = handle_request(&mut s, &req, PlayerData::NoData);
    assert_eq!(outcome.actions.len(), 1);
    assert!(matches!(&outcome.actions[0], PlayerAction::TransferPlayback { device_id } if device_id == "dev"));
    assert!(outcome.reply.is_none());
}
