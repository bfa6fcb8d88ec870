use queuetify::config::Environment;
use queuetify::connection::{
    handle_frame, heartbeat_expired, route_client_request, ClientRequest, FrameReply, WsFrame,
};
use queuetify::engine::SessionAgentRequest;
use queuetify::hub::Hub;
use queuetify::messages::{
    CallbackQuery, Context, DevicesComplete, KillComplete, QueueRequest, Response, SearchComplete,
    SearchResultPayload, State, StateUpdate, StateUpdatePayload, TransferComplete, WsMessage,
};
use queuetify::track::SearchResult;
use queuetify::{CLIENT_TIMEOUT_MS, INITIAL_REFRESH_INTERVAL_MS};

#[test]
fn connect_registers_and_is_idempotent() {
    let mut hub = Hub::new();
    let delay = hub.connect(1, 10);
    assert_eq!(delay, INITIAL_REFRESH_INTERVAL_MS);
    hub.connect(1, 10);
    hub.connect(1, 11);
    let targets = hub.broadcast_targets(1, None);
    assert_eq!(targets, vec![10, 11]);
}

#[test]
fn last_disconnect_removes_session_from_poll_targets() {
    // after the last connection leaves, a tick no longer polls the session
    let mut hub = Hub::new();
    hub.connect(1, 10);
    hub.connect(1, 11);
    hub.connect(2, 20);
    hub.disconnect(1, 10);
    let ticks = hub.poll_tick();
    assert_eq!(ticks.len(), 2);
    hub.disconnect(1, 11);
    let ticks = hub.poll_tick();
    assert_eq!(ticks.len(), 1);
    assert!(matches!(ticks[0], SessionAgentRequest::PollState { session_id: 2 }));
    assert!(hub.broadcast_targets(1, None).is_empty());
}

#[test]
fn disconnect_of_unknown_ids_is_noop() {
    let mut hub = Hub::new();
    hub.connect(1, 10);
    hub.disconnect(9, 10);
    hub.disconnect(1, 99);
    assert_eq!(hub.broadcast_targets(1, None), vec![10]);
}

#[test]
fn poll_tick_targets_every_active_session() {
    let mut hub = Hub::new();
    hub.connect(1, 10);
    hub.connect(2, 20);
    let ticks = hub.poll_tick();
    assert_eq!(ticks.len(), 2);
    assert!(matches!(ticks[0], SessionAgentRequest::PollState { session_id: 1 }));
    assert!(matches!(ticks[1], SessionAgentRequest::PollState { session_id: 2 }));
}

#[test]
fn targeted_broadcast_reaches_only_the_member() {
    let mut hub = Hub::new();
    hub.connect(1, 10);
    hub.connect(1, 11);
    assert_eq!(hub.broadcast_targets(1, Some(11)), vec![11]);
    // a target that is not a member of the session yields nobody
    assert_eq!(hub.broadcast_targets(1, Some(99)), Vec::<u128>::new());
    assert!(hub.broadcast_targets(7, None).is_empty());
}

#[test]
fn state_update_routes_to_whole_session() {
    let mut hub = Hub::new();
    hub.connect(1, 10);
    hub.connect(1, 11);
    let update = StateUpdate {
        update: StateUpdatePayload { payload: State { track: None, queue: Vec::new() } },
        session_id: 1,
        connection_id: None,
    };
    let (targets, response) = hub.route_state_update(update);
    assert_eq!(targets, vec![10, 11]);
    assert!(matches!(response, Response::StateUpdate(_)));
}

#[test]
fn search_reply_routes_to_the_asker() {
    let hub = Hub::new();
    let msg = SearchComplete {
        result: SearchResultPayload { payload: SearchResult { tracks: Vec::new() } },
        connection_id: 42,
    };
    let (target, response) = hub.route_search_complete(msg);
    assert_eq!(target, 42);
    assert!(matches!(response, Response::SearchResult(_)));
}

#[test]
fn kill_complete_broadcasts_shutdown() {
    let mut hub = Hub::new();
    hub.connect(1, 10);
    hub.connect(1, 11);
    let (targets, response) = hub.route_kill_complete(KillComplete { session_id: 1 });
    assert_eq!(targets, vec![10, 11]);
    assert!(matches!(response, Response::Shutdown));
}

#[test]
fn devices_and_transfer_route_to_the_asker() {
    let hub = Hub::new();
    let (t, r) = hub.route_devices_complete(DevicesComplete { connection_id: 5, devices: Vec::new() });
    assert_eq!(t, 5);
    assert!(matches!(r, Response::Devices(_)));
    let (t, r) = hub.route_transfer_complete(TransferComplete {
        connection_id: 6,
        result: String::from("OK"),
    });
    assert_eq!(t, 6);
    match r {
        Response::TransferResponse(p) => assert_eq!(p.payload, "OK"),
        _ => panic!("expected a transfer response"),
    }
}

#[test]
fn queue_request_extracts_track_id_from_uri() {
    // the library hands on the bare id, not the URI it was given
    let r = route_client_request(1, 2, ClientRequest::Queue { uri: String::from("spotify:track:4y4VO05kYgUTo2bzbox1an") });
    match r {
        Some(SessionAgentRequest::Queue { track_id, session_id }) => {
            assert_eq!(track_id, "4y4VO05kYgUTo2bzbox1an");
            assert_eq!(session_id, 1);
        }
        _ => panic!("expected a queue request"),
    }
}

#[test]
fn queue_request_accepts_slash_uri_and_bare_id() {
    let r = route_client_request(1, 2, ClientRequest::Queue { uri: String::from("spotify/track/abc123") });
    assert!(matches!(r, Some(SessionAgentRequest::Queue { ref track_id, .. }) if track_id == "abc123"));
    let r = route_client_request(1, 2, ClientRequest::Queue { uri: String::from("abc123") });
    assert!(matches!(r, Some(SessionAgentRequest::Queue { ref track_id, .. }) if track_id == "abc123"));
}

#[test]
fn queue_request_drops_malformed_references() {
    for bad in ["spotify:album:abc123", "spotify:track:not valid!", "has space", "spotify:track"] {
        let r = route_client_request(1, 2, ClientRequest::Queue { uri: String::from(bad) });
        assert!(r.is_none(), "{bad} should be rejected");
    }
}

#[test]
fn search_request_is_forwarded_unchanged() {
    let r = route_client_request(1, 2, ClientRequest::Search { query: String::from("hello") });
    match r {
        Some(SessionAgentRequest::Search { query, session_id, connection_id }) => {
            assert_eq!(query, "hello");
            assert_eq!(session_id, 1);
            assert_eq!(connection_id, 2);
        }
        _ => panic!("expected a search request"),
    }
}

#[test]
fn frames_drive_heartbeat_replies_and_stops() {
    let out = handle_frame(1, 2, WsFrame::Ping { payload: vec![1, 2] });
    assert!(out.touch_heartbeat && !out.stop);
    assert!(matches!(out.reply, Some(FrameReply::Pong { ref payload }) if payload == &vec![1, 2]));
    let out = handle_frame(1, 2, WsFrame::Pong);
    assert!(out.touch_heartbeat && out.reply.is_none() && !out.stop);
    let out = handle_frame(1, 2, WsFrame::Binary { payload: vec![9] });
    assert!(matches!(out.reply, Some(FrameReply::EchoBinary { ref payload }) if payload == &vec![9]));
    let out = handle_frame(1, 2, WsFrame::Close);
    assert!(out.stop && matches!(out.reply, Some(FrameReply::CloseAck)));
    let out = handle_frame(1, 2, WsFrame::Continuation);
    assert!(out.stop && out.reply.is_none());
    let out = handle_frame(1, 2, WsFrame::Nop);
    assert!(!out.stop && out.reply.is_none() && !out.touch_heartbeat);
}

#[test]
fn malformed_text_is_silently_ignored() {
    let out = handle_frame(1, 2, WsFrame::Text { request: None });
    assert!(out.forward.is_none() && out.reply.is_none() && !out.stop);
}

#[test]
fn text_frames_forward_requests() {
    let out = handle_frame(1, 2, WsFrame::Text {
        request: Some(ClientRequest::Search { query: String::from("x") }),
    });
    assert!(matches!(out.forward, Some(SessionAgentRequest::Search { .. })));
    let out = handle_frame(1, 2, WsFrame::Text {
        request: Some(ClientRequest::Queue { uri: String::from("spotify:track:zz9") }),
    });
    assert!(matches!(out.forward, Some(SessionAgentRequest::Queue { ref track_id, .. }) if track_id == "zz9"));
}

#[test]
fn heartbeat_expires_after_the_client_timeout() {
    assert!(!heartbeat_expired(1000, 1000));
    assert!(!heartbeat_expired(1000 + CLIENT_TIMEOUT_MS, 1000));
    assert!(heartbeat_expired(1001 + CLIENT_TIMEOUT_MS, 1000));
    // a clock reading before the last heartbeat is no lapse
    assert!(!heartbeat_expired(500, 1000));
}

#[test]
fn environment_names_round_trip() {
    assert_eq!(Environment::Local.as_str(), "local");
    assert_eq!(Environment::Production.as_str(), "production");
    assert!(matches!(Environment::from_name("local"), Ok(Environment::Local)));
    assert!(matches!(Environment::from_name("LOCAL"), Ok(Environment::Local)));
    assert!(matches!(Environment::from_name("Production"), Ok(Environment::Production)));
    match Environment::from_name("staging") {
        Err(m) => assert_eq!(
            m,
            "staging is not a supported environment. Use either `local` or `production`."
        ),
        Ok(_) => panic!("staging must be rejected"),
    }
}

#[test]
fn request_bodies_carry_plain_fields() {
    let q = QueueRequest { uri: String::from("spotify:track:abc") };
    assert_eq!(q.uri, "spotify:track:abc");
    let cb = CallbackQuery { code: String::from("c"), state: String::from("s") };
    assert_eq!(cb.code, "c");
    assert_eq!(cb.state, "s");
    let msg = WsMessage(Response::Shutdown);
    assert!(matches!(msg.0, Response::Shutdown));
}

#[test]
fn context_labels() {
    assert_eq!(Context::Host.as_str(), "host");
    assert_eq!(Context::Peer.as_str(), "peer");
}
