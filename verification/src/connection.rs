//! Per-connection protocol decisions.
//!
//! One real-time connection carries frames: liveness pings and pongs,
//! and text payloads holding client requests. The transport itself is
//! the caller's; these functions decide what each frame means — when to
//! refresh the liveness clock, what to send back, when to drop the
//! connection, and which request, if any, to forward to the engine. A
//! malformed request is silently ignored, never an error.

use vstd::prelude::*;
use crate::engine::SessionAgentRequest;
use crate::ids::{parse_track_ref, spec_track_id};

verus! {

/// One request as a client sent it, already unframed by the caller.
pub enum ClientRequest {
    Search { query: String },
    Queue { uri: String },
}

/// Turn a client request into an engine request. A queue request whose
/// track reference does not parse is dropped (`None`), mirroring the
/// silent handling of protocol violations.
pub fn route_client_request(session_id: u128, connection_id: u128, request: ClientRequest) -> (r:
    Option<SessionAgentRequest>)
    ensures
        request matches ClientRequest::Search { query } ==> (r matches Some(
            SessionAgentRequest::Search { query: q, session_id: s, connection_id: c },
        ) && q@ == query@ && s == session_id && c == connection_id),
        request matches ClientRequest::Queue { uri } ==> {
            &&& spec_track_id(uri@) is None ==> r is None
            &&& spec_track_id(uri@) matches Some(id) ==> (r matches Some(
                SessionAgentRequest::Queue { track_id, session_id: s },
            ) && track_id@ == id && s == session_id)
        },
{
    match request {
        ClientRequest::Search { query } => Some(
            SessionAgentRequest::Search { query, session_id, connection_id },
        ),
        ClientRequest::Queue { uri } => match parse_track_ref(uri.as_str()) {
            Some(track_id) => Some(SessionAgentRequest::Queue { track_id, session_id }),
            None => None,
        },
    }
}

/// One inbound frame, as the transport delivered it. A text frame
/// carries the parsed client request, or nothing when the payload was
/// malformed.
pub enum WsFrame {
    Ping { payload: Vec<u8> },
    Pong,
    Binary { payload: Vec<u8> },
    Close,
    Continuation,
    Nop,
    Text { request: Option<ClientRequest> },
}

/// What to send back for one frame.
pub enum FrameReply {
    Pong { payload: Vec<u8> },
    EchoBinary { payload: Vec<u8> },
    CloseAck,
}

/// Everything one frame asks of the transport.
pub struct FrameOutcome {
    /// Refresh the connection's liveness clock.
    pub touch_heartbeat: bool,
    /// Send this back on the same connection.
    pub reply: Option<FrameReply>,
    /// Stop the connection.
    pub stop: bool,
    /// Forward this request to the engine.
    pub forward: Option<SessionAgentRequest>,
}

/// Decide one inbound frame: pings and pongs refresh the liveness
/// clock (a ping is answered), binary data is echoed, a close is
/// acknowledged and stops the connection, a continuation stops it, and
/// a text frame forwards the client's request — or nothing, when the
/// request was malformed or its track reference does not parse.
pub fn handle_frame(session_id: u128, connection_id: u128, frame: WsFrame) -> (r: FrameOutcome)
    ensures
        frame matches WsFrame::Ping { payload } ==> (r.touch_heartbeat && (r.reply matches Some(
            FrameReply::Pong { payload: p },
        ) && p@ == payload@) && !r.stop && r.forward is None),
        frame is Pong ==> r.touch_heartbeat && r.reply is None && !r.stop && r.forward is None,
        frame matches WsFrame::Binary { payload } ==> (!r.touch_heartbeat && (r.reply matches Some(
            FrameReply::EchoBinary { payload: p },
        ) && p@ == payload@) && !r.stop && r.forward is None),
        frame is Close ==> !r.touch_heartbeat && (r.reply matches Some(FrameReply::CloseAck))
            && r.stop && r.forward is None,
        frame is Continuation ==> !r.touch_heartbeat && r.reply is None && r.stop && r.forward
            is None,
        frame is Nop ==> !r.touch_heartbeat && r.reply is None && !r.stop && r.forward is None,
        frame matches WsFrame::Text { request: None } ==> !r.touch_heartbeat && r.reply is None
            && !r.stop && r.forward is None,
        frame matches WsFrame::Text { request: Some(req) } ==> (!r.touch_heartbeat && r.reply
            is None && !r.stop && {
            &&& req matches ClientRequest::Search { query } ==> (r.forward matches Some(
                SessionAgentRequest::Search { query: q, session_id: s, connection_id: c },
            ) && q@ == query@ && s == session_id && c == connection_id)
            &&& req matches ClientRequest::Queue { uri } ==> {
                &&& spec_track_id(uri@) is None ==> r.forward is None
                &&& spec_track_id(uri@) matches Some(id) ==> (r.forward matches Some(
                    SessionAgentRequest::Queue { track_id, session_id: s },
                ) && track_id@ == id && s == session_id)
            }
        }),
{
    match frame {
        WsFrame::Ping { payload } => FrameOutcome {
            touch_heartbeat: true,
            reply: Some(FrameReply::Pong { payload }),
            stop: false,
            forward: None,
        },
        WsFrame::Pong => FrameOutcome {
            touch_heartbeat: true,
            reply: None,
            stop: false,
            forward: None,
        },
        WsFrame::Binary { payload } => FrameOutcome {
            touch_heartbeat: false,
            reply: Some(FrameReply::EchoBinary { payload }),
            stop: false,
            forward: None,
        },
        WsFrame::Close => FrameOutcome {
            touch_heartbeat: false,
            reply: Some(FrameReply::CloseAck),
            stop: true,
            forward: None,
        },
        WsFrame::Continuation => FrameOutcome {
            touch_heartbeat: false,
            reply: None,
            stop: true,
            forward: None,
        },
        WsFrame::Nop => FrameOutcome {
            touch_heartbeat: false,
            reply: None,
            stop: false,
            forward: None,
        },
        WsFrame::Text { request } => {
            let forward = match request {
                None => None,
                Some(req) => route_client_request(session_id, connection_id, req),
            };
            FrameOutcome { touch_heartbeat: false, reply: None, stop: false, forward }
        },
    }
}

/// Whether a connection's liveness has lapsed: more than the client
/// timeout has passed since its last heartbeat. A clock that reads
/// earlier than the last heartbeat counts as no lapse.
pub fn heartbeat_expired(now_ms: u64, last_heartbeat_ms: u64) -> (r: bool)
    ensures
        r == (last_heartbeat_ms < now_ms && now_ms - last_heartbeat_ms
            > crate::CLIENT_TIMEOUT_MS),
{
    last_heartbeat_ms < now_ms && now_ms - last_heartbeat_ms > crate::CLIENT_TIMEOUT_MS
}

} // verus!
