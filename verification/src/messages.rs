//! The message contracts shared by the hub, the engine and the clients.
//!
//! Requests travel client → hub → engine; replies travel engine → hub,
//! and the hub turns them into the client-facing [`Response`] envelope.
//! Ids are plain values: a session or connection id is the 128-bit value
//! of its identifier.

use vstd::prelude::*;
use crate::track::{SearchResult, TrackInfo};
use crate::store::opt_str_view;

verus! {

/// The snapshot of one session that clients render: the current track
/// and the queue in vote order.
pub struct State {
    pub track: Option<TrackInfo>,
    pub queue: Vec<TrackInfo>,
}

/// The payload of a search reply.
pub struct SearchResultPayload {
    pub payload: SearchResult,
}

/// The payload of a state update.
pub struct StateUpdatePayload {
    pub payload: State,
}

/// The kind of a playback device, as far as clients distinguish them.
#[derive(Clone, Copy, PartialEq, Eq, Structural)]
pub enum DeviceKind {
    Computer,
    Tablet,
    Smartphone,
    Speaker,
    Tv,
    Unknown,
}

/// One device as the Player reported it. The id is optional because the
/// Player may report devices without one; those are dropped.
pub struct DeviceData {
    pub id: Option<String>,
    pub name: String,
    pub kind: DeviceKind,
}

/// Mathematical image of a [`DeviceData`].
#[verifier::ext_equal]
pub ghost struct DeviceDataV {
    pub id: Option<Seq<char>>,
    pub name: Seq<char>,
    pub kind: DeviceKind,
}

impl View for DeviceData {
    type V = DeviceDataV;

    open spec fn view(&self) -> DeviceDataV {
        DeviceDataV { id: opt_str_view(self.id), name: self.name@, kind: self.kind }
    }
}

/// The projection of a device that clients see.
pub struct DeviceInfo {
    pub id: String,
    pub name: String,
    pub dev_type: String,
}

/// Mathematical image of a [`DeviceInfo`].
#[verifier::ext_equal]
pub ghost struct DeviceInfoV {
    pub id: Seq<char>,
    pub name: Seq<char>,
    pub dev_type: Seq<char>,
}

impl View for DeviceInfo {
    type V = DeviceInfoV;

    open spec fn view(&self) -> DeviceInfoV {
        DeviceInfoV { id: self.id@, name: self.name@, dev_type: self.dev_type@ }
    }
}

/// The views of a vector of device projections.
pub open spec fn device_infos_view(ds: Seq<DeviceInfo>) -> Seq<DeviceInfoV> {
    ds.map_values(|d: DeviceInfo| d@)
}

/// The views of a vector of reported devices.
pub open spec fn device_datas_view(ds: Seq<DeviceData>) -> Seq<DeviceDataV> {
    ds.map_values(|d: DeviceData| d@)
}

/// The display label of a device kind.
pub open spec fn spec_device_label(k: DeviceKind) -> Seq<char> {
    match k {
        DeviceKind::Computer => "Computer"@,
        DeviceKind::Tablet => "Tablet"@,
        DeviceKind::Smartphone => "Smartphone"@,
        DeviceKind::Speaker => "Speaker"@,
        DeviceKind::Tv => "Tv"@,
        DeviceKind::Unknown => "Unknown"@,
    }
}

/// The display label of a device kind.
pub fn device_type_to_string(k: DeviceKind) -> (r: String)
    ensures
        r@ == spec_device_label(k),
{
    match k {
        DeviceKind::Computer => String::from_str("Computer"),
        DeviceKind::Tablet => String::from_str("Tablet"),
        DeviceKind::Smartphone => String::from_str("Smartphone"),
        DeviceKind::Speaker => String::from_str("Speaker"),
        DeviceKind::Tv => String::from_str("Tv"),
        DeviceKind::Unknown => String::from_str("Unknown"),
    }
}

/// The client projection of a reported device, if it has an id.
pub open spec fn spec_resolve_device(d: DeviceDataV) -> Option<DeviceInfoV> {
    match d.id {
        Option::Some(id) => Option::Some(
            DeviceInfoV { id, name: d.name, dev_type: spec_device_label(d.kind) },
        ),
        Option::None => Option::None,
    }
}

/// The client projections of the reported devices that have an id, in
/// report order.
pub open spec fn spec_device_list(ds: Seq<DeviceDataV>) -> Seq<DeviceInfoV> {
    ds.filter(|d: DeviceDataV| d.id is Some).map_values(
        |d: DeviceDataV| spec_resolve_device(d)->Some_0,
    )
}

/// The client projection of one reported device: `None` when the device
/// lacks an id.
pub fn resolve_device(d: &DeviceData) -> (r: Option<DeviceInfo>)
    ensures
        r is Some <==> d@.id is Some,
        r matches Some(info) ==> Option::Some(info@) == spec_resolve_device(d@),
{
    match &d.id {
        None => None,
        Some(id) => Some(
            DeviceInfo {
                id: id.clone(),
                name: d.name.clone(),
                dev_type: device_type_to_string(d.kind),
            },
        ),
    }
}

/// The payload of a devices reply.
pub struct DevicesPayload {
    pub payload: Vec<DeviceInfo>,
}

/// The payload of a transfer reply.
pub struct TransferResponsePayload {
    pub payload: String,
}

/// The envelope of every server-to-client push.
pub enum Response {
    SearchResult(SearchResultPayload),
    Shutdown,
    StateUpdate(StateUpdatePayload),
    Devices(DevicesPayload),
    TransferResponse(TransferResponsePayload),
}

/// One outbound message for one connection.
pub struct WsMessage(pub Response);

/// A client connection joined a session.
pub struct Connect {
    pub session_id: u128,
    pub connection_id: u128,
}

/// A client connection left its session.
pub struct Disconnect {
    pub session_id: u128,
    pub connection_id: u128,
}

/// A client asked to search the Player's catalogue.
pub struct Search {
    pub query: String,
    pub session_id: u128,
    pub connection_id: u128,
}

/// The engine answered a search; only the asking connection hears it.
pub struct SearchComplete {
    pub result: SearchResultPayload,
    pub connection_id: u128,
}

/// A client asked to queue a track.
pub struct Queue {
    pub track_id: String,
    pub session_id: u128,
}

/// A client asked for the session's current snapshot.
pub struct GetState {
    pub session_id: u128,
    pub connection_id: u128,
}

/// A client voted for a queued track.
pub struct Vote {
    pub track_id: String,
    pub session_id: u128,
    pub connection_id: u128,
}

/// The engine computed a new snapshot; the hub fans it out to the whole
/// session, or to `connection_id` alone when one is named.
pub struct StateUpdate {
    pub update: StateUpdatePayload,
    pub session_id: u128,
    pub connection_id: Option<u128>,
}

/// Re-arm the session's token refresh timer after this delay.
pub struct Refresh {
    pub duration_ms: u64,
    pub session_id: u128,
}

/// Tear the session down.
pub struct Kill {
    pub session_id: u128,
}

/// The engine purged the session; the hub broadcasts the shutdown.
pub struct KillComplete {
    pub session_id: u128,
}

/// A client asked for the Player's device list.
pub struct Devices {
    pub session_id: u128,
    pub connection_id: u128,
}

/// The engine answered a device listing.
pub struct DevicesComplete {
    pub connection_id: u128,
    pub devices: Vec<DeviceInfo>,
}

/// A client asked to move playback to another device.
pub struct Transfer {
    pub session_id: u128,
    pub connection_id: u128,
    pub device_id: String,
}

/// The engine finished a transfer attempt.
pub struct TransferComplete {
    pub connection_id: u128,
    pub result: String,
}

/// A client asked which tracks it has already voted for.
pub struct VotedTracks {
    pub session_id: u128,
    pub connection_id: u128,
}

/// The engine answered a voted-tracks listing.
pub struct VotedTracksComplete {
    pub connection_id: u128,
    pub tracks: Vec<String>,
}

/// The query parameters of the external authentication callback.
pub struct CallbackQuery {
    pub code: String,
    pub state: String,
}

/// The body of a direct queue request.
pub struct QueueRequest {
    pub uri: String,
}

/// The role a browser session plays in a playback party.
#[derive(Clone, Copy, PartialEq, Eq, Structural)]
pub enum Context {
    Host,
    Peer,
}

impl Context {
    /// The label of this role.
    pub fn as_str(&self) -> (r: &'static str)
        ensures
            self is Host ==> r@ == "host"@,
            self is Peer ==> r@ == "peer"@,
    {
        match self {
            Context::Host => "host",
            Context::Peer => "peer",
        }
    }
}

} // verus!
