//! The device side of the relay: connected devices, their pending
//! responses, and what each message from a device delivers.

use vstd::prelude::*;
use crate::codec::decode_body;
use crate::protocol::{DeviceToRelay, HeaderPair, RelayResponseStart};
use crate::table::KeyedTable;

verus! {

/// Where the parts of one device response go: the start once, then the body.
pub struct PendingResponse<S, B> {
    pub start_sender: Option<S>,
    pub body_sender: B,
}

/// The responses a device still owes, by request id.
pub struct PendingResponses<S, B> {
    table: KeyedTable<PendingResponse<S, B>>,
}

impl<S, B> PendingResponses<S, B> {
    /// The pending responses by request id.
    pub closed spec fn contents(&self) -> Map<Seq<char>, PendingResponse<S, B>> {
        self.table.contents()
    }


    /// No pending responses.
    pub fn new() -> (p: Self)
        ensures
            p.contents() == Map::<Seq<char>, PendingResponse<S, B>>::empty(),
    {
        PendingResponses { table: KeyedTable::new() }
    }

    /// Records where the response to `request_id` goes.
    pub fn insert(&mut self, request_id: String, pending: PendingResponse<S, B>)
        ensures
            final(self).contents() == old(self).contents().insert(request_id@, pending),
    {
        self.table.insert(request_id, pending);
    }

    /// Forgets the response to `request_id`, handing back where it went.
    pub fn remove(&mut self, request_id: &String) -> (r: Option<PendingResponse<S, B>>)
        ensures
            final(self).contents() == old(self).contents().remove(request_id@),
            r is None <==> !old(self).contents().dom().contains(request_id@),
            r matches Some(p) ==> p == old(self).contents()[request_id@],
    {
        self.table.remove(request_id)
    }

    /// Whether a response to `request_id` is pending.
    pub fn contains(&self, request_id: &String) -> (r: bool)
        ensures
            r == self.contents().dom().contains(request_id@),
    {
        self.table.contains_key(request_id)
    }

    /// Forgets every pending response.
    pub fn clear(&mut self)
        ensures
            final(self).contents() == Map::<Seq<char>, PendingResponse<S, B>>::empty(),
    {
        self.table.clear();
    }
}


impl<S, B> PendingResponses<S, B> {
    /// Takes the start sender of the response to `request_id`, leaving the
    /// body sender in place.
    pub fn take_start_sender(&mut self, request_id: &String) -> (r: Option<S>)
        ensures
            final(self).contents() == started(old(self).contents(), request_id@),
            r == (if old(self).contents().dom().contains(request_id@) {
                old(self).contents()[request_id@].start_sender
            } else {
                None
            }),
    {
        match self.table.remove(request_id) {
            Some(pending) => {
                let PendingResponse { start_sender, body_sender } = pending;
                self.table.insert(
                    request_id.clone(),
                    PendingResponse { start_sender: None, body_sender },
                );
                assert(self.contents() =~= started(old(self).contents(), request_id@));
                start_sender
            },
            None => None,
        }
    }

    /// The body sender of the response to `request_id`.
    pub fn body_sender(&self, request_id: &String) -> (r: Option<&B>)
        ensures
            r is None <==> !self.contents().dom().contains(request_id@),
            r matches Some(b) ==> *b == self.contents()[request_id@].body_sender,
    {
        match self.table.get(request_id) {
            Some(pending) => Some(&pending.body_sender),
            None => None,
        }
    }
}

/// The pending responses once the start of the response to `id` has gone out.
pub open spec fn started<S, B>(m: Map<Seq<char>, PendingResponse<S, B>>, id: Seq<char>) -> Map<
    Seq<char>,
    PendingResponse<S, B>,
> {
    if m.dom().contains(id) {
        m.insert(id, PendingResponse { start_sender: None, body_sender: m[id].body_sender })
    } else {
        m
    }
}

/// The pending responses after the relay has handled a device message.
pub open spec fn after_device_message<S, B>(
    m: Map<Seq<char>, PendingResponse<S, B>>,
    message: DeviceToRelay,
) -> Map<Seq<char>, PendingResponse<S, B>> {
    match message {
        DeviceToRelay::ResponseStart(r) => started(m, r.request_id@),
        DeviceToRelay::ResponseEnd(e) => m.remove(e.request_id@),
        DeviceToRelay::ResponseError(e) => m.remove(e.request_id@),
        _ => m,
    }
}

/// Whether a device message reaches a waiting client: it is about a pending
/// request, and a response start only while that start has not gone out.
pub open spec fn delivers<S, B>(
    m: Map<Seq<char>, PendingResponse<S, B>>,
    message: DeviceToRelay,
) -> bool {
    match message {
        DeviceToRelay::ResponseStart(r) => m.dom().contains(r.request_id@)
            && m[r.request_id@].start_sender is Some,
        DeviceToRelay::ResponseBodyChunk(c) => m.dom().contains(c.request_id@),
        DeviceToRelay::ResponseError(e) => m.dom().contains(e.request_id@),
        _ => false,
    }
}

/// What a device message hands to the client side of the relay.
pub enum DeviceDelivery<S, B> {
    /// Nothing is delivered.
    Nothing,
    /// The response start goes to its waiting request.
    Start { start_sender: S, start: RelayResponseStart },
    /// A decoded body chunk goes to the response body.
    BodyData { body_sender: B, data: Vec<u8> },
    /// The response body fails: a chunk was not base64.
    BodyInvalid { body_sender: B, message: String },
    /// The device failed before its response started: the error becomes a
    /// plain-text response.
    ErrorResponse { start_sender: S, body_sender: B, start: RelayResponseStart, body: String },
    /// The device failed after its response started: the body fails.
    ErrorAfterStart { body_sender: B, message: String },
}

/// The text that starts the error of a body chunk that is not base64.
pub open spec fn invalid_chunk_prefix() -> Seq<char> {
    "Invalid response body chunk: "@
}

/// The headers of a plain-text error response.
pub open spec fn plain_text_headers(headers: Seq<HeaderPair>) -> bool {
    &&& headers.len() == 1
    &&& headers[0]@ == ("content-type"@, "text/plain; charset=utf-8"@)
}

/// The delivery owed for a device message, given the pending responses
/// before it.
pub open spec fn delivery_for<S, B: Clone>(
    m: Map<Seq<char>, PendingResponse<S, B>>,
    message: DeviceToRelay,
    d: DeviceDelivery<S, B>,
) -> bool {
    if !delivers(m, message) {
        d is Nothing
    } else {
        match message {
            DeviceToRelay::ResponseStart(r) => d == DeviceDelivery::<S, B>::Start {
                start_sender: m[r.request_id@].start_sender->0,
                start: r,
            },
            DeviceToRelay::ResponseBodyChunk(c) => match crate::codec::base64_decoded(
                vstd::utf8::encode_utf8(c.body_base64@),
            ) {
                Ok(bytes) => match d {
                    DeviceDelivery::BodyData { body_sender, data } => cloned(
                        m[c.request_id@].body_sender,
                        body_sender,
                    ) && data@ == bytes,
                    _ => false,
                },
                Err(error_text) => match d {
                    DeviceDelivery::BodyInvalid { body_sender, message } => cloned(
                        m[c.request_id@].body_sender,
                        body_sender,
                    ) && message@ == invalid_chunk_prefix() + error_text,
                    _ => false,
                },
            },
            DeviceToRelay::ResponseError(e) => match m[e.request_id@].start_sender {
                Some(s) => match d {
                    DeviceDelivery::ErrorResponse { start_sender, body_sender, start, body } => {
                        &&& start_sender == s
                        &&& body_sender == m[e.request_id@].body_sender
                        &&& start.request_id@ == e.request_id@
                        &&& start.status == e.status
                        &&& plain_text_headers(start.headers@)
                        &&& body@ == e.message@
                    },
                    _ => false,
                },
                None => d == DeviceDelivery::<S, B>::ErrorAfterStart {
                    body_sender: m[e.request_id@].body_sender,
                    message: e.message,
                },
            },
            _ => d is Nothing,
        }
    }
}

/// Handles one message from a device: updates the pending responses and
/// says what goes to the waiting client.
pub fn handle_device_message<S, B: Clone>(
    pending: &mut PendingResponses<S, B>,
    message: DeviceToRelay,
) -> (d: DeviceDelivery<S, B>)
    ensures
        final(pending).contents() == after_device_message(old(pending).contents(), message),
        delivery_for(old(pending).contents(), message, d),
{
    match message {
        DeviceToRelay::ResponseStart(response) => {
            let request_id = response.request_id.clone();
            match pending.take_start_sender(&request_id) {
                Some(start_sender) => DeviceDelivery::Start { start_sender, start: response },
                None => DeviceDelivery::Nothing,
            }
        },
        DeviceToRelay::ResponseBodyChunk(chunk) => {
            let body_sender = match pending.body_sender(&chunk.request_id) {
                Some(b) => b.clone(),
                None => {
                    return DeviceDelivery::Nothing;
                },
            };
            match decode_body(chunk.body_base64.as_str()) {
                Ok(data) => DeviceDelivery::BodyData { body_sender, data },
                Err(text) => {
                    let message = "Invalid response body chunk: ".to_owned().concat(text.as_str());
                    DeviceDelivery::BodyInvalid { body_sender, message }
                },
            }
        },
        DeviceToRelay::ResponseEnd(end) => {
            let _ = pending.remove(&end.request_id);
            DeviceDelivery::Nothing
        },
        DeviceToRelay::ResponseError(error) => {
            match pending.remove(&error.request_id) {
                Some(PendingResponse { start_sender, body_sender }) => {
                    match start_sender {
                        Some(start_sender) => {
                            let mut headers: Vec<HeaderPair> = Vec::new();
                            headers.push(
                                HeaderPair {
                                    name: "content-type".to_owned(),
                                    value: "text/plain; charset=utf-8".to_owned(),
                                },
                            );
                            let start = RelayResponseStart {
                                request_id: error.request_id,
                                status: error.status,
                                headers,
                            };
                            DeviceDelivery::ErrorResponse {
                                start_sender,
                                body_sender,
                                start,
                                body: error.message,
                            }
                        },
                        None => DeviceDelivery::ErrorAfterStart {
                            body_sender,
                            message: error.message,
                        },
                    }
                },
                None => DeviceDelivery::Nothing,
            }
        },
        DeviceToRelay::Pong => DeviceDelivery::Nothing,
    }
}


/// A start delivered for a request is delivered once: a second response
/// start for the same request reaches nobody.
pub proof fn law_response_start_delivered_once<S, B>(
    m: Map<Seq<char>, PendingResponse<S, B>>,
    first: RelayResponseStart,
    second: RelayResponseStart,
)
    requires
        first.request_id@ == second.request_id@,
    ensures
        !delivers(
            after_device_message(m, DeviceToRelay::ResponseStart(first)),
            DeviceToRelay::ResponseStart(second),
        ),
{
}

/// A response start that reaches its waiting request is the device's
/// response start unchanged (same request id, status and headers), handed
/// to that request's start sender.
pub proof fn law_response_start_delivered_unchanged<S, B: Clone>(
    m: Map<Seq<char>, PendingResponse<S, B>>,
    start: RelayResponseStart,
    d: DeviceDelivery<S, B>,
)
    requires
        m.dom().contains(start.request_id@),
        m[start.request_id@].start_sender is Some,
        delivery_for(m, DeviceToRelay::ResponseStart(start), d),
    ensures
        d matches DeviceDelivery::Start { start_sender, start: delivered } && start_sender
            == m[start.request_id@].start_sender->0 && delivered == start,
{
}

/// Once a device has ended or failed a response, no later message about
/// that request reaches anybody.
pub proof fn law_finished_request_ignored<S, B>(
    m: Map<Seq<char>, PendingResponse<S, B>>,
    finish: DeviceToRelay,
    later: DeviceToRelay,
)
    requires
        finish is ResponseEnd || finish is ResponseError,
        crate::protocol::message_request_id(later) == crate::protocol::message_request_id(finish),
    ensures
        !delivers(after_device_message(m, finish), later),
{
}

/// A device message about one request leaves every other pending response
/// as it was.
pub proof fn law_other_requests_unaffected<S, B>(
    m: Map<Seq<char>, PendingResponse<S, B>>,
    message: DeviceToRelay,
    other: Seq<char>,
)
    requires
        crate::protocol::message_request_id(message) != Some(other),
    ensures
        after_device_message(m, message).dom().contains(other) == m.dom().contains(other),
        m.dom().contains(other) ==> after_device_message(m, message)[other] == m[other],
{
}

/// When a device disconnects its pending responses are dropped: no message
/// reaches anybody any more.
pub proof fn law_cleared_responses_deliver_nothing<S, B>(message: DeviceToRelay)
    ensures
        !delivers(Map::<Seq<char>, PendingResponse<S, B>>::empty(), message),
{
}

/// A connected device, with the id of its connection.
pub struct DeviceRegistration<C> {
    pub connection_id: u64,
    pub connection: C,
}

/// The devices connected to this relay, by device id.
pub struct DeviceRegistry<C> {
    table: KeyedTable<DeviceRegistration<C>>,
    next_connection_id: u64,
}

impl<C> DeviceRegistry<C> {
    /// The registrations by device id.
    pub closed spec fn registrations(&self) -> Map<Seq<char>, DeviceRegistration<C>> {
        self.table.contents()
    }

    /// The id that the next registration gets.
    pub closed spec fn next_id(&self) -> u64 {
        self.next_connection_id
    }


    /// No device connected.
    pub fn new() -> (r: Self)
        ensures
            r.registrations() == Map::<Seq<char>, DeviceRegistration<C>>::empty(),
            r.next_id() == 1,
    {
        DeviceRegistry { table: KeyedTable::new(), next_connection_id: 1 }
    }

    /// Registers a new connection of a device, replacing any earlier one,
    /// and gives back the id of the new connection.
    pub fn register(&mut self, device_id: String, connection: C) -> (id: u64)
        ensures
            id == old(self).next_id(),
            final(self).next_id() == old(self).next_id().wrapping_add(1),
            final(self).registrations() == old(self).registrations().insert(
                device_id@,
                DeviceRegistration { connection_id: id, connection },
            ),
    {
        let id = self.next_connection_id;
        self.next_connection_id = id.wrapping_add(1);
        self.table.insert(device_id, DeviceRegistration { connection_id: id, connection });
        id
    }

    /// Whether a device is connected.
    pub fn is_online(&self, device_id: &String) -> (r: bool)
        ensures
            r == self.registrations().dom().contains(device_id@),
    {
        self.table.contains_key(device_id)
    }

    /// The connection of a device.
    pub fn connection(&self, device_id: &String) -> (r: Option<&C>)
        ensures
            r is None <==> !self.registrations().dom().contains(device_id@),
            r matches Some(c) ==> *c == self.registrations()[device_id@].connection,
    {
        match self.table.get(device_id) {
            Some(registration) => Some(&registration.connection),
            None => None,
        }
    }

    /// Removes a device only while the given connection is still its
    /// current one; says whether it did.
    pub fn remove_if_same_connection(&mut self, device_id: &String, connection_id: u64) -> (r:
        bool)
        ensures
            final(self).next_id() == old(self).next_id(),
            r == is_current_connection(old(self).registrations(), device_id@, connection_id),
            final(self).registrations() == after_disconnect(
                old(self).registrations(),
                device_id@,
                connection_id,
            ),
    {
        let same = match self.table.get(device_id) {
            Some(registration) => registration.connection_id == connection_id,
            None => false,
        };
        if same {
            let _ = self.table.remove(device_id);
        }
        same
    }
}

/// Whether `connection_id` is the current connection of the device.
pub open spec fn is_current_connection<C>(
    registrations: Map<Seq<char>, DeviceRegistration<C>>,
    device_id: Seq<char>,
    connection_id: u64,
) -> bool {
    registrations.dom().contains(device_id) && registrations[device_id].connection_id
        == connection_id
}

/// The registrations once a connection of a device has closed.
pub open spec fn after_disconnect<C>(
    registrations: Map<Seq<char>, DeviceRegistration<C>>,
    device_id: Seq<char>,
    connection_id: u64,
) -> Map<Seq<char>, DeviceRegistration<C>> {
    if is_current_connection(registrations, device_id, connection_id) {
        registrations.remove(device_id)
    } else {
        registrations
    }
}

/// When a device's current connection closes, the device goes offline.
pub proof fn law_disconnect_takes_device_offline<C>(
    registrations: Map<Seq<char>, DeviceRegistration<C>>,
    device_id: Seq<char>,
    current: DeviceRegistration<C>,
)
    ensures
        !after_disconnect(
            registrations.insert(device_id, current),
            device_id,
            current.connection_id,
        ).dom().contains(device_id),
{
}

/// When an older connection of a device closes after the device has
/// reconnected, the newer connection stays registered.
pub proof fn law_stale_disconnect_keeps_newer_connection<C>(
    registrations: Map<Seq<char>, DeviceRegistration<C>>,
    device_id: Seq<char>,
    newer: DeviceRegistration<C>,
    stale_connection_id: u64,
)
    requires
        newer.connection_id != stale_connection_id,
    ensures
        after_disconnect(registrations.insert(device_id, newer), device_id, stale_connection_id)
            == registrations.insert(device_id, newer),
{
}

/// A closing connection of one device leaves every other device as it was.
pub proof fn law_disconnect_leaves_other_devices<C>(
    registrations: Map<Seq<char>, DeviceRegistration<C>>,
    device_id: Seq<char>,
    connection_id: u64,
    other: Seq<char>,
)
    requires
        other != device_id,
    ensures
        after_disconnect(registrations, device_id, connection_id).dom().contains(other)
            == registrations.dom().contains(other),
        registrations.dom().contains(other) ==> after_disconnect(
            registrations,
            device_id,
            connection_id,
        )[other] == registrations[other],
{
}

/// The query with which a device opens its tunnel.
pub struct DeviceConnectQuery {
    pub device_id: String,
    pub token: String,
}

/// Whether a device is connected.
pub struct DeviceStatusResponse {
    pub device_id: String,
    pub online: bool,
}

/// The status of a device: online exactly while it is registered.
pub fn device_status<C>(devices: &DeviceRegistry<C>, device_id: String) -> (r: DeviceStatusResponse)
    ensures
        r.device_id@ == device_id@,
        r.online == devices.registrations().dom().contains(device_id@),
{
    let online = devices.is_online(&device_id);
    DeviceStatusResponse { device_id, online }
}

/// What the relay answers a device that asks to open its tunnel.
pub enum ConnectDecision {
    /// Open the tunnel for this device.
    Accept { device_id: String },
    /// Refuse with this status and message.
    Reject { status: u16, message: String },
}

/// A device may open its tunnel exactly when it presents the shared token;
/// otherwise it gets 401 "Invalid relay token".
pub fn device_connect(shared_token: &String, query: DeviceConnectQuery) -> (r: ConnectDecision)
    ensures
        query.token@ == shared_token@ ==> (r matches ConnectDecision::Accept { device_id }
            && device_id@ == query.device_id@),
        query.token@ != shared_token@ ==> (r matches ConnectDecision::Reject { status, message }
            && status == 401 && message@ == "Invalid relay token"@),
{
    if query.token != *shared_token {
        return ConnectDecision::Reject { status: 401, message: "Invalid relay token".to_owned() };
    }
    ConnectDecision::Accept { device_id: query.device_id }
}


/// What arrives on a device's tunnel socket.
pub enum SocketEvent {
    /// A text message (a device message in JSON).
    Text,
    /// The device closes the tunnel.
    Close,
    Ping,
    Pong,
    Binary,
    /// Reading from the socket failed.
    Failed,
}

/// What the relay does with an event on a device's tunnel.
pub enum SocketAction {
    /// Handle the device message and read on.
    HandleText,
    /// Read on.
    Ignore,
    /// Stop reading: the device disconnects.
    Stop,
}

/// Text messages are handled, pings, pongs and binary messages are
/// skipped, and a close or a read failure ends the tunnel.
pub fn socket_event_action(event: &SocketEvent) -> (a: SocketAction)
    ensures
        (a is HandleText) == (*event is Text),
        (a is Stop) == (*event is Close || *event is Failed),
        (a is Ignore) == (*event is Ping || *event is Pong || *event is Binary),
{
    match event {
        SocketEvent::Text => SocketAction::HandleText,
        SocketEvent::Close | SocketEvent::Failed => SocketAction::Stop,
        SocketEvent::Ping | SocketEvent::Pong | SocketEvent::Binary => SocketAction::Ignore,
    }
}

} // verus!
