//! The messages exchanged with a device over its tunnel.

use vstd::prelude::*;

verus! {

/// One HTTP header, by name and value text.
#[derive(Debug)]
pub struct HeaderPair {
    pub name: String,
    pub value: String,
}

impl View for HeaderPair {
    type V = (Seq<char>, Seq<char>);

    open spec fn view(&self) -> (Seq<char>, Seq<char>) {
        (self.name@, self.value@)
    }
}

/// The header texts of a list of headers.
pub open spec fn header_texts(headers: Seq<HeaderPair>) -> Seq<(Seq<char>, Seq<char>)> {
    headers.map_values(|h: HeaderPair| h@)
}

/// The start of a proxied request: its metadata.
#[derive(Debug)]
pub struct RelayRequestStart {
    pub request_id: String,
    pub method: String,
    pub path: String,
    pub headers: Vec<HeaderPair>,
}

/// A piece of a request or response body, in base64.
#[derive(Debug)]
pub struct BodyChunk {
    pub request_id: String,
    pub body_base64: String,
}

/// The end of a request body (or of a response body).
#[derive(Debug)]
pub struct RequestEnd {
    pub request_id: String,
}

/// The relay gives up on forwarding a request body.
#[derive(Debug)]
pub struct RequestAbort {
    pub request_id: String,
    pub message: String,
}

/// The start of a device's response: its status and headers.
#[derive(Debug)]
pub struct RelayResponseStart {
    pub request_id: String,
    pub status: u16,
    pub headers: Vec<HeaderPair>,
}

/// The device could not answer a request.
#[derive(Debug)]
pub struct ResponseError {
    pub request_id: String,
    pub status: u16,
    pub message: String,
}

/// A message that the relay sends to a device.
#[derive(Debug)]
pub enum RelayToDevice {
    RequestStart(RelayRequestStart),
    RequestBodyChunk(BodyChunk),
    RequestEnd(RequestEnd),
    RequestAbort(RequestAbort),
}

/// A message that a device sends to the relay.
#[derive(Debug)]
pub enum DeviceToRelay {
    ResponseStart(RelayResponseStart),
    ResponseBodyChunk(BodyChunk),
    ResponseEnd(RequestEnd),
    ResponseError(ResponseError),
    Pong,
}

/// The request that a device message is about, if any.
pub open spec fn message_request_id(message: DeviceToRelay) -> Option<Seq<char>> {
    match message {
        DeviceToRelay::ResponseStart(r) => Some(r.request_id@),
        DeviceToRelay::ResponseBodyChunk(c) => Some(c.request_id@),
        DeviceToRelay::ResponseEnd(e) => Some(e.request_id@),
        DeviceToRelay::ResponseError(e) => Some(e.request_id@),
        DeviceToRelay::Pong => None,
    }
}

} // verus!
