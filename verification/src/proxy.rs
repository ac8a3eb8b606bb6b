//! The client side of the relay: which path and headers a proxied request
//! carries to the device, how its body is cut into chunks, and what comes
//! back to the client.

use vstd::prelude::*;
use crate::device::{PendingResponse, PendingResponses};
use crate::http_rules::{parse_header_name, status_code_valid};
use crate::codec::encode_body;
use crate::protocol::{BodyChunk, HeaderPair, RelayRequestStart, RelayToDevice, RequestAbort, RequestEnd};
use crate::text::{ascii_text, decimal_text, same_text};

verus! {

/// The path prefix under which a device is reached: `/d/{device_id}`.
pub open spec fn device_prefix(device_id: Seq<char>) -> Seq<char> {
    "/d/"@ + device_id
}

/// `s` without `prefix` where it starts with it, else `s` itself.
pub open spec fn without_prefix(s: Seq<char>, prefix: Seq<char>) -> Seq<char> {
    if prefix.len() <= s.len() && s.subrange(0, prefix.len() as int) == prefix {
        s.subrange(prefix.len() as int, s.len() as int)
    } else {
        s
    }
}

/// The request target that a proxied request has: its path and query, or
/// `/` where it has none.
pub open spec fn request_target(path_and_query: Option<&str>) -> Seq<char> {
    match path_and_query {
        Some(t) => t@,
        None => "/"@,
    }
}

/// The path that the device sees for a request to the relay: everything
/// after `/d/{device_id}`, and `/` where nothing follows.
pub open spec fn proxied_path_spec(device_id: Seq<char>, target: Seq<char>) -> Seq<char> {
    let stripped = without_prefix(target, device_prefix(device_id));
    if stripped.len() == 0 {
        "/"@
    } else {
        stripped
    }
}

fn strip_prefix_text<'a>(s: &'a str, prefix: &str) -> (r: &'a str)
    ensures
        r@ == without_prefix(s@, prefix@),
{
    let n = s.unicode_len();
    let m = prefix.unicode_len();
    if m > n {
        return s;
    }
    let mut i: usize = 0;
    while i < m
        invariant
            n == s@.len(),
            m == prefix@.len(),
            m <= n,
            i <= m,
            forall|j: int| 0 <= j < i ==> s@[j] == prefix@[j],
        decreases m - i,
    {
        let a = s.get_char(i);
        let b = prefix.get_char(i);
        if a as u32 != b as u32 {
            proof {
                vstd::utf8::char_u32_cast(a, a as u32);
                vstd::utf8::char_u32_cast(b, b as u32);
                assert(s@.subrange(0, m as int)[i as int] != prefix@[i as int]);
            }
            return s;
        }
        proof {
            vstd::utf8::char_u32_cast(a, a as u32);
            vstd::utf8::char_u32_cast(b, b as u32);
        }
        i = i + 1;
    }
    assert(s@.subrange(0, m as int) =~= prefix@);
    s.substring_char(m, n)
}

/// The path that a proxied request carries to the device: the request
/// target (`/` where the request has no path and query) without the
/// `/d/{device_id}` prefix, and `/` where nothing is left.
pub fn proxied_path(device_id: &str, path_and_query: Option<&str>) -> (r: String)
    ensures
        r@ == proxied_path_spec(device_id@, request_target(path_and_query)),
{
    let target: &str = match path_and_query {
        Some(target) => target,
        None => "/",
    };
    let prefix = "/d/".to_owned().concat(device_id);
    let stripped = strip_prefix_text(target, prefix.as_str());
    if stripped.is_empty() {
        "/".to_owned()
    } else {
        stripped.to_owned()
    }
}

/// Everything after `/d/{device_id}` reaches the device as if it had been
/// requested from `/` of the device.
pub proof fn law_proxied_path_keeps_rest(device_id: Seq<char>, rest: Seq<char>)
    ensures
        proxied_path_spec(device_id, device_prefix(device_id) + rest) == (if rest.len() == 0 {
            "/"@
        } else {
            rest
        }),
{
    let t = device_prefix(device_id) + rest;
    let p = device_prefix(device_id);
    assert(t.subrange(0, p.len() as int) =~= p);
    assert(t.subrange(p.len() as int, t.len() as int) =~= rest);
}

/// A request target under `/d/{device_id}/` is the prefix followed by the
/// path the device sees: the path and the whole query reach the device
/// unchanged.
pub proof fn law_proxied_path_rebuilds_target(device_id: Seq<char>, target: &str)
    requires
        ("/d/"@ + device_id + "/"@).len() <= target@.len(),
        target@.take(("/d/"@ + device_id + "/"@).len() as int) == "/d/"@ + device_id + "/"@,
    ensures
        "/d/"@ + device_id + proxied_path_spec(device_id, request_target(Some(target)))
            == target@,
{
    reveal_strlit("/");
    let p = "/d/"@ + device_id;
    let q = p + "/"@;
    let t = target@;
    let rest = t.skip(p.len() as int);
    assert forall|i: int| 0 <= i < q.len() implies t[i] == q[i] by {
        assert(t.take(q.len() as int)[i] == q[i]);
    }
    assert forall|i: int| 0 <= i < p.len() implies t[i] == p[i] by {
        assert(t[i] == q[i]);
    }
    assert(t =~= p + rest);
    assert(rest[0] == q[p.len() as int]);
    law_proxied_path_keeps_rest(device_id, rest);
}

/// The headers that a relay never forwards in either direction.
pub open spec fn is_hop_header(name: Seq<char>) -> bool {
    ||| name == "host"@
    ||| name == "connection"@
    ||| name == "upgrade"@
    ||| name == "transfer-encoding"@
    ||| name == "content-length"@
}

/// Whether a header, by its normalized (lower-case) name, is forwarded.
pub fn should_forward_header(name: &str) -> (r: bool)
    ensures
        r == !is_hop_header(name@),
{
    !(same_text(name, "host") || same_text(name, "connection") || same_text(name, "upgrade")
        || same_text(name, "transfer-encoding") || same_text(name, "content-length"))
}

/// A header of a client request, by its normalized name and raw value.
pub struct RequestHeader {
    pub name: String,
    pub value: Vec<u8>,
}

/// A request header that is none of host, connection, upgrade,
/// transfer-encoding and content-length, and whose value is visible ASCII
/// (bytes 32 to 126, or tab), goes to the device after the headers before
/// it, with its value unchanged.
pub proof fn law_relay_headers_forward_others(headers: Seq<RequestHeader>, h: RequestHeader)
    requires
        h.name@ != "host"@,
        h.name@ != "connection"@,
        h.name@ != "upgrade"@,
        h.name@ != "transfer-encoding"@,
        h.name@ != "content-length"@,
        forall|i: int|
            0 <= i < h.value@.len() ==> (32 <= #[trigger] h.value@[i] <= 126 || h.value@[i] == 9),
    ensures
        relayed_headers(headers.push(h)) == relayed_headers(headers).push(
            (h.name@, Seq::new(h.value@.len(), |i: int| h.value@[i] as char)),
        ),
{
    let all = headers.push(h);
    assert(all.drop_last() =~= headers);
    assert(crate::text::ascii_chars(h.value@) =~= Seq::new(
        h.value@.len(),
        |i: int| h.value@[i] as char,
    ));
}

/// A byte that `http::HeaderValue::to_str` accepts: visible ASCII or tab.
pub open spec fn visible_ascii(b: u8) -> bool {
    (32 <= b && b < 127) || b == 9
}

/// The text of a header value, where all its bytes are visible ASCII (as
/// `http::HeaderValue::to_str` has it).
pub open spec fn header_value_text(value: Seq<u8>) -> Option<Seq<char>> {
    if forall|i: int| 0 <= i < value.len() ==> visible_ascii(#[trigger] value[i]) {
        Some(crate::text::ascii_chars(value))
    } else {
        None
    }
}

fn header_value_to_text(value: &[u8]) -> (r: Option<String>)
    ensures
        r is None <==> header_value_text(value@) is None,
        r matches Some(t) ==> header_value_text(value@) == Some(t@),
{
    let n = value.len();
    let mut i: usize = 0;
    while i < n
        invariant
            n == value@.len(),
            i <= n,
            forall|j: int| 0 <= j < i ==> visible_ascii(#[trigger] value@[j]),
        decreases n - i,
    {
        let b = value[i];
        if !((32 <= b && b < 127) || b == 9) {
            assert(!visible_ascii(value@[i as int]));
            return None;
        }
        i = i + 1;
    }
    Some(ascii_text(value))
}

/// The request headers that go to the device, in order: those that are
/// not hop-by-hop and whose value is visible ASCII.
pub open spec fn relayed_headers(headers: Seq<RequestHeader>) -> Seq<(Seq<char>, Seq<char>)>
    decreases headers.len(),
{
    if headers.len() == 0 {
        Seq::empty()
    } else {
        let rest = relayed_headers(headers.drop_last());
        let h = headers.last();
        if !is_hop_header(h.name@) && header_value_text(h.value@) is Some {
            rest.push((h.name@, header_value_text(h.value@)->0))
        } else {
            rest
        }
    }
}

/// The headers of a client request that are forwarded to the device.
pub fn relay_headers(headers: &Vec<RequestHeader>) -> (r: Vec<HeaderPair>)
    ensures
        crate::protocol::header_texts(r@) == relayed_headers(headers@),
{
    let mut out: Vec<HeaderPair> = Vec::new();
    let n = headers.len();
    let mut i: usize = 0;
    while i < n
        invariant
            n == headers@.len(),
            i <= n,
            crate::protocol::header_texts(out@) == relayed_headers(headers@.take(i as int)),
        decreases n - i,
    {
        let header = &headers[i];
        assert(headers@.take(i + 1).drop_last() =~= headers@.take(i as int));
        assert(headers@.take(i + 1).last() == headers@[i as int]);
        if should_forward_header(header.name.as_str()) {
            match header_value_to_text(header.value.as_slice()) {
                Some(value) => {
                    let pair = HeaderPair { name: header.name.clone(), value };
                    let ghost before = out@;
                    out.push(pair);
                    assert(crate::protocol::header_texts(out@) =~= crate::protocol::header_texts(
                        before,
                    ).push(pair@));
                },
                None => {},
            }
        }
        i = i + 1;
    }
    assert(headers@.take(n as int) =~= headers@);
    out
}


/// No hop-by-hop header is forwarded to a device.
pub proof fn law_relayed_headers_skip_hop_headers(headers: Seq<RequestHeader>)
    ensures
        forall|k: int|
            0 <= k < relayed_headers(headers).len() ==> !is_hop_header(
                #[trigger] relayed_headers(headers)[k].0,
            ),
    decreases headers.len(),
{
    if headers.len() > 0 {
        let rest = relayed_headers(headers.drop_last());
        law_relayed_headers_skip_hop_headers(headers.drop_last());
        let all = relayed_headers(headers);
        assert forall|k: int| 0 <= k < all.len() implies !is_hop_header(#[trigger] all[k].0) by {
            if k < rest.len() {
                assert(all[k] == rest[k]);
            }
        }
    }
}

/// A byte that `http::HeaderValue::from_str` accepts.
pub open spec fn valid_value_byte(b: u8) -> bool {
    (32 <= b && b != 127) || b == 9
}

/// Whether `http::HeaderValue::from_str` accepts a text: every byte of its
/// UTF-8 encoding is accepted.
pub open spec fn valid_header_value(value: Seq<char>) -> bool {
    let bytes = vstd::utf8::encode_utf8(value);
    forall|i: int| 0 <= i < bytes.len() ==> valid_value_byte(#[trigger] bytes[i])
}

fn header_value_valid(value: &str) -> (r: bool)
    ensures
        r == valid_header_value(value@),
{
    let bytes = value.as_bytes();
    let n = bytes.len();
    let mut i: usize = 0;
    while i < n
        invariant
            n == bytes@.len(),
            bytes@ == vstd::utf8::encode_utf8(value@),
            i <= n,
            forall|j: int| 0 <= j < i ==> valid_value_byte(#[trigger] bytes@[j]),
        decreases n - i,
    {
        let b = bytes[i];
        if !((32 <= b && b != 127) || b == 9) {
            assert(!valid_value_byte(bytes@[i as int]));
            return false;
        }
        i = i + 1;
    }
    true
}

/// The response headers that reach the client, in order: those whose name
/// `http` accepts (taken normalized), that are not hop-by-hop, and whose
/// value `http` accepts.
pub open spec fn forwarded_response_headers(headers: Seq<HeaderPair>) -> Seq<
    (Seq<char>, Seq<char>),
>
    decreases headers.len(),
{
    if headers.len() == 0 {
        Seq::empty()
    } else {
        let rest = forwarded_response_headers(headers.drop_last());
        let h = headers.last();
        match crate::http_rules::header_name_parsed(vstd::utf8::encode_utf8(h.name@)) {
            Some(name) => if !is_hop_header(name) && valid_header_value(h.value@) {
                rest.push((name, h.value@))
            } else {
                rest
            },
            None => rest,
        }
    }
}

/// The headers of a device response that are passed on to the client,
/// with normalized names.
pub fn response_headers(headers: &Vec<HeaderPair>) -> (r: Vec<HeaderPair>)
    ensures
        crate::protocol::header_texts(r@) == forwarded_response_headers(headers@),
{
    let mut out: Vec<HeaderPair> = Vec::new();
    let n = headers.len();
    let mut i: usize = 0;
    while i < n
        invariant
            n == headers@.len(),
            i <= n,
            crate::protocol::header_texts(out@) == forwarded_response_headers(
                headers@.take(i as int),
            ),
        decreases n - i,
    {
        let header = &headers[i];
        assert(headers@.take(i + 1).drop_last() =~= headers@.take(i as int));
        assert(headers@.take(i + 1).last() == headers@[i as int]);
        match parse_header_name(header.name.as_str()) {
            Some(name) => {
                if should_forward_header(name.as_str()) && header_value_valid(
                    header.value.as_str(),
                ) {
                    let pair = HeaderPair { name, value: header.value.clone() };
                    let ghost before = out@;
                    out.push(pair);
                    assert(crate::protocol::header_texts(out@) =~= crate::protocol::header_texts(
                        before,
                    ).push(pair@));
                }
            },
            None => {},
        }
        i = i + 1;
    }
    assert(headers@.take(n as int) =~= headers@);
    out
}

/// A device response header whose name `http` accepts as `name`, that is
/// none of host, connection, upgrade, transfer-encoding and content-length,
/// and whose value is visible ASCII with spaces and tabs (bytes 32 to 126,
/// or tab) reaches the client after the headers before it, with its value
/// unchanged.
pub proof fn law_response_headers_forward_others(
    headers: Seq<HeaderPair>,
    h: HeaderPair,
    name: Seq<char>,
)
    requires
        crate::http_rules::header_name_parsed(vstd::utf8::encode_utf8(h.name@)) == Some(name),
        name != "host"@,
        name != "connection"@,
        name != "upgrade"@,
        name != "transfer-encoding"@,
        name != "content-length"@,
        forall|i: int|
            0 <= i < vstd::utf8::encode_utf8(h.value@).len() ==> (32 <= #[trigger] vstd::utf8::encode_utf8(
                h.value@,
            )[i] <= 126 || vstd::utf8::encode_utf8(h.value@)[i] == 9),
    ensures
        forwarded_response_headers(headers.push(h)) == forwarded_response_headers(headers).push(
            (name, h.value@),
        ),
{
    let all = headers.push(h);
    assert(all.drop_last() =~= headers);
}

/// No hop-by-hop header of a device response reaches the client.
pub proof fn law_response_headers_skip_hop_headers(headers: Seq<HeaderPair>)
    ensures
        forall|k: int|
            0 <= k < forwarded_response_headers(headers).len() ==> !is_hop_header(
                #[trigger] forwarded_response_headers(headers)[k].0,
            ),
    decreases headers.len(),
{
    if headers.len() > 0 {
        let rest = forwarded_response_headers(headers.drop_last());
        law_response_headers_skip_hop_headers(headers.drop_last());
        let all = forwarded_response_headers(headers);
        assert forall|k: int| 0 <= k < all.len() implies !is_hop_header(#[trigger] all[k].0) by {
            if k < rest.len() {
                assert(all[k] == rest[k]);
            }
        }
    }
}

/// The status of the response to the client: the device's status where
/// it is a valid HTTP status code (100 to 999), else 502 Bad Gateway.
pub fn response_status(status: u16) -> (r: u16)
    ensures
        r == (if 100 <= status && status <= 999 {
            status
        } else {
            502
        }),
{
    if status_code_valid(status) {
        status
    } else {
        502
    }
}

/// Opens a proxied request: records where its response goes and gives the
/// message that starts it on the device, with the proxied path and the
/// forwarded headers.
pub fn start_proxy_request<S, B>(
    pending: &mut PendingResponses<S, B>,
    request_id: String,
    device_id: &str,
    path_and_query: Option<&str>,
    method: String,
    headers: &Vec<RequestHeader>,
    start_sender: S,
    body_sender: B,
) -> (message: RelayToDevice)
    ensures
        final(pending).contents() == old(pending).contents().insert(
            request_id@,
            PendingResponse { start_sender: Some(start_sender), body_sender },
        ),
        match message {
            RelayToDevice::RequestStart(start) => {
                &&& start.request_id@ == request_id@
                &&& start.method@ == method@
                &&& start.path@ == proxied_path_spec(device_id@, request_target(path_and_query))
                &&& crate::protocol::header_texts(start.headers@) == relayed_headers(headers@)
            },
            _ => false,
        },
{
    let path = proxied_path(device_id, path_and_query);
    let forwarded = relay_headers(headers);
    let id = request_id.clone();
    pending.insert(request_id, PendingResponse { start_sender: Some(start_sender), body_sender });
    RelayToDevice::RequestStart(
        RelayRequestStart { request_id: id, method, path, headers: forwarded },
    )
}

/// Why a proxied request got no response from the device.
pub enum ProxyFailure {
    /// The device is not connected.
    DeviceOffline,
    /// The request could not be sent into the tunnel.
    TunnelClosed,
    /// The tunnel closed before the response started.
    ClosedBeforeResponse,
    /// The response did not start in time.
    TimedOut,
}

/// The error response that a client gets.
pub struct ErrorReply {
    pub status: u16,
    pub message: String,
}

/// The status and text that a client gets for a failure.
pub open spec fn failure_reply(failure: ProxyFailure) -> (u16, Seq<char>) {
    match failure {
        ProxyFailure::DeviceOffline => (502, "Device is offline"@),
        ProxyFailure::TunnelClosed => (502, "Device tunnel is closed"@),
        ProxyFailure::ClosedBeforeResponse => (502, "Device tunnel closed before response"@),
        ProxyFailure::TimedOut => (504, "Device response timed out"@),
    }
}

/// Whether the relay still holds the pending response when the failure
/// is found, and so drops it.
pub open spec fn failure_drops_pending(failure: ProxyFailure) -> bool {
    failure is TunnelClosed || failure is TimedOut
}

/// The error response for a failure.
pub fn proxy_failure_reply(failure: &ProxyFailure) -> (r: ErrorReply)
    ensures
        (r.status, r.message@) == failure_reply(*failure),
{
    match failure {
        ProxyFailure::DeviceOffline => ErrorReply {
            status: 502,
            message: "Device is offline".to_owned(),
        },
        ProxyFailure::TunnelClosed => ErrorReply {
            status: 502,
            message: "Device tunnel is closed".to_owned(),
        },
        ProxyFailure::ClosedBeforeResponse => ErrorReply {
            status: 502,
            message: "Device tunnel closed before response".to_owned(),
        },
        ProxyFailure::TimedOut => ErrorReply {
            status: 504,
            message: "Device response timed out".to_owned(),
        },
    }
}

/// Gives up on a proxied request: drops its pending response where the
/// relay still holds it, and gives the error response for the client.
pub fn fail_proxy_request<S, B>(
    pending: &mut PendingResponses<S, B>,
    request_id: &String,
    failure: ProxyFailure,
) -> (r: ErrorReply)
    ensures
        final(pending).contents() == (if failure_drops_pending(failure) {
            old(pending).contents().remove(request_id@)
        } else {
            old(pending).contents()
        }),
        (r.status, r.message@) == failure_reply(failure),
{
    match failure {
        ProxyFailure::TunnelClosed | ProxyFailure::TimedOut => {
            let _ = pending.remove(request_id);
        },
        _ => {},
    }
    proxy_failure_reply(&failure)
}

/// Where a request to a device's bare root `/d/{device_id}` is sent: the
/// same path with a trailing slash, with the query kept.
pub open spec fn redirect_location(device_id: Seq<char>, query: Option<&str>) -> Seq<char> {
    device_prefix(device_id) + "/"@ + match query {
        Some(q) => "?"@ + q@,
        None => Seq::empty(),
    }
}

/// A redirect response.
pub struct Redirect {
    pub status: u16,
    pub location: String,
}

/// The temporary redirect (307) from `/d/{device_id}` to `/d/{device_id}/`,
/// keeping the query.
pub fn redirect_device_root(device_id: &str, query: Option<&str>) -> (r: Redirect)
    ensures
        r.status == 307,
        r.location@ == redirect_location(device_id@, query),
{
    let mut location = "/d/".to_owned().concat(device_id);
    location.append("/");
    match query {
        Some(q) => {
            location.append("?");
            location.append(q);
        },
        None => {},
    }
    let r = Redirect { status: 307, location };
    assert(r.location@ =~= redirect_location(device_id@, query));
    r
}


/// Following the redirect from a device's bare root leads to the device's
/// root path, with the query kept.
pub proof fn law_redirect_reaches_device_root(device_id: Seq<char>, query: Option<&str>)
    ensures
        proxied_path_spec(device_id, redirect_location(device_id, query)) == "/"@ + match query {
            Some(q) => "?"@ + q@,
            None => Seq::<char>::empty(),
        },
{
    let tail = match query {
        Some(q) => "?"@ + q@,
        None => Seq::<char>::empty(),
    };
    let rest = "/"@ + tail;
    assert(redirect_location(device_id, query) =~= device_prefix(device_id) + rest);
    law_proxied_path_keeps_rest(device_id, rest);
    assert(rest.len() > 0) by {
        reveal_strlit("/");
    }
}

/// The largest body chunk that goes into one tunnel message: 64 KiB.
pub const STREAM_CHUNK_BYTES: usize = 65536;

/// How a body frame is cut into chunks: pieces of `STREAM_CHUNK_BYTES`,
/// the last one shorter, none empty.
pub open spec fn body_chunks(data: Seq<u8>) -> Seq<Seq<u8>>
    decreases data.len(),
{
    if data.len() == 0 {
        Seq::empty()
    } else if data.len() <= STREAM_CHUNK_BYTES {
        seq![data]
    } else {
        seq![data.take(STREAM_CHUNK_BYTES as int)] + body_chunks(
            data.skip(STREAM_CHUNK_BYTES as int),
        )
    }
}

/// The chunks of a body frame, put back together, are the frame; each is
/// non-empty and at most `STREAM_CHUNK_BYTES` long.
pub proof fn law_body_chunks_cover_frame(data: Seq<u8>)
    ensures
        body_chunks(data).flatten() == data,
        forall|k: int|
            0 <= k < body_chunks(data).len() ==> 0 < (#[trigger] body_chunks(data)[k]).len()
                <= STREAM_CHUNK_BYTES,
    decreases data.len(),
{
    let c = body_chunks(data);
    if data.len() == 0 {
    } else if data.len() <= STREAM_CHUNK_BYTES {
        assert(c.drop_first() =~= Seq::<Seq<u8>>::empty());
        assert(c.drop_first().flatten() =~= Seq::<u8>::empty());
        assert(c.flatten() == c.first() + c.drop_first().flatten());
        assert(c.flatten() =~= data);
    } else {
        let rest = data.skip(STREAM_CHUNK_BYTES as int);
        law_body_chunks_cover_frame(rest);
        assert(c.drop_first() =~= body_chunks(rest));
        assert(c.flatten() =~= data);
        assert forall|k: int| 0 <= k < c.len() implies 0 < (#[trigger] c[k]).len()
            <= STREAM_CHUNK_BYTES by {
            if k > 0 {
                assert(c[k] == body_chunks(rest)[k - 1]);
            }
        }
    }
}

proof fn lemma_body_chunks_step(rest: Seq<u8>, step: int)
    requires
        rest.len() > 0,
        step == (if rest.len() > STREAM_CHUNK_BYTES {
            STREAM_CHUNK_BYTES as int
        } else {
            rest.len() as int
        }),
    ensures
        body_chunks(rest) == seq![rest.take(step)] + body_chunks(rest.skip(step)),
{
    if rest.len() <= STREAM_CHUNK_BYTES {
        assert(rest.take(step) =~= rest);
        assert(rest.skip(step) =~= Seq::<u8>::empty());
        assert(body_chunks(rest) =~= seq![rest.take(step)] + body_chunks(rest.skip(step)));
    }
}

/// The messages that carry a frame's chunks: one per chunk, in order, each
/// for the request and holding the base64 text of its chunk, which decodes
/// back to the chunk.
pub open spec fn chunk_messages(
    messages: Seq<RelayToDevice>,
    request_id: Seq<char>,
    chunks: Seq<Seq<u8>>,
) -> bool {
    &&& messages.len() == chunks.len()
    &&& forall|k: int|
        0 <= k < messages.len() ==> match #[trigger] messages[k] {
            RelayToDevice::RequestBodyChunk(c) => c.request_id@ == request_id
                && c.body_base64@ == crate::codec::base64_encoded(chunks[k])
                && crate::codec::base64_decoded(vstd::utf8::encode_utf8(c.body_base64@)) == crate::codec::decoded_as(chunks[k]),
            _ => false,
        }
}

/// The error with which the relay gives up on a body over its limit.
pub open spec fn limit_message(max_body_bytes: u64) -> Seq<char> {
    "Request body exceeded relay limit of "@ + crate::text::decimal(max_body_bytes as nat)
        + " bytes"@
}

/// The text of the error for a body over the limit.
pub fn limit_exceeded_message(max_body_bytes: u64) -> (r: String)
    ensures
        r@ == limit_message(max_body_bytes),
{
    let limit = decimal_text(max_body_bytes);
    "Request body exceeded relay limit of ".to_owned().concat(limit.as_str()).concat(" bytes")
}

/// The request that a message to a device is about.
pub open spec fn relay_message_request(m: RelayToDevice) -> Seq<char> {
    match m {
        RelayToDevice::RequestStart(s) => s.request_id@,
        RelayToDevice::RequestBodyChunk(c) => c.request_id@,
        RelayToDevice::RequestEnd(e) => e.request_id@,
        RelayToDevice::RequestAbort(a) => a.request_id@,
    }
}

/// A message that ends a request body: its end, or its abort.
pub open spec fn ends_body(m: RelayToDevice) -> bool {
    m is RequestEnd || m is RequestAbort
}

/// The body messages of one request, in the order the protocol has them:
/// body chunks, then at most one end or abort, and nothing after it.
pub open spec fn body_messages_ordered(s: Seq<RelayToDevice>, request_id: Seq<char>) -> bool {
    forall|k: int|
        0 <= k < s.len() ==> relay_message_request(#[trigger] s[k]) == request_id && (
        s[k] is RequestBodyChunk || (ends_body(s[k]) && k == s.len() - 1))
}

/// All messages of one request, in the order the protocol has them: the
/// request start, then its body messages in order.
pub open spec fn request_messages_ordered(s: Seq<RelayToDevice>, request_id: Seq<char>) -> bool {
    &&& s.len() > 0
    &&& s[0] is RequestStart
    &&& relay_message_request(s[0]) == request_id
    &&& body_messages_ordered(s.drop_first(), request_id)
}

/// The start that opens a request, followed by the messages of its body
/// forwarder, is a message sequence in protocol order.
pub proof fn law_request_messages_ordered(
    start: RelayToDevice,
    body: Seq<RelayToDevice>,
    request_id: Seq<char>,
)
    requires
        start is RequestStart,
        relay_message_request(start) == request_id,
        body_messages_ordered(body, request_id),
    ensures
        request_messages_ordered(seq![start] + body, request_id),
{
    assert((seq![start] + body).drop_first() =~= body);
}

/// What happens to a request body, one event at a time.
pub enum BodyEvent<'a> {
    /// A frame of body data.
    Data(&'a [u8]),
    /// A frame without data (such as trailers).
    NonData,
    /// Reading the body, or sending into the tunnel, failed with this text.
    Failed(String),
    /// The body has no more frames.
    Finished,
}

/// Forwards the body of one request to the device, event by event,
/// counting its bytes against the relay's limit. Once it has sent the end
/// or an abort it sends nothing more.
pub struct BodyForwarder {
    request_id: String,
    total_bytes: u64,
    max_body_bytes: u64,
    open: bool,
    sent: Ghost<Seq<RelayToDevice>>,
}

impl BodyForwarder {
    #[verifier::type_invariant]
    spec fn inv(&self) -> bool {
        &&& body_messages_ordered(self.sent@, self.request_id@)
        &&& self.open ==> !(self.sent@.len() > 0 && ends_body(self.sent@.last()))
    }

    /// The request whose body this is.
    pub closed spec fn request_id(&self) -> Seq<char> {
        self.request_id@
    }

    /// The bytes counted so far (saturating at `u64::MAX`).
    pub closed spec fn total(&self) -> u64 {
        self.total_bytes
    }

    /// The most body bytes the relay forwards.
    pub closed spec fn max(&self) -> u64 {
        self.max_body_bytes
    }

    /// Whether the body is still being forwarded (no end or abort sent).
    pub closed spec fn is_open(&self) -> bool {
        self.open
    }

    /// Every message this forwarder has given out, in order.
    pub closed spec fn sent(&self) -> Seq<RelayToDevice> {
        self.sent@
    }

    /// A forwarder that has counted and sent nothing yet.
    pub fn new(request_id: String, max_body_bytes: u64) -> (f: Self)
        ensures
            f.request_id() == request_id@,
            f.total() == 0,
            f.max() == max_body_bytes,
            f.is_open(),
            f.sent() == Seq::<RelayToDevice>::empty(),
    {
        BodyForwarder {
            request_id,
            total_bytes: 0,
            max_body_bytes,
            open: true,
            sent: Ghost(Seq::empty()),
        }
    }

    /// Whether the body is still being forwarded.
    pub fn forwarding(&self) -> (r: bool)
        ensures
            r == self.is_open(),
    {
        self.open
    }

    /// The messages that a body event gives, in order. A data frame is
    /// counted; once the count is over the limit the body is aborted with
    /// the limit error, else its chunks go out. A frame without data gives
    /// nothing. A failure aborts the body with its text; the end of the
    /// body gives the end message. After an end or abort nothing goes out.
    /// Every message given out stays in protocol order.
    pub fn step(&mut self, event: BodyEvent) -> (messages: Vec<RelayToDevice>)
        ensures
            final(self).request_id() == old(self).request_id(),
            final(self).max() == old(self).max(),
            final(self).sent() == old(self).sent() + messages@,
            body_messages_ordered(final(self).sent(), final(self).request_id()),
            !old(self).is_open() ==> messages@.len() == 0 && !final(self).is_open()
                && final(self).total() == old(self).total(),
            old(self).is_open() ==> match event {
                BodyEvent::Data(data) => {
                    let total = if old(self).total() + data@.len() > u64::MAX {
                        u64::MAX
                    } else {
                        (old(self).total() + data@.len()) as u64
                    };
                    &&& final(self).total() == total
                    &&& if total > old(self).max() {
                        &&& !final(self).is_open()
                        &&& messages@.len() == 1
                        &&& messages@[0] matches RelayToDevice::RequestAbort(a)
                        &&& a.request_id@ == old(self).request_id()
                        &&& a.message@ == limit_message(old(self).max())
                    } else {
                        &&& final(self).is_open()
                        &&& chunk_messages(messages@, old(self).request_id(), body_chunks(data@))
                    }
                },
                BodyEvent::NonData => {
                    &&& final(self).is_open()
                    &&& messages@.len() == 0
                    &&& final(self).total() == old(self).total()
                },
                BodyEvent::Failed(text) => {
                    &&& !final(self).is_open()
                    &&& final(self).total() == old(self).total()
                    &&& messages@.len() == 1
                    &&& messages@[0] matches RelayToDevice::RequestAbort(a)
                    &&& a.request_id@ == old(self).request_id()
                    &&& a.message@ == text@
                },
                BodyEvent::Finished => {
                    &&& !final(self).is_open()
                    &&& final(self).total() == old(self).total()
                    &&& messages@.len() == 1
                    &&& messages@[0] matches RelayToDevice::RequestEnd(e)
                    &&& e.request_id@ == old(self).request_id()
                },
            },
    {
        proof {
            use_type_invariant(&*self);
        }
        let mut messages: Vec<RelayToDevice> = Vec::new();
        if !self.open {
            assert(self.sent@ + messages@ =~= self.sent@);
            return messages;
        }
        match event {
            BodyEvent::Data(data) => {
                self.total_bytes = self.total_bytes.saturating_add(data.len() as u64);
                if self.total_bytes > self.max_body_bytes {
                    let message = limit_exceeded_message(self.max_body_bytes);
                    messages.push(
                        RelayToDevice::RequestAbort(
                            RequestAbort { request_id: self.request_id.clone(), message },
                        ),
                    );
                    self.open = false;
                    let ghost before = self.sent@;
                    self.sent = Ghost(self.sent@ + messages@);
                    proof {
                        let s = self.sent@;
                        assert forall|k: int| 0 <= k < s.len() implies relay_message_request(
                            #[trigger] s[k],
                        ) == self.request_id@ && (s[k] is RequestBodyChunk || (ends_body(s[k])
                            && k == s.len() - 1)) by {
                            if k < before.len() {
                                assert(s[k] == before[k]);
                            }
                        }
                    }
                } else {
                    messages = self.chunk_messages_of(data);
                    let ghost before = self.sent@;
                    self.sent = Ghost(self.sent@ + messages@);
                    proof {
                        let s = self.sent@;
                        assert forall|k: int| 0 <= k < s.len() implies relay_message_request(
                            #[trigger] s[k],
                        ) == self.request_id@ && (s[k] is RequestBodyChunk || (ends_body(s[k])
                            && k == s.len() - 1)) by {
                            if k < before.len() {
                                assert(s[k] == before[k]);
                            } else {
                                assert(s[k] == messages@[k - before.len()]);
                            }
                        }
                    }
                }
            },
            BodyEvent::NonData => {
                assert(self.sent@ + messages@ =~= self.sent@);
            },
            BodyEvent::Failed(text) => {
                messages.push(
                    RelayToDevice::RequestAbort(
                        RequestAbort { request_id: self.request_id.clone(), message: text },
                    ),
                );
                self.open = false;
                let ghost before = self.sent@;
                self.sent = Ghost(self.sent@ + messages@);
                proof {
                    let s = self.sent@;
                    assert forall|k: int| 0 <= k < s.len() implies relay_message_request(
                        #[trigger] s[k],
                    ) == self.request_id@ && (s[k] is RequestBodyChunk || (ends_body(s[k]) && k
                        == s.len() - 1)) by {
                        if k < before.len() {
                            assert(s[k] == before[k]);
                        }
                    }
                }
            },
            BodyEvent::Finished => {
                messages.push(
                    RelayToDevice::RequestEnd(RequestEnd { request_id: self.request_id.clone() }),
                );
                self.open = false;
                let ghost before = self.sent@;
                self.sent = Ghost(self.sent@ + messages@);
                proof {
                    let s = self.sent@;
                    assert forall|k: int| 0 <= k < s.len() implies relay_message_request(
                        #[trigger] s[k],
                    ) == self.request_id@ && (s[k] is RequestBodyChunk || (ends_body(s[k]) && k
                        == s.len() - 1)) by {
                        if k < before.len() {
                            assert(s[k] == before[k]);
                        }
                    }
                }
            },
        }
        proof {
            use_type_invariant(&*self);
        }
        messages
    }

    fn chunk_messages_of(&self, data: &[u8]) -> (messages: Vec<RelayToDevice>)
        ensures
            chunk_messages(messages@, self.request_id@, body_chunks(data@)),
    {
        let n = data.len();
        let mut messages: Vec<RelayToDevice> = Vec::new();
        let mut offset: usize = 0;
        let ghost mut done: Seq<Seq<u8>> = Seq::empty();
        assert(data@.skip(0) =~= data@);
        while offset < n
            invariant
                n == data@.len(),
                offset <= n,
                done + body_chunks(data@.skip(offset as int)) == body_chunks(data@),
                chunk_messages(messages@, self.request_id@, done),
            decreases n - offset,
        {
            let end = if n - offset > STREAM_CHUNK_BYTES {
                offset + STREAM_CHUNK_BYTES
            } else {
                n
            };
            let chunk = &data[offset..end];
            let ghost rest = data@.skip(offset as int);
            proof {
                lemma_body_chunks_step(rest, (end - offset) as int);
                assert(rest.skip((end - offset) as int) =~= data@.skip(end as int));
                assert(chunk@ =~= rest.take((end - offset) as int));
            }
            let text = encode_body(chunk);
            let message = RelayToDevice::RequestBodyChunk(
                BodyChunk { request_id: self.request_id.clone(), body_base64: text },
            );
            let ghost before = messages@;
            messages.push(message);
            proof {
                assert(done.push(chunk@) + body_chunks(data@.skip(end as int)) =~= done + body_chunks(
                    rest,
                ));
                done = done.push(chunk@);
                assert forall|k: int| 0 <= k < messages@.len() implies match #[trigger] messages@[k] {
                    RelayToDevice::RequestBodyChunk(c) => c.request_id@ == self.request_id@
                        && c.body_base64@ == crate::codec::base64_encoded(done[k])
                        && crate::codec::base64_decoded(vstd::utf8::encode_utf8(c.body_base64@))
                        == crate::codec::decoded_as(done[k]),
                    _ => false,
                } by {
                    if k < before.len() {
                        assert(messages@[k] == before[k]);
                    }
                }
            }
            offset = end;
        }
        proof {
            assert(data@.skip(n as int) =~= Seq::<u8>::empty());
            assert(done + Seq::<Seq<u8>>::empty() =~= done);
        }
        messages
    }
}

} // verus!
