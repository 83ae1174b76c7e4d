//! Frames: the handshake message, the request and the response, to and from bytes.
//!
//! Every frame begins with the protocol version. The handshake message has a
//! fixed size; the other two are made of length-delimited fields, so that a
//! frame that was cut short, or that something was added to, is never taken
//! for a frame. A decoder returns the one value whose wire form its input
//! is, and fails when there is none.

use vstd::prelude::*;
use vstd::string::*;
use crate::error::{plain_error, Error, ErrorKind};
use crate::identity::PUBLIC_KEY_LEN;
use crate::message::{
    headers_view, normal_path, Header, HeaderView, Method, Request, RequestView, Response,
    ResponseView,
};
use crate::wire::{
    bytes_wire, fits, holds_at, lemma_bytes_complete, lemma_bytes_sound, lemma_holds_at_concat,
    lemma_holds_at_whole, lemma_length_complete, lemma_length_sound, lemma_length_wire_len,
    lemma_text_complete, lemma_text_sound, length_wire, put_bytes, put_length, put_raw, put_text,
    read_bytes, read_length, read_text, take_bytes, take_length, take_text, text_fits, text_wire,
};

verus! {

/// The protocol version that this crate speaks, the first byte of every frame.
pub const PROTOCOL_VERSION: u8 = 1;

/// The size of a handshake message: one byte of version and a public key.
pub const HANDSHAKE_LEN: usize = 1 + PUBLIC_KEY_LEN;

/// Why bytes that are no frame are refused: for a version that is present
/// and not ours, else for their form.
pub open spec fn frame_fault(bytes: Seq<u8>) -> ErrorKind {
    if bytes.len() > 0 && bytes[0] != PROTOCOL_VERSION {
        ErrorKind::UnsupportedVersion
    } else {
        ErrorKind::MalformedFrame
    }
}

fn refuse(bytes: &[u8]) -> (res: Error)
    ensures
        res@ == plain_error(frame_fault(bytes@)),
{
    if bytes.len() > 0 && bytes[0] != PROTOCOL_VERSION {
        Error::new(ErrorKind::UnsupportedVersion)
    } else {
        Error::new(ErrorKind::MalformedFrame)
    }
}

// ---------------------------------------------------------------------------
// The handshake message
// ---------------------------------------------------------------------------

/// The wire form of the handshake message that offers `key`.
pub open spec fn handshake_wire(key: Seq<u8>) -> Seq<u8> {
    seq![PROTOCOL_VERSION] + key
}

/// The key that a handshake message offers, if `bytes` is one.
pub open spec fn handshake_key(bytes: Seq<u8>) -> Option<Seq<u8>> {
    if bytes.len() == HANDSHAKE_LEN && bytes[0] == PROTOCOL_VERSION {
        Some(bytes.subrange(1, HANDSHAKE_LEN as int))
    } else {
        None
    }
}

/// Encodes the handshake message that offers the public key `key`.
pub fn encode_handshake(key: &[u8; 32]) -> (res: Vec<u8>)
    ensures
        res@ == handshake_wire(key@),
{
    let mut out: Vec<u8> = Vec::new();
    out.push(PROTOCOL_VERSION);
    put_raw(&mut out, key.as_slice());
    assert(out@ =~= handshake_wire(key@));
    out
}

/// Decodes a handshake message into the public key it offers.
///
/// Fails with `UnsupportedVersion` when the first byte is another version,
/// and with `MalformedFrame` when the input is empty, cut short or too long.
pub fn decode_handshake(bytes: &[u8]) -> (res: Result<[u8; 32], Error>)
    ensures
        match res {
            Ok(key) => handshake_key(bytes@) == Some(key@),
            Err(e) => handshake_key(bytes@) is None && e@ == plain_error(frame_fault(bytes@)),
        },
{
    if bytes.len() != HANDSHAKE_LEN || bytes[0] != PROTOCOL_VERSION {
        return Err(refuse(bytes));
    }
    let mut key = [0u8; 32];
    let mut i: usize = 0;
    while i < PUBLIC_KEY_LEN
        invariant
            i <= PUBLIC_KEY_LEN,
            bytes@.len() == HANDSHAKE_LEN,
            forall|j: int| 0 <= j < i ==> key@[j] == bytes@[1 + j],
        decreases PUBLIC_KEY_LEN - i,
    {
        key[i] = bytes[1 + i];
        i = i + 1;
    }
    assert(key@ =~= bytes@.subrange(1, HANDSHAKE_LEN as int));
    Ok(key)
}

/// Round trip: the handshake message that offers a key decodes to that key.
pub proof fn lemma_handshake_round_trip(key: Seq<u8>)
    requires
        key.len() == PUBLIC_KEY_LEN,
    ensures
        handshake_key(handshake_wire(key)) == Some(key),
{
    assert(handshake_wire(key).subrange(1, HANDSHAKE_LEN as int) =~= key);
}

/// What decodes as a handshake message is the wire form of the key it gave.
pub proof fn lemma_handshake_wire_of_key(bytes: Seq<u8>)
    requires
        handshake_key(bytes) is Some,
    ensures
        handshake_key(bytes)->0.len() == PUBLIC_KEY_LEN,
        handshake_wire(handshake_key(bytes)->0) == bytes,
{
    assert(handshake_wire(bytes.subrange(1, HANDSHAKE_LEN as int)) =~= bytes);
}

/// A handshake message that was cut short, or added to, is no handshake
/// message, and it is refused for its form.
pub proof fn lemma_handshake_resized_is_malformed(key: Seq<u8>, bytes: Seq<u8>)
    requires
        key.len() == PUBLIC_KEY_LEN,
        bytes.len() != HANDSHAKE_LEN,
        bytes.is_prefix_of(handshake_wire(key)) || handshake_wire(key).is_prefix_of(bytes),
    ensures
        handshake_key(bytes) is None,
        frame_fault(bytes) == ErrorKind::MalformedFrame,
{
    if bytes.len() > 0 {
        assert(bytes[0] == handshake_wire(key)[0]);
    }
}

// ---------------------------------------------------------------------------
// The request
// ---------------------------------------------------------------------------

/// The byte that stands for a method.
pub open spec fn method_code(method: Method) -> u8 {
    match method {
        Method::Get => 1,
    }
}

/// The wire form of a request: version, method, path. An empty path is sent as `/`.
pub open spec fn request_wire(method: Method, path: Seq<char>) -> Seq<u8> {
    seq![PROTOCOL_VERSION, method_code(method)] + text_wire(normal_path(path))
}

/// Whether `bytes` is the frame of the request `request`.
pub open spec fn is_request_frame(bytes: Seq<u8>, request: RequestView) -> bool {
    &&& request.path.len() > 0
    &&& text_fits(request.path)
    &&& request_wire(request.method, request.path) == bytes
}

/// The request whose frame `bytes` is, if it is one.
pub open spec fn request_of(bytes: Seq<u8>) -> Option<RequestView> {
    if exists|request: RequestView| is_request_frame(bytes, request) {
        Some(choose|request: RequestView| is_request_frame(bytes, request))
    } else {
        None
    }
}

/// The request that begins `bytes`, and where it ends: a reading field by field.
spec fn read_request(bytes: Seq<u8>) -> Option<(RequestView, int)> {
    if bytes.len() >= 2 && bytes[0] == PROTOCOL_VERSION && bytes[1] == method_code(Method::Get) {
        match read_text(bytes, 2) {
            Some((path, end)) => if path.len() > 0 {
                Some((RequestView { method: Method::Get, path }, end))
            } else {
                None
            },
            None => None,
        }
    } else {
        None
    }
}

proof fn lemma_request_head(bytes: Seq<u8>, method: Method)
    ensures
        holds_at(bytes, 0, seq![PROTOCOL_VERSION, method_code(method)]) <==> bytes.len() >= 2
            && bytes[0] == PROTOCOL_VERSION && bytes[1] == method_code(method),
{
    let head = seq![PROTOCOL_VERSION, method_code(method)];
    if holds_at(bytes, 0, head) {
        assert(bytes.subrange(0, 2)[0] == head[0]);
        assert(bytes.subrange(0, 2)[1] == head[1]);
    }
    if bytes.len() >= 2 && bytes[0] == PROTOCOL_VERSION && bytes[1] == method_code(method) {
        assert(bytes.subrange(0, 2) =~= head);
    }
}

/// A request whose frame begins `bytes` is what the reading finds there.
proof fn lemma_read_request_complete(bytes: Seq<u8>, request: RequestView)
    requires
        request.path.len() > 0,
        text_fits(request.path),
        holds_at(bytes, 0, request_wire(request.method, request.path)),
    ensures
        read_request(bytes) == Some(
            (request, request_wire(request.method, request.path).len() as int),
        ),
{
    let head = seq![PROTOCOL_VERSION, method_code(request.method)];
    lemma_holds_at_concat(bytes, 0, head, text_wire(request.path));
    lemma_request_head(bytes, request.method);
    lemma_text_complete(bytes, 2, request.path);
}

/// What the reading finds at the start of `bytes` is a request whose frame stands there.
proof fn lemma_read_request_sound(bytes: Seq<u8>)
    requires
        read_request(bytes) is Some,
    ensures
        ({
            let (request, end) = read_request(bytes)->0;
            &&& request.path.len() > 0
            &&& text_fits(request.path)
            &&& holds_at(bytes, 0, request_wire(request.method, request.path))
            &&& end == request_wire(request.method, request.path).len()
        }),
{
    let (request, end) = read_request(bytes)->0;
    let head = seq![PROTOCOL_VERSION, method_code(request.method)];
    lemma_text_sound(bytes, 2);
    lemma_request_head(bytes, request.method);
    lemma_holds_at_concat(bytes, 0, head, text_wire(request.path));
}

/// The decoder's answer, by reading: `bytes` is the frame of the request
/// that the reading finds, if the reading ends where `bytes` ends.
proof fn lemma_request_of(bytes: Seq<u8>)
    ensures
        request_of(bytes) == match read_request(bytes) {
            Some((request, end)) => if end == bytes.len() {
                Some(request)
            } else {
                None
            },
            None => None,
        },
{
    if exists|request: RequestView| is_request_frame(bytes, request) {
        let request = choose|request: RequestView| is_request_frame(bytes, request);
        lemma_holds_at_whole(bytes, request_wire(request.method, request.path));
        lemma_read_request_complete(bytes, request);
    } else if read_request(bytes) is Some {
        let (request, end) = read_request(bytes)->0;
        lemma_read_request_sound(bytes);
        if end == bytes.len() {
            lemma_holds_at_whole(bytes, request_wire(request.method, request.path));
            assert(is_request_frame(bytes, request));
        }
    }
}

/// Encodes a request for `path`. An empty path asks for `/`.
pub fn encode_request(method: Method, path: &str) -> (res: Vec<u8>)
    ensures
        res@ == request_wire(method, path@),
        text_fits(normal_path(path@)),
{
    let mut out: Vec<u8> = Vec::new();
    out.push(PROTOCOL_VERSION);
    match method {
        Method::Get => out.push(1),
    }
    assert(out@ =~= seq![PROTOCOL_VERSION, method_code(method)]);
    if path.is_empty() {
        proof {
            reveal_strlit("/");
            assert("/"@ =~= seq!['/']);
        }
        put_text(&mut out, "/");
    } else {
        put_text(&mut out, path);
    }
    out
}

/// Decodes a request.
///
/// Fails with `UnsupportedVersion` when the first byte is another version,
/// and with `MalformedFrame` on every other input that is not the frame of
/// a request.
pub fn decode_request(bytes: &[u8]) -> (res: Result<Request, Error>)
    ensures
        match res {
            Ok(request) => request_of(bytes@) == Some(request@),
            Err(e) => request_of(bytes@) is None && e@ == plain_error(frame_fault(bytes@)),
        },
{
    proof {
        lemma_request_of(bytes@);
    }
    if bytes.len() < 2 || bytes[0] != PROTOCOL_VERSION || bytes[1] != 1 {
        return Err(refuse(bytes));
    }
    match take_text(bytes, 2) {
        Some((path, end)) => {
            if end == bytes.len() && !path.as_str().is_empty() {
                Ok(Request { method: Method::Get, path })
            } else {
                Err(refuse(bytes))
            }
        },
        None => Err(refuse(bytes)),
    }
}

/// Round trip: the frame of a request decodes to that request, with the
/// empty path read back as `/`.
pub proof fn lemma_request_round_trip(method: Method, path: Seq<char>)
    requires
        text_fits(normal_path(path)),
    ensures
        request_of(request_wire(method, path)) == Some(
            RequestView { method, path: normal_path(path) },
        ),
{
    let request = RequestView { method, path: normal_path(path) };
    let bytes = request_wire(method, path);
    lemma_request_of(bytes);
    lemma_holds_at_whole(bytes, request_wire(request.method, request.path));
    lemma_read_request_complete(bytes, request);
}

/// What decodes as a request is the frame of the request it gave.
pub proof fn lemma_request_wire_of_request(bytes: Seq<u8>)
    requires
        request_of(bytes) is Some,
    ensures
        is_request_frame(bytes, request_of(bytes)->0),
{
}

/// The frame of a request, cut short or added to, is no frame of a request,
/// and it is refused for its form.
pub proof fn lemma_request_resized_is_malformed(method: Method, path: Seq<char>, bytes: Seq<u8>)
    requires
        text_fits(normal_path(path)),
        bytes.len() != request_wire(method, path).len(),
        bytes.is_prefix_of(request_wire(method, path)) || request_wire(method, path).is_prefix_of(
            bytes,
        ),
    ensures
        request_of(bytes) is None,
        frame_fault(bytes) == ErrorKind::MalformedFrame,
{
    let whole = request_wire(method, path);
    let request = RequestView { method, path: normal_path(path) };
    assert(whole[0] == PROTOCOL_VERSION);
    if bytes.len() > 0 {
        assert(bytes[0] == whole[0]);
    }
    lemma_request_of(bytes);
    if read_request(bytes) is Some {
        let (other, end) = read_request(bytes)->0;
        lemma_read_request_sound(bytes);
        let other_wire = request_wire(other.method, other.path);
        lemma_holds_at_whole(whole, whole);
        if bytes.is_prefix_of(whole) {
            lemma_holds_at_prefix(bytes, whole, other_wire);
            lemma_read_request_complete(whole, other);
            lemma_read_request_complete(whole, request);
        } else {
            lemma_holds_at_prefix(whole, bytes, whole);
            lemma_read_request_complete(bytes, request);
        }
    }
}

/// What stands at the start of a sequence stands at the start of every sequence that it begins.
proof fn lemma_holds_at_prefix(shorter: Seq<u8>, longer: Seq<u8>, part: Seq<u8>)
    requires
        shorter.is_prefix_of(longer),
        holds_at(shorter, 0, part),
    ensures
        holds_at(longer, 0, part),
{
    assert(longer.subrange(0, part.len() as int) =~= shorter.subrange(0, part.len() as int));
}

// ---------------------------------------------------------------------------
// The response
// ---------------------------------------------------------------------------

/// The wire form of a header: its name, then its value.
pub open spec fn header_wire(header: HeaderView) -> Seq<u8> {
    text_wire(header.name) + text_wire(header.value)
}

/// Whether a header can be written.
pub open spec fn header_fits(header: HeaderView) -> bool {
    text_fits(header.name) && text_fits(header.value)
}

/// The wire form of a list of headers: one after the other, in order.
pub open spec fn headers_wire(headers: Seq<HeaderView>) -> Seq<u8>
    decreases headers.len(),
{
    if headers.len() == 0 {
        Seq::empty()
    } else {
        header_wire(headers[0]) + headers_wire(headers.drop_first())
    }
}

/// Whether every header of a list can be written.
pub open spec fn headers_fit(headers: Seq<HeaderView>) -> bool {
    forall|i: int| 0 <= i < headers.len() ==> header_fits(#[trigger] headers[i])
}

/// The wire form of a response: version, status, detail, the number of
/// headers, the headers, and the body with its length.
pub open spec fn response_wire(response: ResponseView) -> Seq<u8> {
    seq![PROTOCOL_VERSION] + text_wire(response.status) + text_wire(response.status_details)
        + length_wire(response.headers.len()) + headers_wire(response.headers) + bytes_wire(
        response.body,
    )
}

/// Whether a response can be written: every length in it has to fit.
pub open spec fn response_fits(response: ResponseView) -> bool {
    &&& text_fits(response.status)
    &&& text_fits(response.status_details)
    &&& fits(response.headers.len())
    &&& headers_fit(response.headers)
    &&& fits(response.body.len())
}

/// Whether `bytes` is the frame of the response `response`.
pub open spec fn is_response_frame(bytes: Seq<u8>, response: ResponseView) -> bool {
    response_fits(response) && response_wire(response) == bytes
}

/// The response whose frame `bytes` is, if it is one.
pub open spec fn response_of(bytes: Seq<u8>) -> Option<ResponseView> {
    if exists|response: ResponseView| is_response_frame(bytes, response) {
        Some(choose|response: ResponseView| is_response_frame(bytes, response))
    } else {
        None
    }
}

spec fn read_header(bytes: Seq<u8>, at: int) -> Option<(HeaderView, int)> {
    match read_text(bytes, at) {
        Some((name, mid)) => match read_text(bytes, mid) {
            Some((value, end)) => Some((HeaderView { name, value }, end)),
            None => None,
        },
        None => None,
    }
}

spec fn read_headers(bytes: Seq<u8>, at: int, count: nat) -> Option<(Seq<HeaderView>, int)>
    decreases count,
{
    if count == 0 {
        Some((Seq::empty(), at))
    } else {
        match read_header(bytes, at) {
            Some((header, next)) => match read_headers(bytes, next, (count - 1) as nat) {
                Some((rest, end)) => Some((seq![header] + rest, end)),
                None => None,
            },
            None => None,
        }
    }
}

/// The response that begins `bytes`, and where it ends: a reading field by field.
spec fn read_response(bytes: Seq<u8>) -> Option<(ResponseView, int)> {
    if bytes.len() >= 1 && bytes[0] == PROTOCOL_VERSION {
        match read_text(bytes, 1) {
            Some((status, at_details)) => match read_text(bytes, at_details) {
                Some((status_details, at_count)) => match read_length(bytes, at_count) {
                    Some((count, at_headers)) => match read_headers(bytes, at_headers, count) {
                        Some((headers, at_body)) => match read_bytes(bytes, at_body) {
                            Some((body, end)) => Some(
                                (ResponseView { status, status_details, headers, body }, end),
                            ),
                            None => None,
                        },
                        None => None,
                    },
                    None => None,
                },
                None => None,
            },
            None => None,
        }
    } else {
        None
    }
}

proof fn lemma_header_sound(bytes: Seq<u8>, at: int)
    requires
        read_header(bytes, at) is Some,
    ensures
        ({
            let (header, end) = read_header(bytes, at)->0;
            &&& header_fits(header)
            &&& holds_at(bytes, at, header_wire(header))
            &&& end == at + header_wire(header).len()
        }),
{
    let (header, end) = read_header(bytes, at)->0;
    lemma_text_sound(bytes, at);
    let (name, mid) = read_text(bytes, at)->0;
    lemma_text_sound(bytes, mid);
    lemma_holds_at_concat(bytes, at, text_wire(header.name), text_wire(header.value));
}

proof fn lemma_header_complete(bytes: Seq<u8>, at: int, header: HeaderView)
    requires
        header_fits(header),
        holds_at(bytes, at, header_wire(header)),
    ensures
        read_header(bytes, at) == Some((header, at + header_wire(header).len())),
{
    lemma_holds_at_concat(bytes, at, text_wire(header.name), text_wire(header.value));
    lemma_text_complete(bytes, at, header.name);
    lemma_text_complete(bytes, at + text_wire(header.name).len(), header.value);
}

proof fn lemma_headers_sound(bytes: Seq<u8>, at: int, count: nat)
    requires
        0 <= at <= bytes.len(),
        read_headers(bytes, at, count) is Some,
    ensures
        ({
            let (headers, end) = read_headers(bytes, at, count)->0;
            &&& headers.len() == count
            &&& headers_fit(headers)
            &&& holds_at(bytes, at, headers_wire(headers))
            &&& end == at + headers_wire(headers).len()
        }),
    decreases count,
{
    let (headers, end) = read_headers(bytes, at, count)->0;
    if count == 0 {
        assert(bytes.subrange(at, at) =~= Seq::<u8>::empty());
    } else {
        lemma_header_sound(bytes, at);
        let (header, next) = read_header(bytes, at)->0;
        lemma_headers_sound(bytes, next, (count - 1) as nat);
        let (rest, _end) = read_headers(bytes, next, (count - 1) as nat)->0;
        assert(headers == seq![header] + rest);
        assert(headers.drop_first() =~= rest);
        assert(headers[0] == header);
        assert forall|i: int| 0 <= i < headers.len() implies header_fits(#[trigger] headers[i]) by {
            if i > 0 {
                assert(headers[i] == rest[i - 1]);
            }
        }
        lemma_holds_at_concat(bytes, at, header_wire(header), headers_wire(rest));
    }
}

proof fn lemma_headers_complete(bytes: Seq<u8>, at: int, headers: Seq<HeaderView>)
    requires
        headers_fit(headers),
        holds_at(bytes, at, headers_wire(headers)),
    ensures
        read_headers(bytes, at, headers.len()) == Some(
            (headers, at + headers_wire(headers).len()),
        ),
    decreases headers.len(),
{
    if headers.len() == 0 {
        assert(headers =~= Seq::<HeaderView>::empty());
    } else {
        let header = headers[0];
        let rest = headers.drop_first();
        lemma_holds_at_concat(bytes, at, header_wire(header), headers_wire(rest));
        lemma_header_complete(bytes, at, header);
        assert forall|i: int| 0 <= i < rest.len() implies header_fits(#[trigger] rest[i]) by {
            assert(rest[i] == headers[i + 1]);
        }
        lemma_headers_complete(bytes, at + header_wire(header).len(), rest);
        assert(seq![header] + rest =~= headers);
    }
}

/// Writing one more header appends its wire form.
proof fn lemma_headers_wire_push(headers: Seq<HeaderView>, header: HeaderView)
    ensures
        headers_wire(headers.push(header)) == headers_wire(headers) + header_wire(header),
    decreases headers.len(),
{
    let longer = headers.push(header);
    if headers.len() == 0 {
        assert(longer.drop_first() =~= Seq::<HeaderView>::empty());
        assert(headers_wire(longer.drop_first()) =~= Seq::<u8>::empty());
        assert(headers_wire(longer) =~= header_wire(header));
        assert(headers_wire(headers) + header_wire(header) =~= header_wire(header));
    } else {
        lemma_headers_wire_push(headers.drop_first(), header);
        assert(longer.drop_first() =~= headers.drop_first().push(header));
        assert(headers_wire(longer) =~= headers_wire(headers) + header_wire(header));
    }
}

proof fn lemma_response_head(bytes: Seq<u8>)
    ensures
        holds_at(bytes, 0, seq![PROTOCOL_VERSION]) <==> bytes.len() >= 1 && bytes[0]
            == PROTOCOL_VERSION,
{
    let head = seq![PROTOCOL_VERSION];
    if holds_at(bytes, 0, head) {
        assert(bytes.subrange(0, 1)[0] == head[0]);
    }
    if bytes.len() >= 1 && bytes[0] == PROTOCOL_VERSION {
        assert(bytes.subrange(0, 1) =~= head);
    }
}

/// A response whose frame begins `bytes` is what the reading finds there.
proof fn lemma_read_response_complete(bytes: Seq<u8>, response: ResponseView)
    requires
        response_fits(response),
        holds_at(bytes, 0, response_wire(response)),
    ensures
        read_response(bytes) == Some((response, response_wire(response).len() as int)),
{
    let a = seq![PROTOCOL_VERSION];
    let b = text_wire(response.status);
    let c = text_wire(response.status_details);
    let d = length_wire(response.headers.len());
    let e = headers_wire(response.headers);
    let f = bytes_wire(response.body);
    lemma_holds_at_concat(bytes, 0, a + b + c + d + e, f);
    lemma_holds_at_concat(bytes, 0, a + b + c + d, e);
    lemma_holds_at_concat(bytes, 0, a + b + c, d);
    lemma_holds_at_concat(bytes, 0, a + b, c);
    lemma_holds_at_concat(bytes, 0, a, b);
    lemma_response_head(bytes);
    let at_details = 1 + b.len() as int;
    let at_count = at_details + c.len() as int;
    let at_headers = at_count + d.len() as int;
    let at_body = at_headers + e.len() as int;
    lemma_text_complete(bytes, 1, response.status);
    lemma_text_complete(bytes, at_details, response.status_details);
    lemma_length_complete(bytes, at_count, response.headers.len());
    lemma_headers_complete(bytes, at_headers, response.headers);
    lemma_bytes_complete(bytes, at_body, response.body);
}

/// What the reading finds at the start of `bytes` is a response whose frame stands there.
proof fn lemma_read_response_sound(bytes: Seq<u8>)
    requires
        read_response(bytes) is Some,
    ensures
        ({
            let (response, end) = read_response(bytes)->0;
            &&& response_fits(response)
            &&& holds_at(bytes, 0, response_wire(response))
            &&& end == response_wire(response).len()
        }),
{
    let (response, end) = read_response(bytes)->0;
    let a = seq![PROTOCOL_VERSION];
    let b = text_wire(response.status);
    let c = text_wire(response.status_details);
    let d = length_wire(response.headers.len());
    let e = headers_wire(response.headers);
    let f = bytes_wire(response.body);
    lemma_response_head(bytes);
    lemma_text_sound(bytes, 1);
    let (_status, at_details) = read_text(bytes, 1)->0;
    lemma_text_sound(bytes, at_details);
    let (_details, at_count) = read_text(bytes, at_details)->0;
    lemma_length_sound(bytes, at_count);
    let (count, at_headers) = read_length(bytes, at_count)->0;
    lemma_headers_sound(bytes, at_headers, count);
    let (_headers, at_body) = read_headers(bytes, at_headers, count)->0;
    lemma_bytes_sound(bytes, at_body);
    lemma_holds_at_concat(bytes, 0, a, b);
    lemma_holds_at_concat(bytes, 0, a + b, c);
    lemma_holds_at_concat(bytes, 0, a + b + c, d);
    lemma_holds_at_concat(bytes, 0, a + b + c + d, e);
    lemma_holds_at_concat(bytes, 0, a + b + c + d + e, f);
}

/// The decoder's answer, by reading: `bytes` is the frame of the response
/// that the reading finds, if the reading ends where `bytes` ends.
proof fn lemma_response_of(bytes: Seq<u8>)
    ensures
        response_of(bytes) == match read_response(bytes) {
            Some((response, end)) => if end == bytes.len() {
                Some(response)
            } else {
                None
            },
            None => None,
        },
{
    if exists|response: ResponseView| is_response_frame(bytes, response) {
        let response = choose|response: ResponseView| is_response_frame(bytes, response);
        lemma_holds_at_whole(bytes, response_wire(response));
        lemma_read_response_complete(bytes, response);
    } else if read_response(bytes) is Some {
        let (response, end) = read_response(bytes)->0;
        lemma_read_response_sound(bytes);
        if end == bytes.len() {
            lemma_holds_at_whole(bytes, response_wire(response));
            assert(is_response_frame(bytes, response));
        }
    }
}

/// Encodes a response.
pub fn encode_response(response: &Response) -> (res: Vec<u8>)
    ensures
        res@ == response_wire(response@),
        response_fits(response@),
{
    let ghost headers = headers_view(response.headers@);
    let mut out: Vec<u8> = Vec::new();
    out.push(PROTOCOL_VERSION);
    assert(out@ =~= seq![PROTOCOL_VERSION]);
    put_text(&mut out, response.status.as_str());
    put_text(&mut out, response.status_details.as_str());
    let count = response.headers.len();
    put_length(&mut out, count);
    let ghost head = out@;
    let mut i: usize = 0;
    assert(headers.take(0) =~= Seq::<HeaderView>::empty());
    assert(out@ =~= head + headers_wire(headers.take(0)));
    while i < count
        invariant
            i <= count,
            count == response.headers@.len(),
            headers == headers_view(response.headers@),
            out@ == head + headers_wire(headers.take(i as int)),
            headers_fit(headers.take(i as int)),
        decreases count - i,
    {
        let header = &response.headers[i];
        put_text(&mut out, header.name.as_str());
        put_text(&mut out, header.value.as_str());
        proof {
            let before = headers.take(i as int);
            let after = headers.take(i + 1);
            assert(headers[i as int] == header@);
            assert(after =~= before.push(header@));
            lemma_headers_wire_push(before, header@);
            assert(out@ =~= head + headers_wire(after));
            assert forall|j: int| 0 <= j < after.len() implies header_fits(#[trigger] after[j]) by {
                if j < i {
                    assert(after[j] == before[j]);
                }
            }
        }
        i = i + 1;
    }
    assert(headers.take(i as int) =~= headers);
    put_bytes(&mut out, response.body.as_slice());
    out
}

/// The headers read so far, followed by those that are still to be read.
spec fn read_on(
    done: Seq<HeaderView>,
    rest: Option<(Seq<HeaderView>, int)>,
) -> Option<(Seq<HeaderView>, int)> {
    match rest {
        Some((more, end)) => Some((done + more, end)),
        None => None,
    }
}

/// Reads `count` headers from `at` on.
fn take_headers(bytes: &[u8], at: usize, count: u64) -> (res: Option<(Vec<Header>, usize)>)
    requires
        at <= bytes@.len(),
    ensures
        match res {
            Some((headers, end)) => read_headers(bytes@, at as int, count as nat) == Some(
                (headers_view(headers@), end as int),
            ),
            None => read_headers(bytes@, at as int, count as nat) is None,
        },
{
    let mut headers: Vec<Header> = Vec::new();
    let mut pos: usize = at;
    let mut i: u64 = 0;
    assert(headers_view(headers@) =~= Seq::<HeaderView>::empty());
    assert(read_on(headers_view(headers@), read_headers(bytes@, at as int, count as nat))
        =~= read_headers(bytes@, at as int, count as nat)) by {
        let all = read_headers(bytes@, at as int, count as nat);
        if all is Some {
            let (found, _end) = all->0;
            assert(Seq::<HeaderView>::empty() + found =~= found);
        }
    }
    while i < count
        invariant
            i <= count,
            pos <= bytes@.len(),
            read_headers(bytes@, at as int, count as nat) == read_on(
                headers_view(headers@),
                read_headers(bytes@, pos as int, (count - i) as nat),
            ),
        decreases count - i,
    {
        let ghost done = headers_view(headers@);
        let (name, mid) = match take_text(bytes, pos) {
            Some(found) => found,
            None => {
                return None;
            },
        };
        proof {
            lemma_text_sound(bytes@, pos as int);
        }
        let (value, next) = match take_text(bytes, mid) {
            Some(found) => found,
            None => {
                return None;
            },
        };
        proof {
            lemma_text_sound(bytes@, mid as int);
            let header = HeaderView { name: name@, value: value@ };
            assert(read_header(bytes@, pos as int) == Some((header, next as int)));
            let rest = read_headers(bytes@, next as int, (count - i - 1) as nat);
            if rest is Some {
                let (more, _end) = rest->0;
                assert(done + (seq![header] + more) =~= done.push(header) + more);
            }
        }
        headers.push(Header { name, value });
        assert(headers_view(headers@) =~= done.push(HeaderView { name: name@, value: value@ }));
        pos = next;
        i = i + 1;
    }
    assert(headers_view(headers@) + Seq::<HeaderView>::empty() =~= headers_view(headers@));
    Some((headers, pos))
}

/// Decodes a response.
///
/// Fails with `UnsupportedVersion` when the first byte is another version,
/// and with `MalformedFrame` on every other input that is not the frame of
/// a response: one whose declared lengths do not match the bytes that are
/// there, whose texts are not UTF-8, that ends early or goes on too long.
pub fn decode_response(bytes: &[u8]) -> (res: Result<Response, Error>)
    ensures
        match res {
            Ok(response) => response_of(bytes@) == Some(response@),
            Err(e) => response_of(bytes@) is None && e@ == plain_error(frame_fault(bytes@)),
        },
{
    proof {
        lemma_response_of(bytes@);
    }
    if bytes.len() < 1 || bytes[0] != PROTOCOL_VERSION {
        return Err(refuse(bytes));
    }
    let (status, at_details) = match take_text(bytes, 1) {
        Some(found) => found,
        None => {
            return Err(refuse(bytes));
        },
    };
    proof {
        lemma_text_sound(bytes@, 1);
    }
    let (status_details, at_count) = match take_text(bytes, at_details) {
        Some(found) => found,
        None => {
            return Err(refuse(bytes));
        },
    };
    proof {
        lemma_text_sound(bytes@, at_details as int);
    }
    let (count, at_headers) = match take_length(bytes, at_count) {
        Some(found) => found,
        None => {
            return Err(refuse(bytes));
        },
    };
    proof {
        lemma_length_sound(bytes@, at_count as int);
        lemma_length_wire_len(count as nat);
    }
    let (headers, at_body) = match take_headers(bytes, at_headers, count) {
        Some(found) => found,
        None => {
            return Err(refuse(bytes));
        },
    };
    proof {
        lemma_headers_sound(bytes@, at_headers as int, count as nat);
    }
    let (body, end) = match take_bytes(bytes, at_body) {
        Some(found) => found,
        None => {
            return Err(refuse(bytes));
        },
    };
    if end != bytes.len() {
        return Err(refuse(bytes));
    }
    Ok(Response { status, status_details, headers, body })
}

/// Round trip: the frame of a response decodes to that response, field for
/// field, the empty list of headers and the empty body included.
pub proof fn lemma_response_round_trip(response: ResponseView)
    requires
        response_fits(response),
    ensures
        response_of(response_wire(response)) == Some(response),
{
    let bytes = response_wire(response);
    lemma_response_of(bytes);
    lemma_holds_at_whole(bytes, bytes);
    lemma_read_response_complete(bytes, response);
}

/// What decodes as a response is the frame of the response it gave.
pub proof fn lemma_response_wire_of_response(bytes: Seq<u8>)
    requires
        response_of(bytes) is Some,
    ensures
        is_response_frame(bytes, response_of(bytes)->0),
{
}

/// The frame of a response, cut short or added to, is no frame of a
/// response, and it is refused for its form.
pub proof fn lemma_response_resized_is_malformed(response: ResponseView, bytes: Seq<u8>)
    requires
        response_fits(response),
        bytes.len() != response_wire(response).len(),
        bytes.is_prefix_of(response_wire(response)) || response_wire(response).is_prefix_of(bytes),
    ensures
        response_of(bytes) is None,
        frame_fault(bytes) == ErrorKind::MalformedFrame,
{
    let whole = response_wire(response);
    assert(whole[0] == PROTOCOL_VERSION);
    if bytes.len() > 0 {
        assert(bytes[0] == whole[0]);
    }
    lemma_response_of(bytes);
    if read_response(bytes) is Some {
        let (other, end) = read_response(bytes)->0;
        lemma_read_response_sound(bytes);
        lemma_holds_at_whole(whole, whole);
        if bytes.is_prefix_of(whole) {
            lemma_holds_at_prefix(bytes, whole, response_wire(other));
            lemma_read_response_complete(whole, other);
            lemma_read_response_complete(whole, response);
        } else {
            lemma_holds_at_prefix(whole, bytes, whole);
            lemma_read_response_complete(bytes, response);
        }
    }
}

} // verus!
