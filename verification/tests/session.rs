use web_fetch::client::Client;
use web_fetch::codec::{decode_request, encode_handshake, encode_response};
use web_fetch::error::ErrorKind;
use web_fetch::handshake::{Handshake, SessionState};
use web_fetch::identity::Identity;
use web_fetch::message::{Header, Method, Response};
use web_fetch::session::{receive_response, send_get, Reply, Session};

fn local() -> Identity {
    Identity { public_key: [1u8; 32], node_id: "local-node".to_string() }
}

fn peer_key() -> [u8; 32] {
    let mut key = [0u8; 32];
    for (i, byte) in key.iter_mut().enumerate() {
        *byte = i as u8;
    }
    key
}

fn served() -> Response {
    Response {
        status: "ok".to_string(),
        status_details: String::new(),
        headers: vec![Header { name: "content-type".to_string(), value: "text/plain".to_string() }],
        body: b"served content".to_vec(),
    }
}

/// What a peer puts on the wire as its frame number `sequence`.
fn peer_frame(sequence: u64, response: &Response) -> Vec<u8> {
    let mut frame = sequence.to_le_bytes().to_vec();
    frame.extend_from_slice(&encode_response(response));
    frame
}

fn authenticating(expected: Option<&str>) -> Handshake {
    let (handshake, url) =
        Handshake::start(local(), expected.map(str::to_string), "proto://example.test/resource");
    assert!(url.is_ok());
    let (handshake, ours) = handshake.transport_opened();
    assert!(ours.is_ok());
    let (handshake, key) = handshake.received(&encode_handshake(&peer_key()));
    assert_eq!(key.unwrap(), peer_key());
    handshake
}

fn established() -> Session {
    let (handshake, outcome) = authenticating(None).authenticate(Some("peer-node".to_string()));
    outcome.unwrap();
    handshake.finish().unwrap()
}

#[test]
fn handshake_walks_through_its_states() {
    let (handshake, url) =
        Handshake::start(local(), None, "proto://example.test:4433/resource");
    let url = url.unwrap();
    assert_eq!(url.host, "example.test");
    assert_eq!(url.port, Some(4433));
    assert_eq!(url.path, "/resource");
    assert_eq!(handshake.state(), SessionState::Resolving);

    let (handshake, ours) = handshake.transport_opened();
    assert_eq!(ours.unwrap(), encode_handshake(&local().public_key));
    assert_eq!(handshake.state(), SessionState::Exchanging);

    let (handshake, key) = handshake.received(&encode_handshake(&peer_key()));
    assert_eq!(key.unwrap(), peer_key());
    assert_eq!(handshake.state(), SessionState::Authenticating);

    let (handshake, outcome) = handshake.authenticate(Some("peer-node".to_string()));
    assert_eq!(outcome, Ok(()));
    assert_eq!(handshake.state(), SessionState::Established);

    let session = handshake.finish().unwrap();
    assert!(session.is_open());
    assert_eq!(session.node_id(), "local-node");
    assert_eq!(session.peer_node_id(), "peer-node");
    assert_eq!(session.peer_identity().public_key, peer_key());
    assert_eq!(session.peer_identity().node_id, "peer-node");
    assert_eq!(session.sent(), 0);
    assert_eq!(session.received(), 0);
}

#[test]
fn happy_path_connect_then_get() {
    let (handshake, url) = Client::connect(local(), None, "proto://example.test/resource");
    let url = url.unwrap();
    let (handshake, _ours) = handshake.transport_opened();
    let (handshake, _key) = handshake.received(&encode_handshake(&peer_key()));
    let (handshake, outcome) = handshake.authenticate(Some("peer-node".to_string()));
    outcome.unwrap();
    let mut client = Client::connected(handshake).unwrap();

    let request = client.get(&url.path).unwrap();
    assert_eq!(&request[..8], &0u64.to_le_bytes());
    let asked = decode_request(&request[8..]).unwrap();
    assert_eq!(asked.method, Method::Get);
    assert_eq!(asked.path, "/resource");

    let response = client.answered(Reply::Frame(peer_frame(0, &served()))).unwrap();
    assert_eq!(response.status, "ok");
    assert_eq!(response.headers.len(), 1);
    assert_eq!(response.body, b"served content");
    assert_eq!(response, served());

    assert_eq!(client.node_id(), "local-node");
    assert_eq!(client.peer_node_id(), "peer-node");
    assert_eq!(client.peer_identity().public_key, peer_key());
    assert!(client.is_open());
}

#[test]
fn expected_peer_that_matches_is_accepted() {
    let (handshake, outcome) =
        authenticating(Some("peer-node")).authenticate(Some("peer-node".to_string()));
    assert_eq!(outcome, Ok(()));
    assert_eq!(handshake.state(), SessionState::Established);
}

#[test]
fn peer_mismatch_fails_with_identity_mismatch() {
    let (handshake, outcome) =
        authenticating(Some("expected-node")).authenticate(Some("another-node".to_string()));
    let err = outcome.unwrap_err();
    assert_eq!(err.kind, ErrorKind::IdentityMismatch);
    assert_eq!(err.message, "peer identity mismatch");
    assert_eq!(handshake.state(), SessionState::Closed);
    assert_eq!(handshake.finish().unwrap_err().kind, ErrorKind::SessionClosed);
}

#[test]
fn peer_mismatch_yields_no_client() {
    let (handshake, outcome) =
        authenticating(Some("expected-node")).authenticate(Some("expected-nodf".to_string()));
    assert_eq!(outcome.unwrap_err().kind, ErrorKind::IdentityMismatch);
    assert_eq!(Client::connected(handshake).unwrap_err().kind, ErrorKind::SessionClosed);
}

#[test]
fn invalid_peer_key_fails_before_the_identifier_is_looked_at() {
    let (handshake, outcome) = authenticating(Some("peer-node")).authenticate(None);
    assert_eq!(outcome.unwrap_err().kind, ErrorKind::InvalidPeerKey);
    assert_eq!(handshake.state(), SessionState::Closed);
    let (handshake, outcome) = authenticating(None).authenticate(None);
    assert_eq!(outcome.unwrap_err().kind, ErrorKind::InvalidPeerKey);
    assert_eq!(handshake.state(), SessionState::Closed);
}

#[test]
fn bad_url_fails_with_address_error() {
    let (handshake, url) = Handshake::start(local(), None, "example.test/resource");
    assert_eq!(url.unwrap_err().kind, ErrorKind::AddressError);
    assert_eq!(handshake.state(), SessionState::Closed);
}

#[test]
fn connection_refused_fails_with_transport_error() {
    let (handshake, _url) = Handshake::start(local(), None, "proto://example.test/resource");
    let (handshake, err) = handshake.transport_failed("connection refused".to_string());
    assert_eq!(err.kind, ErrorKind::TransportError);
    assert_eq!(err.message, "connection refused");
    assert_eq!(handshake.state(), SessionState::Closed);
}

#[test]
fn connect_deadline_fails_with_timeout() {
    let (handshake, _url) = Handshake::start(local(), None, "proto://example.test/resource");
    let (handshake, err) = handshake.timed_out();
    assert_eq!(err.kind, ErrorKind::Timeout);
    assert_eq!(err.message, "timed out");
    assert_eq!(handshake.state(), SessionState::Closed);
}

#[test]
fn malformed_peer_handshake_closes() {
    let (handshake, _url) = Handshake::start(local(), None, "proto://example.test/");
    let (handshake, _ours) = handshake.transport_opened();
    let frame = encode_handshake(&peer_key());
    let (handshake, key) = handshake.received(&frame[..20]);
    assert_eq!(key.unwrap_err().kind, ErrorKind::MalformedFrame);
    assert_eq!(handshake.state(), SessionState::Closed);
}

#[test]
fn peer_handshake_of_another_version_closes() {
    let (handshake, _url) = Handshake::start(local(), None, "proto://example.test/");
    let (handshake, _ours) = handshake.transport_opened();
    let mut frame = encode_handshake(&peer_key());
    frame[0] = 7;
    let (handshake, key) = handshake.received(&frame);
    assert_eq!(key.unwrap_err().kind, ErrorKind::UnsupportedVersion);
    assert_eq!(handshake.state(), SessionState::Closed);
}

#[test]
fn reports_out_of_turn_close_the_handshake() {
    // A peer message while still resolving.
    let (handshake, _url) = Handshake::start(local(), None, "proto://example.test/");
    let (handshake, key) = handshake.received(&encode_handshake(&peer_key()));
    assert_eq!(key.unwrap_err().kind, ErrorKind::SessionClosed);
    assert_eq!(handshake.state(), SessionState::Closed);

    // A verdict before any key has arrived.
    let (handshake, _url) = Handshake::start(local(), None, "proto://example.test/");
    let (handshake, _ours) = handshake.transport_opened();
    let (handshake, outcome) = handshake.authenticate(Some("peer-node".to_string()));
    assert_eq!(outcome.unwrap_err().kind, ErrorKind::SessionClosed);
    assert_eq!(handshake.state(), SessionState::Closed);

    // The transport opening twice.
    let (handshake, _url) = Handshake::start(local(), None, "proto://example.test/");
    let (handshake, _ours) = handshake.transport_opened();
    let (handshake, again) = handshake.transport_opened();
    assert_eq!(again.unwrap_err().kind, ErrorKind::SessionClosed);
    assert_eq!(handshake.state(), SessionState::Closed);

    // Finishing before the end.
    let unfinished = authenticating(None);
    assert_eq!(unfinished.finish().unwrap_err().kind, ErrorKind::SessionClosed);
}

#[test]
fn closed_handshake_stays_closed() {
    let (handshake, _url) = Handshake::start(local(), None, "proto://example.test/");
    let handshake = handshake.close();
    assert_eq!(handshake.state(), SessionState::Closed);
    let (handshake, opened) = handshake.transport_opened();
    assert_eq!(opened.unwrap_err().kind, ErrorKind::SessionClosed);
    let (handshake, key) = handshake.received(&encode_handshake(&peer_key()));
    assert_eq!(key.unwrap_err().kind, ErrorKind::SessionClosed);
    let (handshake, outcome) = handshake.authenticate(Some("peer-node".to_string()));
    assert_eq!(outcome.unwrap_err().kind, ErrorKind::SessionClosed);
    assert_eq!(handshake.state(), SessionState::Closed);
    assert_eq!(handshake.finish().unwrap_err().kind, ErrorKind::SessionClosed);
}

#[test]
fn get_advances_each_counter_by_exactly_one() {
    let mut session = established();
    send_get(&mut session, "/resource").unwrap();
    assert_eq!((session.sent(), session.received()), (1, 0));
    receive_response(&mut session, Reply::Frame(peer_frame(0, &served()))).unwrap();
    assert_eq!((session.sent(), session.received()), (1, 1));

    let second = send_get(&mut session, "/again").unwrap();
    assert_eq!(&second[..8], &1u64.to_le_bytes());
    assert_eq!((session.sent(), session.received()), (2, 1));
    receive_response(&mut session, Reply::Frame(peer_frame(1, &served()))).unwrap();
    assert_eq!((session.sent(), session.received()), (2, 2));
}

#[test]
fn sealed_frames_carry_their_number_and_payload() {
    let mut session = established();
    assert_eq!(session.seal(b"abc").unwrap(), [&0u64.to_le_bytes()[..], b"abc"].concat());
    assert_eq!(session.seal(b"").unwrap(), 1u64.to_le_bytes().to_vec());
    assert_eq!(session.seal(b"xyz").unwrap(), [&2u64.to_le_bytes()[..], b"xyz"].concat());
    assert_eq!(session.sent(), 3);
}

#[test]
fn unseal_hands_out_the_payload_in_sequence() {
    let mut session = established();
    assert_eq!(session.unseal(&[&0u64.to_le_bytes()[..], b"first"].concat()).unwrap(), b"first");
    assert_eq!(session.unseal(&[&1u64.to_le_bytes()[..], b"second"].concat()).unwrap(), b"second");
    assert_eq!(session.unseal(&2u64.to_le_bytes()).unwrap(), b"");
    assert_eq!(session.received(), 3);
}

#[test]
fn replayed_frame_is_rejected() {
    let mut session = established();
    send_get(&mut session, "/resource").unwrap();
    let frame = peer_frame(0, &served());
    assert_eq!(receive_response(&mut session, Reply::Frame(frame.clone())), Ok(served()));

    let err = receive_response(&mut session, Reply::Frame(frame.clone())).unwrap_err();
    assert_eq!(err.kind, ErrorKind::ReplayOrOrderingError);
    assert_eq!(err.message, "frame out of sequence");
    // The refusal changed nothing: the next frame in sequence is still accepted.
    assert!(session.is_open());
    assert_eq!(session.received(), 1);
    assert_eq!(receive_response(&mut session, Reply::Frame(peer_frame(1, &served()))), Ok(served()));
    // And the first frame is refused however often it comes back.
    assert_eq!(session.unseal(&frame).unwrap_err().kind, ErrorKind::ReplayOrOrderingError);
    assert_eq!(session.received(), 2);
}

#[test]
fn frame_ahead_of_sequence_is_rejected() {
    let mut session = established();
    let err = receive_response(&mut session, Reply::Frame(peer_frame(1, &served()))).unwrap_err();
    assert_eq!(err.kind, ErrorKind::ReplayOrOrderingError);
    assert!(session.is_open());
    assert_eq!(session.received(), 0);
    assert_eq!(receive_response(&mut session, Reply::Frame(peer_frame(0, &served()))), Ok(served()));
}

#[test]
fn frame_too_short_for_a_number_closes_the_session() {
    let mut session = established();
    let err = session.unseal(&[0, 0, 0]).unwrap_err();
    assert_eq!(err.kind, ErrorKind::MalformedFrame);
    assert!(!session.is_open());
}

#[test]
fn frame_in_sequence_that_carries_no_response_closes_the_session() {
    let mut session = established();
    let mut frame = peer_frame(0, &served());
    frame.truncate(frame.len() - 1);
    let err = receive_response(&mut session, Reply::Frame(frame)).unwrap_err();
    assert_eq!(err.kind, ErrorKind::MalformedFrame);
    assert!(!session.is_open());

    let mut session = established();
    let mut frame = peer_frame(0, &served());
    frame[8] = 9;
    let err = receive_response(&mut session, Reply::Frame(frame)).unwrap_err();
    assert_eq!(err.kind, ErrorKind::UnsupportedVersion);
    assert!(!session.is_open());
}

#[test]
fn dropped_transport_fails_with_transport_error_and_closes() {
    let mut session = established();
    send_get(&mut session, "/resource").unwrap();
    let err =
        receive_response(&mut session, Reply::Dropped("connection reset".to_string())).unwrap_err();
    assert_eq!(err.kind, ErrorKind::TransportError);
    assert_eq!(err.message, "connection reset");
    assert!(!session.is_open());
}

#[test]
fn missing_response_fails_with_timeout_and_closes() {
    let mut session = established();
    send_get(&mut session, "/resource").unwrap();
    let err = receive_response(&mut session, Reply::TimedOut).unwrap_err();
    assert_eq!(err.kind, ErrorKind::Timeout);
    assert!(!session.is_open());
}

#[test]
fn closed_session_fails_every_use_with_session_closed() {
    let mut session = established();
    session.close();
    assert!(!session.is_open());
    assert_eq!(send_get(&mut session, "/").unwrap_err().kind, ErrorKind::SessionClosed);
    assert_eq!(session.seal(b"x").unwrap_err().kind, ErrorKind::SessionClosed);
    assert_eq!(
        session.unseal(&peer_frame(0, &served())).unwrap_err().kind,
        ErrorKind::SessionClosed
    );
    for reply in [
        Reply::Frame(peer_frame(0, &served())),
        Reply::Dropped("late".to_string()),
        Reply::TimedOut,
    ] {
        let err = receive_response(&mut session, reply).unwrap_err();
        assert_eq!(err.kind, ErrorKind::SessionClosed);
        assert_eq!(err.message, "session closed");
    }
    assert_eq!((session.sent(), session.received()), (0, 0));
    // The identities outlive the connection.
    assert_eq!(session.node_id(), "local-node");
    assert_eq!(session.peer_node_id(), "peer-node");
}

#[test]
fn closed_client_fails_every_use_with_session_closed() {
    let (handshake, outcome) = authenticating(None).authenticate(Some("peer-node".to_string()));
    outcome.unwrap();
    let mut client = Client::connected(handshake).unwrap();
    client.close();
    assert_eq!(client.get("/").unwrap_err().kind, ErrorKind::SessionClosed);
    assert_eq!(client.answered(Reply::TimedOut).unwrap_err().kind, ErrorKind::SessionClosed);
    assert_eq!(client.peer_node_id(), "peer-node");
}
