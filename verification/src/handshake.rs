//! The handshake: from a URL to an established session.
//!
//! A handshake is a state machine with one instance per connection attempt.
//! It begins resolving, exchanges public keys, authenticates the peer, and
//! ends established or closed. The driver reports what the transport did;
//! each report moves the machine on and says what to do next. A report that
//! the current state does not expect closes the handshake. Only a passed
//! authentication establishes a session, and a closed handshake stays closed.

use vstd::prelude::*;
use vstd::string::*;
use crate::codec::{decode_handshake, encode_handshake, frame_fault, handshake_key, handshake_wire};
use crate::error::{plain_error, Error, ErrorKind, ErrorView};
use crate::identity::{Identity, IdentityView, PeerIdentity};
use crate::session::{fresh_session, Session, SessionView};
use crate::url::{is_url, url_parts, Url};

verus! {

/// Where a handshake stands.
#[derive(Clone, Copy, Debug, PartialEq, Eq, Structural)]
pub enum SessionState {
    /// The URL is parsed; the transport is being opened.
    Resolving,
    /// Our public key is on its way; the peer's is awaited.
    Exchanging,
    /// The peer's key is here and is being checked.
    Authenticating,
    /// The session is ready for requests.
    Established,
    /// The attempt is over. Nothing more is permitted.
    Closed,
}

#[derive(Debug)]
enum Stage {
    Resolving { local: Identity, expected_peer: Option<String> },
    Exchanging { local: Identity, expected_peer: Option<String> },
    Authenticating { local: Identity, expected_peer: Option<String>, peer_key: [u8; 32] },
    Established { session: Session },
    Closed,
}

/// A connection attempt in progress.
#[derive(Debug)]
pub struct Handshake {
    stage: Stage,
}

/// The mathematical value of a [`Handshake`]: its state, and what that state holds.
pub enum HandshakeView {
    Resolving { local: IdentityView, expected_peer: Option<Seq<char>> },
    Exchanging { local: IdentityView, expected_peer: Option<Seq<char>> },
    Authenticating { local: IdentityView, expected_peer: Option<Seq<char>>, peer_key: Seq<u8> },
    Established { session: SessionView },
    Closed,
}

/// The value of an optional node identifier.
pub open spec fn id_view(id: Option<String>) -> Option<Seq<char>> {
    match id {
        Some(s) => Some(s@),
        None => None,
    }
}

impl View for Handshake {
    type V = HandshakeView;

    closed spec fn view(&self) -> HandshakeView {
        match self.stage {
            Stage::Resolving { local, expected_peer } => HandshakeView::Resolving {
                local: local@,
                expected_peer: id_view(expected_peer),
            },
            Stage::Exchanging { local, expected_peer } => HandshakeView::Exchanging {
                local: local@,
                expected_peer: id_view(expected_peer),
            },
            Stage::Authenticating { local, expected_peer, peer_key } => {
                HandshakeView::Authenticating {
                    local: local@,
                    expected_peer: id_view(expected_peer),
                    peer_key: peer_key@,
                }
            },
            Stage::Established { session } => HandshakeView::Established { session: session@ },
            Stage::Closed => HandshakeView::Closed,
        }
    }
}

/// The state of a handshake, without what it holds.
pub open spec fn state_of(h: HandshakeView) -> SessionState {
    match h {
        HandshakeView::Resolving { .. } => SessionState::Resolving,
        HandshakeView::Exchanging { .. } => SessionState::Exchanging,
        HandshakeView::Authenticating { .. } => SessionState::Authenticating,
        HandshakeView::Established { .. } => SessionState::Established,
        HandshakeView::Closed => SessionState::Closed,
    }
}

/// The handshake after the transport has been opened.
pub open spec fn after_opened(h: HandshakeView) -> HandshakeView {
    match h {
        HandshakeView::Resolving { local, expected_peer } => HandshakeView::Exchanging {
            local,
            expected_peer,
        },
        _ => HandshakeView::Closed,
    }
}

/// Why the peer's message does not move the handshake on, if it does not.
pub open spec fn received_fault(h: HandshakeView, frame: Seq<u8>) -> Option<ErrorKind> {
    match h {
        HandshakeView::Exchanging { .. } => if handshake_key(frame) is None {
            Some(frame_fault(frame))
        } else {
            None
        },
        _ => Some(ErrorKind::SessionClosed),
    }
}

/// The handshake after the peer's message has arrived.
pub open spec fn after_received(h: HandshakeView, frame: Seq<u8>) -> HandshakeView {
    match h {
        HandshakeView::Exchanging { local, expected_peer } => match handshake_key(frame) {
            Some(peer_key) => HandshakeView::Authenticating { local, expected_peer, peer_key },
            None => HandshakeView::Closed,
        },
        _ => HandshakeView::Closed,
    }
}

/// Why the peer does not pass, if it does not. `derived` is the node
/// identifier of the peer's key, absent when the key is no valid key.
pub open spec fn authenticate_fault(h: HandshakeView, derived: Option<Seq<char>>) -> Option<
    ErrorKind,
> {
    match h {
        HandshakeView::Authenticating { expected_peer, .. } => match derived {
            None => Some(ErrorKind::InvalidPeerKey),
            Some(id) => if expected_peer is Some && expected_peer->0 != id {
                Some(ErrorKind::IdentityMismatch)
            } else {
                None
            },
        },
        _ => Some(ErrorKind::SessionClosed),
    }
}

/// The handshake after the peer has been checked: established with fresh
/// counters when it passed, closed when it did not.
pub open spec fn after_authenticate(h: HandshakeView, derived: Option<Seq<char>>) -> HandshakeView {
    match h {
        HandshakeView::Authenticating { local, expected_peer, peer_key } => {
            if authenticate_fault(h, derived) is None {
                HandshakeView::Established {
                    session: fresh_session(
                        local,
                        IdentityView { public_key: peer_key, node_id: derived->0 },
                    ),
                }
            } else {
                HandshakeView::Closed
            }
        },
        _ => HandshakeView::Closed,
    }
}

impl Handshake {
    /// Begins a connection attempt to `url` as `local`. Where `expected_peer`
    /// is given, only a peer with that node identifier will do.
    ///
    /// Yields the parsed URL, whose host and port the driver dials next.
    /// Fails with `AddressError`, and closed, where `url` names no peer.
    pub fn start(local: Identity, expected_peer: Option<String>, url: &str) -> (res: (
        Handshake,
        Result<Url, Error>,
    ))
        ensures
            match res.1 {
                Ok(parsed) => {
                    &&& is_url(url@)
                    &&& parsed@ == url_parts(url@)
                    &&& res.0@ == (HandshakeView::Resolving {
                        local: local@,
                        expected_peer: id_view(expected_peer),
                    })
                },
                Err(e) => {
                    &&& !is_url(url@)
                    &&& e@ == plain_error(ErrorKind::AddressError)
                    &&& res.0@ == HandshakeView::Closed
                },
            },
    {
        match Url::parse(url) {
            Ok(parsed) => (Handshake { stage: Stage::Resolving { local, expected_peer } }, Ok(parsed)),
            Err(e) => (Handshake { stage: Stage::Closed }, Err(e)),
        }
    }

    /// Where the handshake stands.
    pub fn state(&self) -> (res: SessionState)
        ensures
            res == state_of(self@),
    {
        match &self.stage {
            Stage::Resolving { .. } => SessionState::Resolving,
            Stage::Exchanging { .. } => SessionState::Exchanging,
            Stage::Authenticating { .. } => SessionState::Authenticating,
            Stage::Established { .. } => SessionState::Established,
            Stage::Closed => SessionState::Closed,
        }
    }

    /// Reports that the transport is open.
    ///
    /// Yields the handshake message to send, which offers our public key.
    /// Fails with `SessionClosed`, and closes, unless the handshake was resolving.
    pub fn transport_opened(self) -> (res: (Handshake, Result<Vec<u8>, Error>))
        ensures
            res.0@ == after_opened(self@),
            match res.1 {
                Ok(frame) => self@ matches HandshakeView::Resolving { local, .. } && frame@
                    == handshake_wire(local.public_key),
                Err(e) => !(self@ is Resolving) && e@ == plain_error(ErrorKind::SessionClosed),
            },
    {
        match self.stage {
            Stage::Resolving { local, expected_peer } => {
                let frame = encode_handshake(&local.public_key);
                (Handshake { stage: Stage::Exchanging { local, expected_peer } }, Ok(frame))
            },
            _ => (Handshake { stage: Stage::Closed }, Err(Error::new(ErrorKind::SessionClosed))),
        }
    }

    /// Reports that the transport failed, with the transport's own text.
    /// Closes the handshake and yields a `TransportError` that keeps the text.
    pub fn transport_failed(self, text: String) -> (res: (Handshake, Error))
        ensures
            res.0@ == HandshakeView::Closed,
            res.1@ == (ErrorView { kind: ErrorKind::TransportError, message: text@ }),
    {
        (Handshake { stage: Stage::Closed }, Error::with_message(ErrorKind::TransportError, text))
    }

    /// Reports that a deadline passed. Closes the handshake and yields a `Timeout`.
    pub fn timed_out(self) -> (res: (Handshake, Error))
        ensures
            res.0@ == HandshakeView::Closed,
            res.1@ == plain_error(ErrorKind::Timeout),
    {
        (Handshake { stage: Stage::Closed }, Error::new(ErrorKind::Timeout))
    }

    /// Takes the peer's handshake message.
    ///
    /// Yields the public key that the peer offers, for the driver to check
    /// and to derive the peer's node identifier from. Fails, and closes,
    /// with `MalformedFrame` or `UnsupportedVersion` where the message is no
    /// handshake message, and with `SessionClosed` unless the handshake was
    /// exchanging.
    pub fn received(self, frame: &[u8]) -> (res: (Handshake, Result<[u8; 32], Error>))
        ensures
            res.0@ == after_received(self@, frame@),
            match res.1 {
                Ok(key) => received_fault(self@, frame@) is None && handshake_key(frame@) == Some(
                    key@,
                ),
                Err(e) => received_fault(self@, frame@) is Some && e@ == plain_error(
                    received_fault(self@, frame@)->0,
                ),
            },
    {
        match self.stage {
            Stage::Exchanging { local, expected_peer } => match decode_handshake(frame) {
                Ok(peer_key) => (
                    Handshake { stage: Stage::Authenticating { local, expected_peer, peer_key } },
                    Ok(peer_key),
                ),
                Err(e) => (Handshake { stage: Stage::Closed }, Err(e)),
            },
            _ => (Handshake { stage: Stage::Closed }, Err(Error::new(ErrorKind::SessionClosed))),
        }
    }

    /// Takes the verdict on the peer's key: the node identifier derived
    /// from it, or nothing where the key is no valid key.
    ///
    /// Establishes the session when the key is valid and the identifier is
    /// the expected one, or none was expected. Fails, and closes, with
    /// `InvalidPeerKey` on an invalid key, with `IdentityMismatch` on another
    /// identifier than the expected one, and with `SessionClosed` unless
    /// the handshake was authenticating.
    pub fn authenticate(self, derived: Option<String>) -> (res: (Handshake, Result<(), Error>))
        ensures
            res.0@ == after_authenticate(self@, id_view(derived)),
            match res.1 {
                Ok(_) => authenticate_fault(self@, id_view(derived)) is None,
                Err(e) => authenticate_fault(self@, id_view(derived)) is Some && e@ == plain_error(
                    authenticate_fault(self@, id_view(derived))->0,
                ),
            },
    {
        match self.stage {
            Stage::Authenticating { local, expected_peer, peer_key } => {
                let node_id = match derived {
                    Some(id) => id,
                    None => {
                        return (
                            Handshake { stage: Stage::Closed },
                            Err(Error::new(ErrorKind::InvalidPeerKey)),
                        );
                    },
                };
                let matches_expected = match &expected_peer {
                    Some(expected) => *expected == node_id,
                    None => true,
                };
                if !matches_expected {
                    return (
                        Handshake { stage: Stage::Closed },
                        Err(Error::new(ErrorKind::IdentityMismatch)),
                    );
                }
                let peer = PeerIdentity { public_key: peer_key, node_id };
                (
                    Handshake { stage: Stage::Established { session: Session::establish(local, peer) } },
                    Ok(()),
                )
            },
            _ => (Handshake { stage: Stage::Closed }, Err(Error::new(ErrorKind::SessionClosed))),
        }
    }

    /// Gives the attempt up.
    pub fn close(self) -> (res: Handshake)
        ensures
            res@ == HandshakeView::Closed,
    {
        Handshake { stage: Stage::Closed }
    }

    /// Ends the handshake and hands out the session it established.
    /// Fails with `SessionClosed` where none was established.
    pub fn finish(self) -> (res: Result<Session, Error>)
        ensures
            match res {
                Ok(session) => self@ == (HandshakeView::Established { session: session@ }),
                Err(e) => !(self@ is Established) && e@ == plain_error(ErrorKind::SessionClosed),
            },
    {
        match self.stage {
            Stage::Established { session } => Ok(session),
            _ => Err(Error::new(ErrorKind::SessionClosed)),
        }
    }
}

/// Authentication: a peer whose node identifier is not the expected one
/// fails with `IdentityMismatch`, and no session is established.
pub proof fn lemma_mismatch_never_establishes(
    h: HandshakeView,
    expected: Seq<char>,
    derived: Seq<char>,
)
    requires
        h matches HandshakeView::Authenticating { expected_peer, .. } && expected_peer == Some(
            expected,
        ),
        expected != derived,
    ensures
        authenticate_fault(h, Some(derived)) == Some(ErrorKind::IdentityMismatch),
        after_authenticate(h, Some(derived)) == HandshakeView::Closed,
{
}

/// A session is established by a passed authentication and by nothing else.
pub proof fn lemma_established_only_by_authentication(
    h: HandshakeView,
    frame: Seq<u8>,
    derived: Option<Seq<char>>,
)
    ensures
        !(after_opened(h) is Established),
        !(after_received(h, frame) is Established),
        after_authenticate(h, derived) is Established <==> h is Authenticating
            && authenticate_fault(h, derived) is None,
{
}

/// A closed handshake stays closed, and every report to it fails with `SessionClosed`.
pub proof fn lemma_closed_handshake_is_final(frame: Seq<u8>, derived: Option<Seq<char>>)
    ensures
        after_opened(HandshakeView::Closed) == HandshakeView::Closed,
        after_received(HandshakeView::Closed, frame) == HandshakeView::Closed,
        after_authenticate(HandshakeView::Closed, derived) == HandshakeView::Closed,
        received_fault(HandshakeView::Closed, frame) == Some(ErrorKind::SessionClosed),
        authenticate_fault(HandshakeView::Closed, derived) == Some(ErrorKind::SessionClosed),
{
}

} // verus!
