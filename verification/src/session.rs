//! An established session: two identities and a sequence counter for each
//! direction.
//!
//! Every frame that crosses an established session is sealed: it carries the
//! number of frames sent before it in its direction. The receiver accepts a
//! frame only if that number is the one it expects next, so a frame that is
//! replayed, dropped or reordered is noticed. Keeping the frames secret and
//! authentic is the transport's part; keeping them in order is done here.

use vstd::prelude::*;
use vstd::slice::{slice_subrange, slice_to_vec};
use vstd::string::*;
use crate::codec::{decode_response, encode_request, frame_fault, request_wire, response_of};
use crate::error::{plain_error, Error, ErrorKind, ErrorView};
use crate::identity::{Identity, IdentityView, PeerIdentity};
use crate::message::{Method, Response};
use crate::wire::{
    lemma_length_complete, lemma_length_wire_len, length_wire, put_length_u64, put_raw,
    read_length, take_length,
};

verus! {

/// An established channel between the local identity and a peer.
#[derive(Debug)]
pub struct Session {
    local: Identity,
    peer: PeerIdentity,
    sent: u64,
    received: u64,
    open: bool,
}

/// The mathematical value of a [`Session`].
pub struct SessionView {
    pub local: IdentityView,
    pub peer: IdentityView,
    /// How many frames have been sealed.
    pub sent: nat,
    /// How many frames have been accepted.
    pub received: nat,
    pub open: bool,
}

impl View for Session {
    type V = SessionView;

    closed spec fn view(&self) -> SessionView {
        SessionView {
            local: self.local@,
            peer: self.peer@,
            sent: self.sent as nat,
            received: self.received as nat,
            open: self.open,
        }
    }
}

/// A session that has just been established between `local` and `peer`.
pub open spec fn fresh_session(local: IdentityView, peer: IdentityView) -> SessionView {
    SessionView { local, peer, sent: 0, received: 0, open: true }
}

/// The session `s`, closed.
pub open spec fn closed(s: SessionView) -> SessionView {
    SessionView { open: false, ..s }
}

/// The largest sequence number a frame can carry.
pub open spec fn last_sequence() -> nat {
    u64::MAX as nat
}

/// The sealed form of `payload` as frame number `sequence`.
pub open spec fn sealed(sequence: nat, payload: Seq<u8>) -> Seq<u8> {
    length_wire(sequence) + payload
}

/// The sequence number that a sealed frame carries, if it is long enough to carry one.
pub open spec fn frame_sequence(frame: Seq<u8>) -> Option<nat> {
    match read_length(frame, 0) {
        Some((n, _)) => Some(n),
        None => None,
    }
}

/// What a sealed frame carries after its sequence number.
pub open spec fn frame_payload(frame: Seq<u8>) -> Seq<u8> {
    frame.subrange(8, frame.len() as int)
}

/// Why `s` cannot seal another frame, if it cannot.
pub open spec fn seal_fault(s: SessionView) -> Option<ErrorKind> {
    if !s.open || s.sent >= last_sequence() {
        Some(ErrorKind::SessionClosed)
    } else {
        None
    }
}

/// The session after an attempt to seal a frame.
pub open spec fn after_seal(s: SessionView) -> SessionView {
    if !s.open {
        s
    } else if s.sent >= last_sequence() {
        closed(s)
    } else {
        SessionView { sent: s.sent + 1, ..s }
    }
}

/// Why `s` does not accept `frame`, if it does not.
pub open spec fn unseal_fault(s: SessionView, frame: Seq<u8>) -> Option<ErrorKind> {
    if !s.open || s.received >= last_sequence() {
        Some(ErrorKind::SessionClosed)
    } else {
        match frame_sequence(frame) {
            None => Some(ErrorKind::MalformedFrame),
            Some(n) => if n != s.received {
                Some(ErrorKind::ReplayOrOrderingError)
            } else {
                None
            },
        }
    }
}

/// The session after `frame` has arrived: one more frame received when it
/// is accepted, unchanged when it is out of sequence, closed otherwise.
pub open spec fn after_unseal(s: SessionView, frame: Seq<u8>) -> SessionView {
    match unseal_fault(s, frame) {
        None => SessionView { received: s.received + 1, ..s },
        Some(ErrorKind::ReplayOrOrderingError) => s,
        Some(_) => closed(s),
    }
}

/// What became of a request that was sent.
#[derive(Debug)]
pub enum Reply {
    /// A sealed frame arrived.
    Frame(Vec<u8>),
    /// The transport dropped; the text says how.
    Dropped(String),
    /// The deadline passed with no frame.
    TimedOut,
}

/// The mathematical value of a [`Reply`].
pub enum ReplyView {
    Frame(Seq<u8>),
    Dropped(Seq<char>),
    TimedOut,
}

impl View for Reply {
    type V = ReplyView;

    open spec fn view(&self) -> ReplyView {
        match self {
            Reply::Frame(frame) => ReplyView::Frame(frame@),
            Reply::Dropped(text) => ReplyView::Dropped(text@),
            Reply::TimedOut => ReplyView::TimedOut,
        }
    }
}

/// Why `reply` yields no response on `s`, if it yields none.
pub open spec fn reply_fault(s: SessionView, reply: ReplyView) -> Option<ErrorView> {
    if !s.open {
        Some(plain_error(ErrorKind::SessionClosed))
    } else {
        match reply {
            ReplyView::Dropped(text) => Some(
                ErrorView { kind: ErrorKind::TransportError, message: text },
            ),
            ReplyView::TimedOut => Some(plain_error(ErrorKind::Timeout)),
            ReplyView::Frame(frame) => match unseal_fault(s, frame) {
                Some(kind) => Some(plain_error(kind)),
                None => if response_of(frame_payload(frame)) is None {
                    Some(plain_error(frame_fault(frame_payload(frame))))
                } else {
                    None
                },
            },
        }
    }
}

/// The session after `reply`: one more frame received when a response came
/// of it, unchanged when the frame was out of sequence or the session was
/// closed before, and closed in every other case.
pub open spec fn after_reply(s: SessionView, reply: ReplyView) -> SessionView {
    if !s.open {
        s
    } else {
        match reply {
            ReplyView::Frame(frame) => match unseal_fault(s, frame) {
                None => if response_of(frame_payload(frame)) is None {
                    closed(after_unseal(s, frame))
                } else {
                    after_unseal(s, frame)
                },
                Some(_) => after_unseal(s, frame),
            },
            _ => closed(s),
        }
    }
}

impl Session {
    /// The session that a completed handshake between `local` and `peer` establishes.
    pub(crate) fn establish(local: Identity, peer: PeerIdentity) -> (res: Session)
        ensures
            res@ == fresh_session(local@, peer@),
    {
        Session { local, peer, sent: 0, received: 0, open: true }
    }

    /// Whether the session can still be used.
    pub fn is_open(&self) -> (res: bool)
        ensures
            res == self@.open,
    {
        self.open
    }

    /// The local node identifier.
    pub fn node_id(&self) -> (res: &str)
        ensures
            res@ == self@.local.node_id,
    {
        self.local.node_id.as_str()
    }

    /// The peer's node identifier.
    pub fn peer_node_id(&self) -> (res: &str)
        ensures
            res@ == self@.peer.node_id,
    {
        self.peer.node_id.as_str()
    }

    /// The peer's identity, as the handshake verified it.
    pub fn peer_identity(&self) -> (res: &PeerIdentity)
        ensures
            res@ == self@.peer,
    {
        &self.peer
    }

    /// How many frames this session has sealed.
    pub fn sent(&self) -> (res: u64)
        ensures
            res == self@.sent,
    {
        self.sent
    }

    /// How many frames this session has accepted.
    pub fn received(&self) -> (res: u64)
        ensures
            res == self@.received,
    {
        self.received
    }

    /// Closes the session. Nothing can be sent or accepted afterwards.
    pub fn close(&mut self)
        ensures
            final(self)@ == closed(old(self)@),
    {
        self.open = false;
    }

    /// Seals `payload` as the next frame to send, and counts it.
    ///
    /// Fails with `SessionClosed` on a closed session, and on one that has
    /// used up its sequence numbers, which closes it.
    pub fn seal(&mut self, payload: &[u8]) -> (res: Result<Vec<u8>, Error>)
        ensures
            final(self)@ == after_seal(old(self)@),
            match res {
                Ok(frame) => seal_fault(old(self)@) is None && frame@ == sealed(
                    old(self)@.sent,
                    payload@,
                ),
                Err(e) => seal_fault(old(self)@) is Some && e@ == plain_error(
                    seal_fault(old(self)@)->0,
                ),
            },
    {
        if !self.open {
            return Err(Error::new(ErrorKind::SessionClosed));
        }
        if self.sent == u64::MAX {
            self.open = false;
            return Err(Error::new(ErrorKind::SessionClosed));
        }
        let mut frame: Vec<u8> = Vec::new();
        put_length_u64(&mut frame, self.sent);
        put_raw(&mut frame, payload);
        assert(frame@ =~= sealed(self.sent as nat, payload@));
        self.sent = self.sent + 1;
        Ok(frame)
    }

    /// Accepts `frame` if it is the next one in sequence, and hands out what it carries.
    ///
    /// Fails with `ReplayOrOrderingError` when the frame carries another
    /// number than the one expected; the session is then as it was. Fails
    /// with `MalformedFrame` when the frame is too short to carry a
    /// number, and with `SessionClosed` on a closed session or one that has
    /// used up its sequence numbers; the session is then closed.
    pub fn unseal(&mut self, frame: &[u8]) -> (res: Result<Vec<u8>, Error>)
        ensures
            final(self)@ == after_unseal(old(self)@, frame@),
            match res {
                Ok(payload) => unseal_fault(old(self)@, frame@) is None && payload@
                    == frame_payload(frame@),
                Err(e) => unseal_fault(old(self)@, frame@) is Some && e@ == plain_error(
                    unseal_fault(old(self)@, frame@)->0,
                ),
            },
    {
        if !self.open {
            return Err(Error::new(ErrorKind::SessionClosed));
        }
        if self.received == u64::MAX {
            self.open = false;
            return Err(Error::new(ErrorKind::SessionClosed));
        }
        match take_length(frame, 0) {
            None => {
                self.open = false;
                Err(Error::new(ErrorKind::MalformedFrame))
            },
            Some((sequence, start)) => {
                if sequence != self.received {
                    Err(Error::new(ErrorKind::ReplayOrOrderingError))
                } else {
                    self.received = self.received + 1;
                    Ok(slice_to_vec(slice_subrange(frame, start, frame.len())))
                }
            },
        }
    }
}

/// Sends a retrieval of `path`: hands out the sealed request frame for the
/// transport to transmit. The outbound counter advances by one.
///
/// Fails with `SessionClosed` where the session cannot seal a frame.
pub fn send_get(session: &mut Session, path: &str) -> (res: Result<Vec<u8>, Error>)
    ensures
        final(session)@ == after_seal(old(session)@),
        match res {
            Ok(frame) => seal_fault(old(session)@) is None && frame@ == sealed(
                old(session)@.sent,
                request_wire(Method::Get, path@),
            ),
            Err(e) => seal_fault(old(session)@) is Some && e@ == plain_error(
                seal_fault(old(session)@)->0,
            ),
        },
{
    let request = encode_request(Method::Get, path);
    session.seal(request.as_slice())
}

/// Takes what became of the request and yields the response.
///
/// A frame in sequence that carries a response advances the inbound
/// counter by one and yields the response. A frame out of sequence fails
/// with `ReplayOrOrderingError` and leaves the session as it was. Everything
/// else closes the session: a dropped transport fails with `TransportError`
/// and the transport's text, a passed deadline with `Timeout`, a frame that
/// carries no response with `MalformedFrame` or `UnsupportedVersion`.
pub fn receive_response(session: &mut Session, reply: Reply) -> (res: Result<Response, Error>)
    ensures
        final(session)@ == after_reply(old(session)@, reply@),
        match res {
            Ok(response) => {
                &&& reply_fault(old(session)@, reply@) is None
                &&& reply@ matches ReplyView::Frame(frame)
                &&& response_of(frame_payload(frame)) == Some(response@)
            },
            Err(e) => reply_fault(old(session)@, reply@) == Some(e@),
        },
{
    if !session.is_open() {
        return Err(Error::new(ErrorKind::SessionClosed));
    }
    match reply {
        Reply::Dropped(text) => {
            session.close();
            Err(Error::with_message(ErrorKind::TransportError, text))
        },
        Reply::TimedOut => {
            session.close();
            Err(Error::new(ErrorKind::Timeout))
        },
        Reply::Frame(frame) => {
            let payload = match session.unseal(frame.as_slice()) {
                Ok(payload) => payload,
                Err(e) => {
                    return Err(e);
                },
            };
            match decode_response(payload.as_slice()) {
                Ok(response) => Ok(response),
                Err(e) => {
                    session.close();
                    Err(e)
                },
            }
        },
    }
}

/// A sealed frame carries the number it was sealed with, and the payload.
pub proof fn lemma_sealed_frame(sequence: nat, payload: Seq<u8>)
    requires
        sequence <= last_sequence(),
    ensures
        frame_sequence(sealed(sequence, payload)) == Some(sequence),
        frame_payload(sealed(sequence, payload)) == payload,
{
    let frame = sealed(sequence, payload);
    lemma_length_wire_len(sequence);
    assert(frame.subrange(0, 8) =~= length_wire(sequence));
    lemma_length_complete(frame, 0, sequence);
    assert(frame.subrange(8, frame.len() as int) =~= payload);
}

/// One thing that can happen to a session.
pub enum SessionEvent {
    /// A frame was to be sealed.
    Seal,
    /// A sealed frame arrived.
    Unseal(Seq<u8>),
    /// The reply to a request came.
    Reply(ReplyView),
    /// The session was closed.
    Close,
}

/// The session after `event`.
pub open spec fn after_event(s: SessionView, event: SessionEvent) -> SessionView {
    match event {
        SessionEvent::Seal => after_seal(s),
        SessionEvent::Unseal(frame) => after_unseal(s, frame),
        SessionEvent::Reply(reply) => after_reply(s, reply),
        SessionEvent::Close => closed(s),
    }
}

/// The session after `events`, first to last.
pub open spec fn after_events(s: SessionView, events: Seq<SessionEvent>) -> SessionView
    decreases events.len(),
{
    if events.len() == 0 {
        s
    } else {
        after_event(after_events(s, events.drop_last()), events.last())
    }
}

/// Whatever happens to a session, it never counts fewer frames than before.
pub proof fn lemma_counters_never_fall(s: SessionView, events: Seq<SessionEvent>)
    ensures
        after_events(s, events).sent >= s.sent,
        after_events(s, events).received >= s.received,
    decreases events.len(),
{
    if events.len() > 0 {
        lemma_counters_never_fall(s, events.drop_last());
    }
}

/// Replay: a frame that a session has accepted is never accepted by it
/// again, whatever has happened to the session in between. As long as the
/// session is open and has sequence numbers left, the frame is refused with
/// `ReplayOrOrderingError` and the refusal changes nothing; after that it
/// is refused with `SessionClosed`.
pub proof fn lemma_replay_is_rejected(s: SessionView, frame: Seq<u8>, events: Seq<SessionEvent>)
    requires
        unseal_fault(s, frame) is None,
    ensures
        ({
            let later = after_events(after_unseal(s, frame), events);
            if later.open && later.received < last_sequence() {
                &&& unseal_fault(later, frame) == Some(ErrorKind::ReplayOrOrderingError)
                &&& after_unseal(later, frame) == later
            } else {
                unseal_fault(later, frame) == Some(ErrorKind::SessionClosed)
            }
        }),
{
    lemma_counters_never_fall(after_unseal(s, frame), events);
}

/// Replay of a response: the reply that has just yielded a response yields
/// `ReplayOrOrderingError` when it comes again.
pub proof fn lemma_replayed_reply_is_rejected(s: SessionView, frame: Seq<u8>)
    requires
        reply_fault(s, ReplyView::Frame(frame)) is None,
        s.received + 1 < last_sequence(),
    ensures
        reply_fault(after_reply(s, ReplyView::Frame(frame)), ReplyView::Frame(frame)) == Some(
            plain_error(ErrorKind::ReplayOrOrderingError),
        ),
{
}

/// A closed session stays closed, and accepts and seals nothing.
pub proof fn lemma_closed_is_final(s: SessionView, frame: Seq<u8>, reply: ReplyView)
    requires
        !s.open,
    ensures
        after_seal(s) == s,
        after_unseal(s, frame) == s,
        after_reply(s, reply) == s,
        seal_fault(s) == Some(ErrorKind::SessionClosed),
        unseal_fault(s, frame) == Some(ErrorKind::SessionClosed),
        reply_fault(s, reply) == Some(plain_error(ErrorKind::SessionClosed)),
{
}

} // verus!
