//! The client: one connection to one peer, for retrievals over it.

use vstd::prelude::*;
use vstd::string::*;
use crate::codec::{request_wire, response_of};
use crate::error::{plain_error, Error, ErrorKind};
use crate::handshake::{id_view, Handshake, HandshakeView};
use crate::identity::{Identity, PeerIdentity};
use crate::message::{Method, Response};
use crate::session::{
    after_reply, after_seal, closed, frame_payload, receive_response, reply_fault, seal_fault,
    sealed, send_get, Reply, ReplyView, Session, SessionView,
};
use crate::url::{is_url, url_parts, Url};

verus! {

/// A connected client. It exists only for a session that a handshake
/// established, so its identities are always those the handshake verified.
#[derive(Debug)]
pub struct Client {
    session: Session,
}

impl View for Client {
    type V = SessionView;

    closed spec fn view(&self) -> SessionView {
        self.session@
    }
}

impl Client {
    /// Begins connecting to `url` as `local`: starts the handshake, which
    /// the driver carries through. See [`Handshake::start`].
    pub fn connect(local: Identity, expected_peer: Option<String>, url: &str) -> (res: (
        Handshake,
        Result<Url, Error>,
    ))
        ensures
            match res.1 {
                Ok(parsed) => {
                    &&& is_url(url@)
                    &&& parsed@ == url_parts(url@)
                    &&& res.0@ == (HandshakeView::Resolving {
                        local: local@,
                        expected_peer: id_view(expected_peer),
                    })
                },
                Err(e) => {
                    &&& !is_url(url@)
                    &&& e@ == plain_error(ErrorKind::AddressError)
                    &&& res.0@ == HandshakeView::Closed
                },
            },
    {
        Handshake::start(local, expected_peer, url)
    }

    /// The client of the session that `handshake` established. Fails with
    /// `SessionClosed` where it established none.
    pub fn connected(handshake: Handshake) -> (res: Result<Client, Error>)
        ensures
            match res {
                Ok(client) => handshake@ == (HandshakeView::Established { session: client@ }),
                Err(e) => !(handshake@ is Established) && e@ == plain_error(
                    ErrorKind::SessionClosed,
                ),
            },
    {
        match handshake.finish() {
            Ok(session) => Ok(Client { session }),
            Err(e) => Err(e),
        }
    }

    /// Asks for `path`: yields the sealed request for the transport to send.
    /// See [`send_get`].
    pub fn get(&mut self, path: &str) -> (res: Result<Vec<u8>, Error>)
        ensures
            final(self)@ == after_seal(old(self)@),
            match res {
                Ok(frame) => seal_fault(old(self)@) is None && frame@ == sealed(
                    old(self)@.sent,
                    request_wire(Method::Get, path@),
                ),
                Err(e) => seal_fault(old(self)@) is Some && e@ == plain_error(
                    seal_fault(old(self)@)->0,
                ),
            },
    {
        send_get(&mut self.session, path)
    }

    /// Takes what became of the request and yields the response.
    /// See [`receive_response`].
    pub fn answered(&mut self, reply: Reply) -> (res: Result<Response, Error>)
        ensures
            final(self)@ == after_reply(old(self)@, reply@),
            match res {
                Ok(response) => {
                    &&& reply_fault(old(self)@, reply@) is None
                    &&& reply@ matches ReplyView::Frame(frame)
                    &&& response_of(frame_payload(frame)) == Some(response@)
                },
                Err(e) => reply_fault(old(self)@, reply@) == Some(e@),
            },
    {
        receive_response(&mut self.session, reply)
    }

    /// The client's own node identifier.
    pub fn node_id(&self) -> (res: &str)
        ensures
            res@ == self@.local.node_id,
    {
        self.session.node_id()
    }

    /// The peer's node identifier.
    pub fn peer_node_id(&self) -> (res: &str)
        ensures
            res@ == self@.peer.node_id,
    {
        self.session.peer_node_id()
    }

    /// The peer's identity.
    pub fn peer_identity(&self) -> (res: &PeerIdentity)
        ensures
            res@ == self@.peer,
    {
        self.session.peer_identity()
    }

    /// Whether the connection can still be used.
    pub fn is_open(&self) -> (res: bool)
        ensures
            res == self@.open,
    {
        self.session.is_open()
    }

    /// Closes the connection.
    pub fn close(&mut self)
        ensures
            final(self)@ == closed(old(self)@),
    {
        self.session.close()
    }
}

} // verus!
