//! The fetch command: one fresh keypair, one connection, one retrieval, and
//! a record of every stage that was tried.
//!
//! The driver does the outside work and reports how each stage ended; the
//! stages here decide what comes next and compose the result. A stage is
//! consumed by the report of its outcome, so the stages cannot be run out of
//! order, and every way through them ends in a [`FetchResult`].

use vstd::prelude::*;
use vstd::string::*;
use crate::error::Error;
use crate::hex::{hex_of, to_hex};
use crate::identity::{IdentityView, PeerIdentity};
use crate::message::{headers_view, status_line_of, Header, HeaderView, Response, ResponseView};
use crate::text::{decode_lossy, lossy_text};
use crate::url::{extract_path, path_of};

verus! {

/// One stage of a fetch: what was tried, whether it worked, and a detail.
#[derive(Clone, Debug, PartialEq, Eq)]
pub struct LogStep {
    pub name: String,
    pub ok: bool,
    pub detail: Option<String>,
}

/// The mathematical value of a [`LogStep`].
pub struct LogStepView {
    pub name: Seq<char>,
    pub ok: bool,
    pub detail: Option<Seq<char>>,
}

/// The value of an optional text.
pub open spec fn text_view(text: Option<String>) -> Option<Seq<char>> {
    match text {
        Some(s) => Some(s@),
        None => None,
    }
}

impl View for LogStep {
    type V = LogStepView;

    open spec fn view(&self) -> LogStepView {
        LogStepView { name: self.name@, ok: self.ok, detail: text_view(self.detail) }
    }
}

/// The values of a log, in order.
pub open spec fn log_view(log: Seq<LogStep>) -> Seq<LogStepView> {
    log.map_values(|s: LogStep| s@)
}

/// Who talked to whom: both node identifiers, and the peer's public key in hexadecimal.
#[derive(Clone, Debug, PartialEq, Eq)]
pub struct ConnectionInfo {
    pub client_node_id: String,
    pub server_node_id: String,
    pub server_pubkey: String,
}

/// The mathematical value of a [`ConnectionInfo`].
pub struct ConnectionInfoView {
    pub client_node_id: Seq<char>,
    pub server_node_id: Seq<char>,
    pub server_pubkey: Seq<char>,
}

impl View for ConnectionInfo {
    type V = ConnectionInfoView;

    open spec fn view(&self) -> ConnectionInfoView {
        ConnectionInfoView {
            client_node_id: self.client_node_id@,
            server_node_id: self.server_node_id@,
            server_pubkey: self.server_pubkey@,
        }
    }
}

/// The value of an optional connection record.
pub open spec fn connection_view(connection: Option<ConnectionInfo>) -> Option<ConnectionInfoView> {
    match connection {
        Some(c) => Some(c@),
        None => None,
    }
}

/// What a fetch reports, whether it succeeded or not.
#[derive(Clone, Debug, PartialEq, Eq)]
pub struct FetchResult {
    pub ok: bool,
    pub error: Option<String>,
    pub status: Option<String>,
    pub status_details: Option<String>,
    pub body: Option<String>,
    pub headers: Vec<Header>,
    pub connection: Option<ConnectionInfo>,
    pub log: Vec<LogStep>,
}

/// The mathematical value of a [`FetchResult`].
pub struct FetchResultView {
    pub ok: bool,
    pub error: Option<Seq<char>>,
    pub status: Option<Seq<char>>,
    pub status_details: Option<Seq<char>>,
    pub body: Option<Seq<char>>,
    pub headers: Seq<HeaderView>,
    pub connection: Option<ConnectionInfoView>,
    pub log: Seq<LogStepView>,
}

impl View for FetchResult {
    type V = FetchResultView;

    open spec fn view(&self) -> FetchResultView {
        FetchResultView {
            ok: self.ok,
            error: text_view(self.error),
            status: text_view(self.status),
            status_details: text_view(self.status_details),
            body: text_view(self.body),
            headers: headers_view(self.headers@),
            connection: connection_view(self.connection),
            log: log_view(self.log@),
        }
    }
}

/// The name of the first stage.
pub open spec fn keypair_stage() -> Seq<char> {
    "generated ephemeral keypair"@
}

/// The name of the second stage.
pub open spec fn connect_stage() -> Seq<char> {
    "client established connection"@
}

/// The name of the third stage.
pub open spec fn fetch_stage() -> Seq<char> {
    "fetched resource"@
}

/// The record of a stage that worked.
pub open spec fn passed(name: Seq<char>, detail: Option<Seq<char>>) -> LogStepView {
    LogStepView { name, ok: true, detail }
}

/// The record of a stage that failed with `message`.
pub open spec fn failed(name: Seq<char>, message: Seq<char>) -> LogStepView {
    LogStepView { name, ok: false, detail: Some(message) }
}

/// The result of a fetch whose stage `name` failed with `message`, after the
/// stages in `log` had passed: the failure is the last entry of the log, the
/// message is the error, nothing of a response is present, and the
/// connection is kept if there was one.
pub open spec fn failure(
    log: Seq<LogStepView>,
    name: Seq<char>,
    message: Seq<char>,
    connection: Option<ConnectionInfoView>,
) -> FetchResultView {
    FetchResultView {
        ok: false,
        error: Some(message),
        status: None,
        status_details: None,
        body: None,
        headers: Seq::empty(),
        connection,
        log: log.push(failed(name, message)),
    }
}

/// The result of a fetch that was answered with `response`, whose body reads
/// `body` as text: the last entry of the log carries the status line.
pub open spec fn success(
    log: Seq<LogStepView>,
    connection: ConnectionInfoView,
    response: ResponseView,
    body: Seq<char>,
) -> FetchResultView {
    FetchResultView {
        ok: true,
        error: None,
        status: Some(response.status),
        status_details: Some(response.status_details),
        body: Some(body),
        headers: response.headers,
        connection: Some(connection),
        log: log.push(
            passed(fetch_stage(), Some(status_line_of(response.status, response.status_details))),
        ),
    }
}

/// The connection record for a client `client_node_id` that reached `peer`.
pub open spec fn connection_of(client_node_id: Seq<char>, peer: IdentityView) -> ConnectionInfoView {
    ConnectionInfoView {
        client_node_id,
        server_node_id: peer.node_id,
        server_pubkey: hex_of(peer.public_key),
    }
}

/// Either the next stage, or the result of a fetch that has ended.
#[derive(Debug)]
pub enum Flow<S> {
    Continue(S),
    Finished(FetchResult),
}

/// First stage: a keypair is being generated for the fetch of `url`.
#[derive(Debug)]
pub struct Generating {
    url: String,
}

/// Second stage: the keypair is there, and the peer named by the URL is being dialled.
#[derive(Debug)]
pub struct Connecting {
    url: String,
    path: String,
    log: Vec<LogStep>,
}

/// The mathematical value of a [`Connecting`] stage.
pub struct ConnectingView {
    pub url: Seq<char>,
    pub path: Seq<char>,
    pub log: Seq<LogStepView>,
}

/// Third stage: the connection stands, and the resource has been asked for.
#[derive(Debug)]
pub struct Requesting {
    path: String,
    connection: ConnectionInfo,
    log: Vec<LogStep>,
}

/// The mathematical value of a [`Requesting`] stage.
pub struct RequestingView {
    pub path: Seq<char>,
    pub connection: ConnectionInfoView,
    pub log: Seq<LogStepView>,
}

impl View for Generating {
    type V = Seq<char>;

    closed spec fn view(&self) -> Seq<char> {
        self.url@
    }
}

impl View for Connecting {
    type V = ConnectingView;

    closed spec fn view(&self) -> ConnectingView {
        ConnectingView { url: self.url@, path: self.path@, log: log_view(self.log@) }
    }
}

impl View for Requesting {
    type V = RequestingView;

    closed spec fn view(&self) -> RequestingView {
        RequestingView { path: self.path@, connection: self.connection@, log: log_view(self.log@) }
    }
}

fn stage_passed(name: &str, detail: Option<String>) -> (res: LogStep)
    ensures
        res@ == passed(name@, text_view(detail)),
{
    LogStep { name: name.to_owned(), ok: true, detail }
}

fn record(log: &mut Vec<LogStep>, step: LogStep)
    ensures
        log_view(final(log)@) == log_view(old(log)@).push(step@),
{
    log.push(step);
    assert(log_view(log@) =~= log_view(old(log)@).push(step@));
}

/// Ends a fetch at the stage `name`, which failed with `error`.
fn fail(mut log: Vec<LogStep>, name: &str, error: Error, connection: Option<ConnectionInfo>) -> (res:
    FetchResult)
    ensures
        res@ == failure(log_view(log@), name@, error.message@, connection_view(connection)),
{
    let step = LogStep { name: name.to_owned(), ok: false, detail: Some(error.message.clone()) };
    record(&mut log, step);
    let res = FetchResult {
        ok: false,
        error: Some(error.message),
        status: None,
        status_details: None,
        body: None,
        headers: Vec::new(),
        connection,
        log,
    };
    assert(res@.headers =~= Seq::empty());
    res
}

/// Starts the fetch of `url`. The driver generates a keypair next.
pub fn begin(url: String) -> (res: Generating)
    ensures
        res@ == url@,
{
    Generating { url }
}

impl Generating {
    /// Reports how the generation of the keypair ended. What the driver
    /// holds of the keypair travels through unread.
    ///
    /// With a keypair the fetch goes on to dial the URL, and knows the path
    /// it will ask for. Without one it ends, and the log holds the one failed stage.
    pub fn generated<K>(self, outcome: Result<K, Error>) -> (res: Flow<(Connecting, K)>)
        ensures
            match outcome {
                Ok(keypair) => {
                    &&& res matches Flow::Continue((next, carried))
                    &&& carried == keypair
                    &&& next@ == (ConnectingView {
                        url: self@,
                        path: path_of(self@),
                        log: seq![passed(keypair_stage(), None)],
                    })
                },
                Err(e) => {
                    &&& res matches Flow::Finished(result)
                    &&& result@ == failure(Seq::empty(), keypair_stage(), e.message@, None)
                },
            },
    {
        let mut log: Vec<LogStep> = Vec::new();
        assert(log_view(log@) =~= Seq::empty());
        match outcome {
            Ok(keypair) => {
                record(&mut log, stage_passed("generated ephemeral keypair", None));
                let path = extract_path(self.url.as_str());
                assert(log_view(log@) =~= seq![passed(keypair_stage(), None)]);
                Flow::Continue((Connecting { url: self.url, path, log }, keypair))
            },
            Err(e) => Flow::Finished(fail(log, "generated ephemeral keypair", e, None)),
        }
    }
}

/// What a successful connection attempt reports: the client's own node
/// identifier, the peer it reached, and the driver's handle on the connection.
#[derive(Debug)]
pub struct Connected<C> {
    pub client_node_id: String,
    pub peer: PeerIdentity,
    pub handle: C,
}

impl Connecting {
    /// The URL to dial.
    pub fn url(&self) -> (res: &str)
        ensures
            res@ == self@.url,
    {
        self.url.as_str()
    }

    /// Reports how the connection attempt ended. The driver's handle on the
    /// connection travels through unread.
    ///
    /// Connected, the fetch goes on to ask for the path, and keeps both
    /// identifiers and the peer's key in hexadecimal. Otherwise it ends
    /// without a connection record.
    pub fn connected<C>(self, outcome: Result<Connected<C>, Error>) -> (res: Flow<(Requesting, C)>)
        ensures
            match outcome {
                Ok(connected) => {
                    &&& res matches Flow::Continue((next, carried))
                    &&& carried == connected.handle
                    &&& next@ == (RequestingView {
                        path: self@.path,
                        connection: connection_of(connected.client_node_id@, connected.peer@),
                        log: self@.log.push(passed(connect_stage(), None)),
                    })
                },
                Err(e) => {
                    &&& res matches Flow::Finished(result)
                    &&& result@ == failure(self@.log, connect_stage(), e.message@, None)
                },
            },
    {
        let mut log = self.log;
        match outcome {
            Ok(connected) => {
                record(&mut log, stage_passed("client established connection", None));
                let connection = ConnectionInfo {
                    client_node_id: connected.client_node_id,
                    server_node_id: connected.peer.node_id,
                    server_pubkey: to_hex(connected.peer.public_key.as_slice()),
                };
                Flow::Continue((Requesting { path: self.path, connection, log }, connected.handle))
            },
            Err(e) => Flow::Finished(fail(log, "client established connection", e, None)),
        }
    }
}

impl Requesting {
    /// The path to ask the peer for.
    pub fn path(&self) -> (res: &str)
        ensures
            res@ == self@.path,
    {
        self.path.as_str()
    }

    /// The connection record.
    pub fn connection(&self) -> (res: &ConnectionInfo)
        ensures
            res@ == self@.connection,
    {
        &self.connection
    }

    /// Reports how the retrieval ended, and ends the fetch.
    ///
    /// An answer gives a result that carries the status, the headers and
    /// the body read as text; an error gives a failure that still carries
    /// the connection record.
    pub fn responded(self, outcome: Result<Response, Error>) -> (res: FetchResult)
        ensures
            match outcome {
                Ok(response) => res@ == success(
                    self@.log,
                    self@.connection,
                    response@,
                    lossy_text(response.body@),
                ),
                Err(e) => res@ == failure(
                    self@.log,
                    fetch_stage(),
                    e.message@,
                    Some(self@.connection),
                ),
            },
    {
        match outcome {
            Ok(response) => {
                let body = decode_lossy(response.body.as_slice());
                self.answered(response, body)
            },
            Err(e) => fail(self.log, "fetched resource", e, Some(self.connection)),
        }
    }

    /// Ends the fetch with the answer `response`, whose body reads `body` as text.
    pub fn answered(self, response: Response, body: String) -> (res: FetchResult)
        ensures
            res@ == success(self@.log, self@.connection, response@, body@),
    {
        let mut log = self.log;
        let line = response.status_line();
        record(&mut log, stage_passed("fetched resource", Some(line)));
        FetchResult {
            ok: true,
            error: None,
            status: Some(response.status),
            status_details: Some(response.status_details),
            body: Some(body),
            headers: response.headers,
            connection: Some(self.connection),
            log,
        }
    }
}

} // verus!
