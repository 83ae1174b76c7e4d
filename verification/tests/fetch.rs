use web_fetch::error::{Error, ErrorKind};
use web_fetch::fetch::{
    begin, Connected, ConnectionInfo, Connecting, FetchResult, Flow, LogStep, Requesting,
};
use web_fetch::identity::PeerIdentity;
use web_fetch::message::{Header, Response};

fn peer() -> PeerIdentity {
    let mut public_key = [0u8; 32];
    public_key[0] = 0xab;
    public_key[31] = 0x0c;
    PeerIdentity { public_key, node_id: "server-node".to_string() }
}

fn peer_hex() -> String {
    format!("ab{}0c", "00".repeat(30))
}

fn step(name: &str, ok: bool, detail: Option<&str>) -> LogStep {
    LogStep { name: name.to_string(), ok, detail: detail.map(str::to_string) }
}

fn connecting(url: &str) -> Connecting {
    match begin(url.to_string()).generated(Ok(())) {
        Flow::Continue((next, ())) => next,
        Flow::Finished(result) => panic!("ended early: {result:?}"),
    }
}

fn reached() -> Connected<()> {
    Connected { client_node_id: "client-node".to_string(), peer: peer(), handle: () }
}

fn requesting(url: &str) -> Requesting {
    match connecting(url).connected(Ok(reached())) {
        Flow::Continue((next, ())) => next,
        Flow::Finished(result) => panic!("ended early: {result:?}"),
    }
}

fn refused<T>(error: Error) -> Result<T, Error> {
    Err(error)
}

fn finished<S: std::fmt::Debug>(flow: Flow<S>) -> FetchResult {
    match flow {
        Flow::Finished(result) => result,
        Flow::Continue(next) => panic!("went on: {next:?}"),
    }
}

fn connection() -> ConnectionInfo {
    ConnectionInfo {
        client_node_id: "client-node".to_string(),
        server_node_id: "server-node".to_string(),
        server_pubkey: peer_hex(),
    }
}

#[test]
fn fetch_happy_path() {
    let stage = requesting("proto://example.test/resource");
    assert_eq!(stage.path(), "/resource");
    let response = Response {
        status: "ok".to_string(),
        status_details: String::new(),
        headers: vec![Header { name: "content-type".to_string(), value: "text/plain".to_string() }],
        body: b"served content".to_vec(),
    };
    let result = stage.responded(Ok(response));
    assert_eq!(
        result,
        FetchResult {
            ok: true,
            error: None,
            status: Some("ok".to_string()),
            status_details: Some(String::new()),
            body: Some("served content".to_string()),
            headers: vec![Header {
                name: "content-type".to_string(),
                value: "text/plain".to_string()
            }],
            connection: Some(connection()),
            log: vec![
                step("generated ephemeral keypair", true, None),
                step("client established connection", true, None),
                step("fetched resource", true, Some("ok")),
            ],
        }
    );
}

#[test]
fn fetch_connection_refused() {
    let stage = connecting("proto://example.test/resource");
    assert_eq!(stage.url(), "proto://example.test/resource");
    let refused_error =
        Error::with_message(ErrorKind::TransportError, "connection refused".to_string());
    let result = finished(stage.connected(refused::<Connected<()>>(refused_error)));
    assert!(!result.ok);
    assert_eq!(result.error.as_deref(), Some("connection refused"));
    assert_eq!(result.headers.len(), 0);
    assert_eq!(
        result.log,
        vec![
            step("generated ephemeral keypair", true, None),
            step("client established connection", false, Some("connection refused")),
        ]
    );
    assert_eq!(result.log.iter().filter(|s| !s.ok).count(), 1);
    assert_eq!(result.status, None);
    assert_eq!(result.status_details, None);
    assert_eq!(result.body, None);
    assert_eq!(result.connection, None);
}

#[test]
fn fetch_peer_mismatch() {
    let stage = connecting("proto://example.test/resource");
    let result = finished(
        stage.connected(refused::<Connected<()>>(Error::new(ErrorKind::IdentityMismatch))),
    );
    assert!(!result.ok);
    assert_eq!(result.error.as_deref(), Some("peer identity mismatch"));
    assert_eq!(result.body, None);
    assert!(result.headers.is_empty());
    assert_eq!(result.status, None);
    assert_eq!(result.connection, None);
    assert_eq!(result.log.len(), 2);
    assert!(!result.log[1].ok);
}

#[test]
fn fetch_without_entropy_ends_at_the_first_stage() {
    let result = finished(
        begin("proto://example.test/resource".to_string())
            .generated(refused::<()>(Error::new(ErrorKind::EntropyError))),
    );
    assert_eq!(
        result,
        FetchResult {
            ok: false,
            error: Some("no entropy available".to_string()),
            status: None,
            status_details: None,
            body: None,
            headers: vec![],
            connection: None,
            log: vec![step("generated ephemeral keypair", false, Some("no entropy available"))],
        }
    );
}

#[test]
fn fetch_that_fails_after_connecting_keeps_the_connection() {
    let stage = requesting("proto://example.test/resource");
    assert_eq!(stage.connection(), &connection());
    let result = stage.responded(Err(Error::new(ErrorKind::Timeout)));
    assert_eq!(
        result,
        FetchResult {
            ok: false,
            error: Some("timed out".to_string()),
            status: None,
            status_details: None,
            body: None,
            headers: vec![],
            connection: Some(connection()),
            log: vec![
                step("generated ephemeral keypair", true, None),
                step("client established connection", true, None),
                step("fetched resource", false, Some("timed out")),
            ],
        }
    );
}

#[test]
fn fetch_keeps_the_text_of_an_error_as_it_came() {
    let text = "  mixed CASE, punctuation! and \u{1f600}  ";
    let error = Error::with_message(ErrorKind::MalformedFrame, text.to_string());
    let result = requesting("web://h/").responded(Err(error));
    assert_eq!(result.error.as_deref(), Some(text));
    assert_eq!(result.log[2].detail.as_deref(), Some(text));
}

#[test]
fn fetch_asks_for_the_path_of_the_url() {
    assert_eq!(requesting("proto://example.test").path(), "/");
    assert_eq!(requesting("proto://example.test/a/b").path(), "/a/b");
    assert_eq!(requesting("web://example.test:4433/x?y=1").path(), "/x?y=1");
    assert_eq!(requesting("example.test/plain").path(), "/plain");
}

#[test]
fn fetch_hands_the_drivers_handles_through() {
    let stage = begin("web://h/x".to_string());
    let (stage, keypair) = match stage.generated(Ok("keypair")) {
        Flow::Continue(next) => next,
        Flow::Finished(result) => panic!("ended early: {result:?}"),
    };
    assert_eq!(keypair, "keypair");
    let connected =
        Connected { client_node_id: "client-node".to_string(), peer: peer(), handle: 42u8 };
    let (stage, handle) = match stage.connected(Ok(connected)) {
        Flow::Continue(next) => next,
        Flow::Finished(result) => panic!("ended early: {result:?}"),
    };
    assert_eq!(handle, 42);
    assert_eq!(stage.path(), "/x");
}

#[test]
fn fetch_shows_the_peer_key_in_hexadecimal() {
    let stage = requesting("web://h/");
    assert_eq!(stage.connection().server_pubkey, peer_hex());
    assert_eq!(stage.connection().server_pubkey.len(), 64);
    assert_eq!(stage.connection().client_node_id, "client-node");
    assert_eq!(stage.connection().server_node_id, "server-node");
}

#[test]
fn fetch_log_detail_combines_status_and_detail() {
    let response = Response {
        status: "not-found".to_string(),
        status_details: "no such resource".to_string(),
        headers: vec![],
        body: vec![],
    };
    assert_eq!(response.status_line(), "not-found no such resource");
    let result = requesting("web://h/missing").responded(Ok(response));
    assert!(result.ok);
    assert_eq!(result.status.as_deref(), Some("not-found"));
    assert_eq!(result.status_details.as_deref(), Some("no such resource"));
    assert_eq!(result.log[2], step("fetched resource", true, Some("not-found no such resource")));
    assert_eq!(result.body.as_deref(), Some(""));
}

#[test]
fn status_line_is_the_status_alone_without_detail() {
    let response = Response {
        status: "ok".to_string(),
        status_details: String::new(),
        headers: vec![],
        body: vec![],
    };
    assert_eq!(response.status_line(), "ok");
}

#[test]
fn fetch_reads_a_body_that_is_no_text_lossily() {
    let response = Response {
        status: "ok".to_string(),
        status_details: String::new(),
        headers: vec![],
        body: vec![b'a', 0xff, b'b', 0xc3, 0xa9, 0xc3],
    };
    let result = requesting("web://h/").responded(Ok(response));
    assert_eq!(result.body.as_deref(), Some("a\u{fffd}b\u{e9}\u{fffd}"));
}

#[test]
fn fetch_reads_a_body_that_is_text_unchanged() {
    let text = "pl\u{e4}in t\u{e9}xt \u{4e2d}\u{6587} \u{1f600}";
    let response = Response {
        status: "ok".to_string(),
        status_details: String::new(),
        headers: vec![],
        body: text.as_bytes().to_vec(),
    };
    let result = requesting("web://h/").responded(Ok(response));
    assert_eq!(result.body.as_deref(), Some(text));
}

#[test]
fn fetch_answered_takes_the_body_text_as_given() {
    let response = Response {
        status: "ok".to_string(),
        status_details: String::new(),
        headers: vec![Header { name: "a".to_string(), value: "b".to_string() }],
        body: b"raw".to_vec(),
    };
    let result = requesting("web://h/").answered(response, "as given".to_string());
    assert!(result.ok);
    assert_eq!(result.body.as_deref(), Some("as given"));
    assert_eq!(result.headers.len(), 1);
    assert_eq!(result.log.len(), 3);
}

#[test]
fn fetch_keeps_headers_in_order_with_duplicates() {
    let headers = vec![
        Header { name: "b".to_string(), value: "2".to_string() },
        Header { name: "a".to_string(), value: "1".to_string() },
        Header { name: "b".to_string(), value: "3".to_string() },
    ];
    let response = Response {
        status: "ok".to_string(),
        status_details: String::new(),
        headers: headers.clone(),
        body: vec![],
    };
    let result = requesting("web://h/").responded(Ok(response));
    assert_eq!(result.headers, headers);
}

#[test]
fn every_failure_ends_with_one_failed_step_that_carries_the_error() {
    let failures = vec![
        finished(
            begin("web://h/".to_string())
                .generated(refused::<()>(Error::new(ErrorKind::EntropyError))),
        ),
        finished(
            connecting("web://h/")
                .connected(refused::<Connected<()>>(Error::new(ErrorKind::AddressError))),
        ),
        finished(
            connecting("web://h/")
                .connected(refused::<Connected<()>>(Error::new(ErrorKind::InvalidPeerKey))),
        ),
        requesting("web://h/").responded(Err(Error::new(ErrorKind::SessionClosed))),
        requesting("web://h/").responded(Err(Error::new(ErrorKind::ReplayOrOrderingError))),
        requesting("web://h/").responded(Err(Error::new(ErrorKind::UnsupportedVersion))),
    ];
    for result in failures {
        assert!(!result.ok);
        let last = result.log.last().unwrap();
        assert!(!last.ok);
        assert_eq!(last.detail, result.error);
        assert!(result.error.is_some());
        assert!(result.log[..result.log.len() - 1].iter().all(|s| s.ok));
        assert!(result.headers.is_empty());
        assert_eq!(result.body, None);
    }
}

#[test]
fn error_texts_by_kind() {
    let texts = [
        (ErrorKind::EntropyError, "no entropy available"),
        (ErrorKind::AddressError, "invalid address"),
        (ErrorKind::TransportError, "transport failure"),
        (ErrorKind::InvalidPeerKey, "invalid peer key"),
        (ErrorKind::IdentityMismatch, "peer identity mismatch"),
        (ErrorKind::MalformedFrame, "malformed frame"),
        (ErrorKind::UnsupportedVersion, "unsupported protocol version"),
        (ErrorKind::ReplayOrOrderingError, "frame out of sequence"),
        (ErrorKind::Timeout, "timed out"),
        (ErrorKind::SessionClosed, "session closed"),
    ];
    for (kind, text) in texts {
        assert_eq!(kind.text(), text);
        assert_eq!(Error::new(kind), Error { kind, message: text.to_string() });
    }
    assert_eq!(
        Error::with_message(ErrorKind::Timeout, "took 30 s".to_string()),
        Error { kind: ErrorKind::Timeout, message: "took 30 s".to_string() }
    );
}
