//! Requests and responses as values.

use vstd::prelude::*;
use vstd::string::*;

verus! {

/// The request methods of the protocol. Retrieval is the only one.
#[derive(Clone, Copy, Debug, PartialEq, Eq, Structural)]
pub enum Method {
    Get,
}

/// What a client asks for: a method and a resource path. The path is never empty.
#[derive(Clone, Debug, PartialEq, Eq)]
pub struct Request {
    pub method: Method,
    pub path: String,
}

/// The mathematical value of a [`Request`].
pub struct RequestView {
    pub method: Method,
    pub path: Seq<char>,
}

impl View for Request {
    type V = RequestView;

    open spec fn view(&self) -> RequestView {
        RequestView { method: self.method, path: self.path@ }
    }
}

/// One header line.
#[derive(Clone, Debug, PartialEq, Eq)]
pub struct Header {
    pub name: String,
    pub value: String,
}

/// The mathematical value of a [`Header`].
pub struct HeaderView {
    pub name: Seq<char>,
    pub value: Seq<char>,
}

impl View for Header {
    type V = HeaderView;

    open spec fn view(&self) -> HeaderView {
        HeaderView { name: self.name@, value: self.value@ }
    }
}

/// The values of a list of headers, in order.
pub open spec fn headers_view(headers: Seq<Header>) -> Seq<HeaderView> {
    headers.map_values(|h: Header| h@)
}

/// What a peer answers: a short status, a detail text that may be empty,
/// the headers in wire order (names may repeat) and the body as raw bytes.
#[derive(Clone, Debug, PartialEq, Eq)]
pub struct Response {
    pub status: String,
    pub status_details: String,
    pub headers: Vec<Header>,
    pub body: Vec<u8>,
}

/// The mathematical value of a [`Response`].
pub struct ResponseView {
    pub status: Seq<char>,
    pub status_details: Seq<char>,
    pub headers: Seq<HeaderView>,
    pub body: Seq<u8>,
}

impl View for Response {
    type V = ResponseView;

    open spec fn view(&self) -> ResponseView {
        ResponseView {
            status: self.status@,
            status_details: self.status_details@,
            headers: headers_view(self.headers@),
            body: self.body@,
        }
    }
}

/// The status as one line: the short status alone when there is no detail,
/// else the short status, a space, and the detail.
pub open spec fn status_line_of(status: Seq<char>, details: Seq<char>) -> Seq<char> {
    if details.len() == 0 {
        status
    } else {
        status + seq![' '] + details
    }
}

impl Response {
    /// The status and its detail combined for display. The two stay separate
    /// in the response, so that the short status can be tested on its own.
    pub fn status_line(&self) -> (res: String)
        ensures
            res@ == status_line_of(self.status@, self.status_details@),
    {
        let mut line = self.status.clone();
        if !self.status_details.as_str().is_empty() {
            proof {
                reveal_strlit(" ");
                assert(" "@ =~= seq![' ']);
            }
            line.append(" ");
            line.append(self.status_details.as_str());
        }
        line
    }
}

/// A resource path as it is sent: the empty path stands for the root.
pub open spec fn normal_path(path: Seq<char>) -> Seq<char> {
    if path.len() == 0 {
        seq!['/']
    } else {
        path
    }
}

} // verus!
