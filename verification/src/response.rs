use vstd::prelude::*;

verus! {

/// The payload of a response: nothing at all, negotiated text (plain or
/// JSON), or a secret's raw bytes.
#[derive(Debug, PartialEq, Eq)]
pub enum ResponseBody {
    Empty,
    Text(String),
    Blob(Vec<u8>),
}

/// A fully shaped response, ready for the transport layer to send: the
/// status code, whether the text body is JSON (and should be labelled
/// `application/json`), an optional `content-disposition` header value,
/// and the body.
#[derive(Debug, PartialEq, Eq)]
pub struct HttpResponse {
    pub status: u16,
    pub json: bool,
    pub content_disposition: Option<String>,
    pub body: ResponseBody,
}

impl HttpResponse {
    /// An empty response carrying only a status code.
    pub open spec fn spec_empty(status: u16) -> HttpResponse {
        HttpResponse { status, json: false, content_disposition: None, body: ResponseBody::Empty }
    }

    /// Builds the empty response for `status`.
    pub fn empty(status: u16) -> (resp: HttpResponse)
        ensures
            resp == Self::spec_empty(status),
    {
        HttpResponse { status, json: false, content_disposition: None, body: ResponseBody::Empty }
    }
}

} // verus!
