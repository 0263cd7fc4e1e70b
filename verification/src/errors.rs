use vstd::prelude::*;
use vstd::string::*;

use crate::response::{HttpResponse, ResponseBody};
use crate::textops::{
    is_readable, spec_contains_seq, spec_readable, spec_to_lower, contains_seq, to_lower,
};

verus! {

/// Every failure a request can end in.  Each kind carries a fixed status
/// code and a short, static message; the payloads the transport layer may
/// attach (rejection details, database errors) never reach the caller and
/// are not part of the rendered response, so the kinds are bare here.
#[derive(Clone, Copy, PartialEq, Eq, Structural, Debug)]
pub enum ResponseError {
    AxumExtensionRejection,
    AxumHttpError,
    DatabaseError,
    EmptyXRealIP,
    InvalidXRealIP,
    NotFoundError,
    TypedHeaderRejection,
    Unauthorized,
}

/// The lowercased byte form of `application/json`, the accept-type that
/// switches error rendering to the JSON shape.
pub open spec fn spec_json_pattern() -> Seq<u8> {
    seq![97u8, 112, 112, 108, 105, 99, 97, 116, 105, 111, 110, 47, 106, 115, 111, 110]
}

/// Whether a caller with the given raw `Accept` header value asked for
/// JSON: the value must be readable header text and contain
/// `application/json` once lowercased.
pub open spec fn spec_wants_json(accept: Option<Seq<u8>>) -> bool {
    match accept {
        None => false,
        Some(a) => spec_readable(a) && spec_contains_seq(spec_to_lower(a), spec_json_pattern()),
    }
}

/// The spec-level view of an optional raw header value.
pub open spec fn accept_view(accept: Option<&Vec<u8>>) -> Option<Seq<u8>> {
    match accept {
        None => None,
        Some(a) => Some(a@),
    }
}

impl ResponseError {
    /// The status code of each failure kind: 401 for the credential and
    /// permission failures, 400 for a bad client-address header, 404 for
    /// not-found, 500 for everything else.
    pub open spec fn spec_status_code(self) -> u16 {
        match self {
            ResponseError::Unauthorized | ResponseError::TypedHeaderRejection => 401,
            ResponseError::EmptyXRealIP | ResponseError::InvalidXRealIP => 400,
            ResponseError::NotFoundError => 404,
            _ => 500,
        }
    }

    /// The decimal text of this kind's status code.
    pub open spec fn spec_code_text(self) -> Seq<char> {
        match self {
            ResponseError::Unauthorized | ResponseError::TypedHeaderRejection => "401"@,
            ResponseError::EmptyXRealIP | ResponseError::InvalidXRealIP => "400"@,
            ResponseError::NotFoundError => "404"@,
            _ => "500"@,
        }
    }

    /// The short, static message of each failure kind.  Internal detail
    /// never reaches the caller.
    pub open spec fn spec_message(self) -> Seq<char> {
        match self {
            ResponseError::Unauthorized | ResponseError::TypedHeaderRejection => "unauthorized"@,
            ResponseError::EmptyXRealIP => "x-real-ip header empty or unreadable"@,
            ResponseError::InvalidXRealIP => "x-real-ip header malformed"@,
            ResponseError::NotFoundError => "not found"@,
            _ => "internal server error"@,
        }
    }

    /// Whether this failure is worth logging: everything except the
    /// expected, high-frequency not-found outcome.
    pub open spec fn spec_should_log(self) -> bool {
        !(self is NotFoundError)
    }

    /// The plain-text body: `<code>: <message>`.
    pub open spec fn spec_plain_body(self) -> Seq<char> {
        self.spec_code_text() + ": "@ + self.spec_message()
    }

    /// The JSON body: `{"code":<code>,"message":"<message>"}`.
    pub open spec fn spec_json_body(self) -> Seq<char> {
        "{\"code\":"@ + self.spec_code_text() + ",\"message\":\""@ + self.spec_message() + "\"}"@
    }

    /// What the rendered response for this failure must look like, given
    /// the caller's accept preference: the fixed status code of the kind,
    /// and either the JSON body or the plain-text body — the status never
    /// depends on which rendering was chosen.
    pub open spec fn spec_renders_to(self, accept: Option<Seq<u8>>, resp: HttpResponse) -> bool {
        &&& resp.status == self.spec_status_code()
        &&& resp.content_disposition is None
        &&& resp.json == spec_wants_json(accept)
        &&& resp.body matches ResponseBody::Text(text) && text@ == if spec_wants_json(accept) {
            self.spec_json_body()
        } else {
            self.spec_plain_body()
        }
    }

    /// Maps this failure to its status code.
    pub fn status_code(&self) -> (code: u16)
        ensures
            code == self.spec_status_code(),
    {
        match self {
            ResponseError::Unauthorized | ResponseError::TypedHeaderRejection => 401,
            ResponseError::EmptyXRealIP | ResponseError::InvalidXRealIP => 400,
            ResponseError::NotFoundError => 404,
            _ => 500,
        }
    }

    /// The decimal text of this failure's status code.
    pub fn status_code_text(&self) -> (text: &'static str)
        ensures
            text@ == self.spec_code_text(),
    {
        match self {
            ResponseError::Unauthorized | ResponseError::TypedHeaderRejection => "401",
            ResponseError::EmptyXRealIP | ResponseError::InvalidXRealIP => "400",
            ResponseError::NotFoundError => "404",
            _ => "500",
        }
    }

    /// The message shown to the caller for this failure.
    pub fn message(&self) -> (message: &'static str)
        ensures
            message@ == self.spec_message(),
    {
        match self {
            ResponseError::Unauthorized | ResponseError::TypedHeaderRejection => "unauthorized",
            ResponseError::EmptyXRealIP => "x-real-ip header empty or unreadable",
            ResponseError::InvalidXRealIP => "x-real-ip header malformed",
            ResponseError::NotFoundError => "not found",
            _ => "internal server error",
        }
    }

    /// Decides whether this failure should be logged.
    pub fn should_log(&self) -> (log: bool)
        ensures
            log == self.spec_should_log(),
    {
        match self {
            ResponseError::NotFoundError => false,
            _ => true,
        }
    }

    /// Builds the plain-text body `<code>: <message>`.
    pub fn plain_text_body(&self) -> (body: String)
        ensures
            body@ == self.spec_plain_body(),
    {
        let mut body = String::from_str(self.status_code_text());
        body.append(": ");
        body.append(self.message());
        proof {
            assert(body@ =~= self.spec_plain_body());
        }
        body
    }

    /// Builds the JSON body `{"code":<code>,"message":"<message>"}`.  The
    /// messages are fixed strings with nothing to escape.
    pub fn json_body(&self) -> (body: String)
        ensures
            body@ == self.spec_json_body(),
    {
        let mut body = String::from_str("{\"code\":");
        body.append(self.status_code_text());
        body.append(",\"message\":\"");
        body.append(self.message());
        body.append("\"}");
        proof {
            assert(body@ =~= self.spec_json_body());
        }
        body
    }

    /// Renders this failure as the response the caller sees.  The status
    /// code is fixed by the failure kind alone; the body shape — JSON or
    /// plain text — follows the caller's `Accept` header.
    pub fn render(&self, accept: Option<&Vec<u8>>) -> (resp: HttpResponse)
        ensures
            self.spec_renders_to(accept_view(accept), resp),
    {
        let json = wants_json(accept);
        let body = if json {
            self.json_body()
        } else {
            self.plain_text_body()
        };
        HttpResponse {
            status: self.status_code(),
            json,
            content_disposition: None,
            body: ResponseBody::Text(body),
        }
    }
}

/// The exec form of the `application/json` byte pattern.
fn json_pattern() -> (pattern: Vec<u8>)
    ensures
        pattern@ == spec_json_pattern(),
{
    let mut pattern: Vec<u8> = Vec::new();
    pattern.push(97);
    pattern.push(112);
    pattern.push(112);
    pattern.push(108);
    pattern.push(105);
    pattern.push(99);
    pattern.push(97);
    pattern.push(116);
    pattern.push(105);
    pattern.push(111);
    pattern.push(110);
    pattern.push(47);
    pattern.push(106);
    pattern.push(115);
    pattern.push(111);
    pattern.push(110);
    proof {
        assert(pattern@ =~= spec_json_pattern());
    }
    pattern
}

/// Decides from the raw `Accept` header whether the caller asked for a
/// JSON rendering.
pub fn wants_json(accept: Option<&Vec<u8>>) -> (json: bool)
    ensures
        json == spec_wants_json(accept_view(accept)),
{
    match accept {
        None => false,
        Some(value) => {
            if !is_readable(value) {
                false
            } else {
                let lowered = to_lower(value);
                let pattern = json_pattern();
                contains_seq(&lowered, &pattern)
            }
        },
    }
}

/// The status code and both body texts are derived once per failure kind:
/// two failures of the same kind render with the same status, message,
/// and bodies, whichever rendering path the caller's accept type selects.
pub proof fn lemma_status_independent_of_rendering(
    error: ResponseError,
    accept1: Option<Seq<u8>>,
    accept2: Option<Seq<u8>>,
    resp1: HttpResponse,
    resp2: HttpResponse,
)
    requires
        error.spec_renders_to(accept1, resp1),
        error.spec_renders_to(accept2, resp2),
    ensures
        resp1.status == resp2.status,
{
}

} // verus!
