use vstd::prelude::*;
use vstd::string::*;

use crate::response::{HttpResponse, ResponseBody};

verus! {

/// A secret held by the persistence layer: an opaque byte blob with an
/// optional display filename.  Absent content (`None`) is a valid state of
/// its own, distinct from empty content (`Some` of an empty vector), and
/// content and filename are independent of each other.
pub struct Secret {
    pub uuid: u128,
    pub file_name: Option<String>,
    pub contents: Option<Vec<u8>>,
}

/// The `content-disposition` header value a secret is served with: a bare
/// attachment hint, or one naming the secret's filename.
pub open spec fn spec_disposition(file_name: Option<Seq<char>>) -> Seq<char> {
    match file_name {
        None => "attachment"@,
        Some(name) => "attachment; filename=\""@ + name + "\""@,
    }
}

/// The spec-level view of an optional filename.
pub open spec fn spec_name_view(file_name: Option<String>) -> Option<Seq<char>> {
    match file_name {
        None => None,
        Some(name) => Some(name@),
    }
}

/// What serving a secret must produce: a bare `204` when the secret has
/// no content, otherwise a `200` whose body is exactly the content bytes,
/// with the attachment disposition hint naming the filename when one is
/// set.
pub open spec fn spec_serves_secret(secret: Secret, resp: HttpResponse) -> bool {
    if secret.contents is None {
        resp == HttpResponse::spec_empty(204)
    } else {
        &&& resp.status == 200
        &&& !resp.json
        &&& resp.body matches ResponseBody::Blob(bytes) && bytes@ == secret.contents->0@
        &&& resp.content_disposition matches Some(header) && header@ == spec_disposition(
            spec_name_view(secret.file_name),
        )
    }
}

impl Secret {
    /// The status code a secret renders to: `204` when it has no content
    /// at all, `200` when it has content, however short.
    pub open spec fn spec_render_status(self) -> u16 {
        if self.contents is None {
            204
        } else {
            200
        }
    }

    /// Renders the secret for the caller.  A secret with no content at all
    /// becomes a bare `204 No Content`.  A secret with content — even
    /// zero-length content — becomes a `200` carrying the raw bytes and an
    /// attachment `content-disposition` hint, which names the filename
    /// exactly when the secret has one.
    pub fn render(self) -> (resp: HttpResponse)
        ensures
            resp.status == self.spec_render_status(),
            spec_serves_secret(self, resp),
    {
        let disposition: String = match &self.file_name {
            None => String::from_str("attachment"),
            Some(name) => {
                let mut header = String::from_str("attachment; filename=\"");
                header.append(name.as_str());
                header.append("\"");
                proof {
                    assert(header@ =~= "attachment; filename=\""@ + name@ + "\""@);
                }
                header
            },
        };
        match self.contents {
            None => HttpResponse::empty(204),
            Some(contents) => HttpResponse {
                status: 200,
                json: false,
                content_disposition: Some(disposition),
                body: ResponseBody::Blob(contents),
            },
        }
    }
}

/// A secret with no content and a secret with content — zero-length
/// content included — render to different status codes: absence of
/// content is observable at the protocol layer, not hidden behind an
/// empty body.
pub proof fn lemma_no_content_distinguishable(absent: Secret, present: Secret)
    requires
        absent.contents is None,
        present.contents is Some,
    ensures
        absent.spec_render_status() != present.spec_render_status(),
        absent.spec_render_status() == 204,
        present.spec_render_status() == 200,
{
}

} // verus!
