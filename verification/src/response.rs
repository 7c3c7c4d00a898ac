//! Responses: status, header multimap, and a body that is either one
//! buffer or a sequence of chunks; and the ordered rules that turn a
//! handler's result into a response.

use vstd::prelude::*;

use crate::headers::{hdr_insert, hdr_lookup, Headers};
use crate::status::Status;

verus! {

/// A response body: one text buffer, one byte buffer, or a lazy chunk
/// sequence.
pub enum Body {
    Text(String),
    Bytes(Vec<u8>),
    Chunks(Vec<Vec<u8>>),
}

/// A response body at the specification level.
#[verifier::ext_equal]
pub enum BodyView {
    Text(Seq<char>),
    Bytes(Seq<u8>),
    Chunks(Seq<Seq<u8>>),
}

impl View for Body {
    type V = BodyView;

    open spec fn view(&self) -> BodyView {
        match self {
            Body::Text(s) => BodyView::Text(s@),
            Body::Bytes(b) => BodyView::Bytes(b@),
            Body::Chunks(cs) => BodyView::Chunks(cs@.map_values(|c: Vec<u8>| c@)),
        }
    }
}

/// An HTTP response.
pub struct Response {
    pub status: Status,
    pub headers: Headers,
    pub body: Body,
}

/// A response at the specification level: its status code, header pairs,
/// and body.
#[verifier::ext_equal]
pub struct RespView {
    pub status: u16,
    pub headers: Seq<(Seq<char>, Seq<char>)>,
    pub body: BodyView,
}

impl View for Response {
    type V = RespView;

    open spec fn view(&self) -> RespView {
        RespView { status: self.status.code, headers: self.headers@, body: self.body@ }
    }
}

impl Response {
    /// A response with the given body and status, under one
    /// `Content-Type` header; a lazy chunk sequence is additionally
    /// marked uncacheable.
    pub fn new(body: Body, status: Status, content_type: &str) -> (r: Response)
        ensures
            r.status == status,
            r.body == body,
            r.headers@ == if body is Chunks {
                seq![("Content-Type"@, content_type@), ("Cache-Control"@, "no-cache"@)]
            } else {
                seq![("Content-Type"@, content_type@)]
            },
    {
        let streamed = matches!(body, Body::Chunks(_));
        let mut headers = Headers::with_one("Content-Type", content_type.to_owned());
        if streamed {
            headers.append("Cache-Control", "no-cache".to_owned());
            proof {
                assert(headers@ =~= seq![
                    ("Content-Type"@, content_type@),
                    ("Cache-Control"@, "no-cache"@),
                ]);
            }
        }
        proof {
            assert(headers@ == if body is Chunks {
                seq![("Content-Type"@, content_type@), ("Cache-Control"@, "no-cache"@)]
            } else {
                seq![("Content-Type"@, content_type@)]
            });
        }
        Response { status, headers, body }
    }

    /// A plain-text response.
    pub fn from_text(s: String, status: Status) -> (r: Response)
        ensures
            r.status == status,
            r.body == Body::Text(s),
            r.headers@ =~= seq![("Content-Type"@, "text/plain"@)],
    {
        Response::new(Body::Text(s), status, "text/plain")
    }

    /// A response whose body is already-encoded JSON text.
    pub fn from_json_text(s: String, status: Status) -> (r: Response)
        ensures
            r.status == status,
            r.body == Body::Text(s),
            r.headers@ =~= seq![("Content-Type"@, "application/json"@)],
    {
        Response::new(Body::Text(s), status, "application/json")
    }

    /// The empty plain-text response a bare status denotes.
    pub fn from_status(status: Status) -> (r: Response)
        ensures
            r.status == status,
            r.body matches Body::Text(t) && t@.len() == 0,
            r.headers@ =~= seq![("Content-Type"@, "text/plain"@)],
    {
        Response::from_text(String::new(), status)
    }

    /// Sets `key` to `value`, dropping existing pairs of that name.
    pub fn insert_header(&mut self, key: &str, value: String)
        ensures
            final (self).headers@ == hdr_insert(old(self).headers@, key@, value@),
            final (self).status == old(self).status,
            final (self).body == old(self).body,
    {
        self.headers.insert(key, value);
    }

    /// Adds the pair at the end, keeping existing pairs of that name.
    pub fn append_header(&mut self, key: &str, value: String)
        ensures
            final (self).headers@ == old(self).headers@.push((key@, value@)),
            final (self).status == old(self).status,
            final (self).body == old(self).body,
    {
        self.headers.append(key, value);
    }

    /// The same response with this text as its body.
    pub fn set_body(self, body: String) -> (r: Response)
        ensures
            r.status == self.status,
            r.headers == self.headers,
            r.body == Body::Text(body),
    {
        Response { status: self.status, headers: self.headers, body: Body::Text(body) }
    }

    /// Records a cookie header: appended beside an existing `Set-Cookie`
    /// pair, inserted otherwise.
    pub fn insert_or_append_cookie(&mut self, cookie_header: String)
        ensures
            final (self).headers@ == if hdr_lookup(old(self).headers@, "Set-Cookie"@) is Some {
                old(self).headers@.push(("Set-Cookie"@, cookie_header@))
            } else {
                hdr_insert(old(self).headers@, "Set-Cookie"@, cookie_header@)
            },
            final (self).status == old(self).status,
            final (self).body == old(self).body,
    {
        if self.headers.contains_key("Set-Cookie") {
            self.append_header("Set-Cookie", cookie_header);
        } else {
            self.insert_header("Set-Cookie", cookie_header);
        }
    }
}

/// A redirect: a response pointing the client at another location.
pub struct Redirect {
    pub location: String,
}

impl Redirect {
    /// A redirect to the given location.
    pub fn new(location: String) -> (r: Redirect)
        ensures
            r.location == location,
    {
        Redirect { location }
    }

    /// The moved-permanently response carrying the location header and an
    /// empty HTML body.
    pub fn response(&self) -> (r: Response)
        ensures
            r.status.code == 301,
            r.body matches Body::Text(t) && t@.len() == 0,
            r.headers@ =~= seq![("Content-Type"@, "text/html"@), ("Location"@, self.location@)],
    {
        let mut resp = Response::new(Body::Text(String::new()), Status::moved_permanently(), "text/html");
        resp.append_header("Location", self.location.clone());
        resp
    }
}

} // verus!
