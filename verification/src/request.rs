//! The internal request: method, URI, headers, body and form data,
//! extension attributes, and the session handle; and the query-string
//! lookup on its URI.

use vstd::prelude::*;

use crate::headers::{hdr_lookup, Headers};
use crate::routing::pairs_view;
use crate::session::Session;
use crate::strutil::{no_sep, split_once_str, split_spec};

verus! {

/// The decoded (name, value) pairs of a query string in the
/// `application/x-www-form-urlencoded` syntax. They are a function of
/// the string alone.
pub uninterp spec fn form_pairs_of(q: Seq<char>) -> Seq<(Seq<char>, Seq<char>)>;

/// Relies on url::form_urlencoded::parse: decodes a query string into
/// its (name, value) pairs. The result depends on the input alone, and
/// an empty input has no pairs.
#[verifier::external_body]
fn parse_form_urlencoded(q: &str) -> (r: Vec<(String, String)>)
    ensures
        pairs_view(r@) == form_pairs_of(q@),
        q@.len() == 0 ==> r@.len() == 0,
{
    url::form_urlencoded::parse(q.as_bytes()).into_owned().collect()
}

/// The query component of a URI: what follows the first `?`, if any.
pub open spec fn query_of(uri: Seq<char>) -> Option<Seq<char>> {
    if no_sep(uri, '?') {
        None
    } else {
        Some(uri.skip(split_spec(uri, '?')[0].len() as int + 1))
    }
}

/// Whether a content type announces a multipart form body, which the
/// multipart collaborator is then asked to parse into form fields and
/// file entries.
pub fn is_multipart_content_type(content_type: &str) -> (r: bool)
    ensures
        r == (content_type@.len() >= "multipart/form-data"@.len() && content_type@.take(
            "multipart/form-data"@.len() as int,
        ) == "multipart/form-data"@),
{
    crate::strutil::str_starts_with(content_type, "multipart/form-data")
}

/// The refusal to shadow one of the request's own read-only parts with
/// an extension attribute.
#[derive(Clone, Copy, Debug, PartialEq, Eq, Structural)]
pub struct ReadOnlyAttr {}

/// The attribute names that belong to the request itself and cannot be
/// rebound.
pub open spec fn read_only_name(name: Seq<char>) -> bool {
    ||| name == "method"@
    ||| name == "uri"@
    ||| name == "headers"@
    ||| name == "body"@
    ||| name == "template"@
}

/// The value bound last under `name`, if any.
pub open spec fn ext_lookup(ext: Seq<(String, u64)>, name: Seq<char>) -> Option<u64>
    decreases ext.len(),
{
    if ext.len() == 0 {
        None
    } else if ext.last().0@ == name {
        Some(ext.last().1)
    } else {
        ext_lookup(ext.drop_last(), name)
    }
}

/// An incoming request as the processing stage sees it. Bodies of
/// uploaded files, application data and other collaborator-owned values
/// are carried by identifier.
pub struct Request {
    pub method: String,
    pub uri: String,
    pub headers: Headers,
    pub data: Option<String>,
    pub form: Option<Vec<(String, String)>>,
    pub files: Option<Vec<(String, u64)>>,
    pub ext: Vec<(String, u64)>,
    pub session: Option<Session>,
    pub app_data: Option<u64>,
}

impl Request {
    /// A fresh request with no body, form data, files, session or
    /// extension attributes.
    pub fn new(method: String, uri: String, headers: Headers) -> (r: Request)
        ensures
            r.method == method,
            r.uri == uri,
            r.headers == headers,
            r.data is None,
            r.form is None,
            r.files is None,
            r.ext@.len() == 0,
            r.session is None,
            r.app_data is None,
    {
        Request {
            method,
            uri,
            headers,
            data: None,
            form: None,
            files: None,
            ext: Vec::new(),
            session: None,
            app_data: None,
        }
    }

    /// The first value of the named request header.
    pub fn header(&self, name: &str) -> (r: Option<String>)
        ensures
            match r {
                Some(v) => hdr_lookup(self.headers@, name@) == Some(v@),
                None => hdr_lookup(self.headers@, name@) is None,
            },
    {
        self.headers.get(name)
    }

    /// The decoded query parameters of the request URI, or nothing when
    /// the URI has no query component.
    pub fn query(&self) -> (r: Option<Vec<(String, String)>>)
        ensures
            match r {
                Some(ps) => query_of(self.uri@) matches Some(q) && pairs_view(ps@)
                    == form_pairs_of(q),
                None => query_of(self.uri@) is None,
            },
    {
        match split_once_str(self.uri.as_str(), '?') {
            Some(pair) => {
                proof {
                    let i = choose|i: int|
                        {
                            &&& 0 <= i < self.uri@.len()
                            &&& self.uri@[i] == '?'
                            &&& (forall|j: int| 0 <= j < i ==> self.uri@[j] != '?')
                            &&& pair.0@ == self.uri@.take(i)
                            &&& pair.1@ == self.uri@.skip(i + 1)
                        };
                    crate::strutil::lemma_split_at_first(self.uri@, '?', i);
                    assert(split_spec(self.uri@, '?')[0] == self.uri@.take(i));
                }
                Some(parse_form_urlencoded(pair.1.as_str()))
            },
            None => None,
        }
    }

    /// The request's session handle.
    pub fn session(&self) -> (r: Option<Session>)
        ensures
            match r {
                Some(s) => self.session matches Some(own) && s == own,
                None => self.session is None,
            },
    {
        match &self.session {
            Some(s) => Some(s.dup()),
            None => None,
        }
    }

    /// Binds an extension attribute; a later binding shadows an earlier
    /// one of the same name. The names of the request's own read-only
    /// parts are refused, and the request is then left unchanged.
    pub fn set_ext(&mut self, name: String, value: u64) -> (r: Result<(), ReadOnlyAttr>)
        ensures
            r is Err <==> read_only_name(name@),
            final (self).ext@ == if read_only_name(name@) {
                old(self).ext@
            } else {
                old(self).ext@.push((name, value))
            },
            final (self).method == old(self).method,
            final (self).uri == old(self).uri,
            final (self).headers == old(self).headers,
            final (self).data == old(self).data,
            final (self).form == old(self).form,
            final (self).files == old(self).files,
            final (self).session == old(self).session,
            final (self).app_data == old(self).app_data,
    {
        let reserved = crate::strutil::str_eq(name.as_str(), "method") || crate::strutil::str_eq(
            name.as_str(),
            "uri",
        ) || crate::strutil::str_eq(name.as_str(), "headers") || crate::strutil::str_eq(
            name.as_str(),
            "body",
        ) || crate::strutil::str_eq(name.as_str(), "template");
        if reserved {
            return Err(ReadOnlyAttr {});
        }
        self.ext.push((name, value));
        Ok(())
    }

    /// The extension attribute bound last under `name`.
    pub fn get_ext(&self, name: &str) -> (r: Option<u64>)
        ensures
            r == ext_lookup(self.ext@, name@),
    {
        let n = self.ext.len();
        let mut i: usize = n;
        proof {
            assert(self.ext@.take(n as int) =~= self.ext@);
        }
        while i > 0
            invariant
                i <= n,
                n == self.ext@.len(),
                ext_lookup(self.ext@, name@) == ext_lookup(self.ext@.take(i as int), name@),
            decreases i,
        {
            proof {
                assert(self.ext@.take(i as int).last() == self.ext@[i - 1]);
                assert(self.ext@.take(i as int).drop_last() =~= self.ext@.take(i - 1));
            }
            if crate::strutil::str_eq(self.ext[i - 1].0.as_str(), name) {
                return Some(self.ext[i - 1].1);
            }
            i = i - 1;
        }
        None
    }
}

} // verus!
