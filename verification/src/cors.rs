//! Cross-origin resource sharing: the configuration snapshot and the
//! headers it writes into a response, and the no-content response that
//! answers a preflight request.

use vstd::prelude::*;

use crate::headers::{hdr_insert, hdr_lookup};
use crate::num::{dec_str, u32_to_dec};
use crate::response::{Body, Response};
use crate::status::Status;
use crate::strutil::{clone_string_vec, join_spec, join_str, views_of};

verus! {

/// A CORS policy: allowed origins, methods and headers, whether
/// credentials are allowed, and how long a preflight answer may be
/// cached.
pub struct Cors {
    pub origins: Vec<String>,
    pub methods: Vec<String>,
    pub headers: Vec<String>,
    pub allow_credentials: bool,
    pub max_age: u32,
}

/// The headers a policy writes into a response, in order: the allowed
/// origins, methods and headers (each list joined with commas), the
/// credentials flag when credentials are allowed, and the max age.
pub open spec fn apply_cors_spec(
    c: Cors,
    h: Seq<(Seq<char>, Seq<char>)>,
) -> Seq<(Seq<char>, Seq<char>)> {
    let h1 = hdr_insert(
        h,
        "Access-Control-Allow-Origin"@,
        join_spec(views_of(c.origins@), ", "@),
    );
    let h2 = hdr_insert(
        h1,
        "Access-Control-Allow-Methods"@,
        join_spec(views_of(c.methods@), ", "@),
    );
    let h3 = hdr_insert(
        h2,
        "Access-Control-Allow-Headers"@,
        join_spec(views_of(c.headers@), ", "@),
    );
    let h4 = if c.allow_credentials {
        hdr_insert(h3, "Access-Control-Allow-Credentials"@, "true"@)
    } else {
        h3
    };
    hdr_insert(h4, "Access-Control-Max-Age"@, dec_str(c.max_age as int))
}

impl Cors {
    /// The policy that allows everything: any origin, the common methods
    /// and headers, credentials allowed, cached for a day.
    pub fn new() -> (r: Cors)
        ensures
            views_of(r.origins@) == seq!["*"@],
            views_of(r.methods@) == seq!["GET, POST, PUT, DELETE, PATCH, OPTIONS"@],
            views_of(r.headers@) == seq!["Content-Type, Authorization, X-Requested-With, Accept"@],
            r.allow_credentials == true,
            r.max_age == 86400,
    {
        let mut origins: Vec<String> = Vec::new();
        origins.push("*".to_owned());
        let mut methods: Vec<String> = Vec::new();
        methods.push("GET, POST, PUT, DELETE, PATCH, OPTIONS".to_owned());
        let mut headers: Vec<String> = Vec::new();
        headers.push("Content-Type, Authorization, X-Requested-With, Accept".to_owned());
        let r = Cors { origins, methods, headers, allow_credentials: true, max_age: 86400 };
        proof {
            assert(views_of(r.origins@) =~= seq!["*"@]);
            assert(views_of(r.methods@) =~= seq!["GET, POST, PUT, DELETE, PATCH, OPTIONS"@]);
            assert(views_of(r.headers@) =~= seq![
                "Content-Type, Authorization, X-Requested-With, Accept"@,
            ]);
        }
        r
    }

    /// An equal copy of this policy.
    pub fn dup(&self) -> (r: Cors)
        ensures
            views_of(r.origins@) == views_of(self.origins@),
            views_of(r.methods@) == views_of(self.methods@),
            views_of(r.headers@) == views_of(self.headers@),
            r.allow_credentials == self.allow_credentials,
            r.max_age == self.max_age,
            apply_cors_spec_eq(*self, r),
    {
        let r = Cors {
            origins: clone_string_vec(&self.origins),
            methods: clone_string_vec(&self.methods),
            headers: clone_string_vec(&self.headers),
            allow_credentials: self.allow_credentials,
            max_age: self.max_age,
        };
        proof {
            lemma_views_pin_cors(*self, r);
        }
        r
    }

    /// Writes this policy's headers into the response; its status and
    /// body stay as they were.
    pub fn apply_headers(&self, response: &mut Response)
        ensures
            final (response).headers@ == apply_cors_spec(*self, old(response).headers@),
            final (response).status == old(response).status,
            final (response).body == old(response).body,
    {
        response.insert_header(
            "Access-Control-Allow-Origin",
            join_str(&self.origins, ", "),
        );
        response.insert_header(
            "Access-Control-Allow-Methods",
            join_str(&self.methods, ", "),
        );
        response.insert_header(
            "Access-Control-Allow-Headers",
            join_str(&self.headers, ", "),
        );
        if self.allow_credentials {
            response.insert_header("Access-Control-Allow-Credentials", "true".to_owned());
        }
        response.insert_header("Access-Control-Max-Age", u32_to_dec(self.max_age));
    }

    /// The response with this policy's headers written in.
    pub fn apply_to_response(&self, response: Response) -> (r: Response)
        ensures
            r.headers@ == apply_cors_spec(*self, response.headers@),
            r.status == response.status,
            r.body == response.body,
    {
        let mut resp = response;
        self.apply_headers(&mut resp);
        resp
    }

    /// The answer to a preflight request: no content, carrying this
    /// policy's headers.
    pub fn preflight_response(&self) -> (r: Response)
        ensures
            r.status.code == 204,
            r.body matches Body::Text(t) && t@.len() == 0,
            r.headers@ == apply_cors_spec(*self, seq![("Content-Type"@, "text/plain"@)]),
    {
        let base = Response::from_status(Status::no_content());
        self.apply_to_response(base)
    }
}

/// What each CORS header reads once a policy is applied: the allowed
/// origins, methods and headers each joined with commas, the max age in
/// decimal, and the credentials flag standing exactly when credentials
/// are allowed — provided the headers written over carried no
/// credentials pair of their own. With `apply_to_response` and
/// `preflight_response` pinned to `apply_cors_spec`, this is what a
/// response that passed through a policy answers to each header name.
pub proof fn lemma_cors_header_values(c: Cors, h: Seq<(Seq<char>, Seq<char>)>)
    requires
        hdr_lookup(h, "Access-Control-Allow-Credentials"@) is None,
    ensures
        ({
            let r = apply_cors_spec(c, h);
            &&& hdr_lookup(r, "Access-Control-Allow-Origin"@) == Some(
                join_spec(views_of(c.origins@), ", "@),
            )
            &&& hdr_lookup(r, "Access-Control-Allow-Methods"@) == Some(
                join_spec(views_of(c.methods@), ", "@),
            )
            &&& hdr_lookup(r, "Access-Control-Allow-Headers"@) == Some(
                join_spec(views_of(c.headers@), ", "@),
            )
            &&& hdr_lookup(r, "Access-Control-Max-Age"@) == Some(dec_str(c.max_age as int))
            &&& hdr_lookup(r, "Access-Control-Allow-Credentials"@) == if c.allow_credentials {
                Some("true"@)
            } else {
                None::<Seq<char>>
            }
        }),
{
    reveal_strlit("Access-Control-Allow-Origin");
    reveal_strlit("Access-Control-Allow-Methods");
    reveal_strlit("Access-Control-Allow-Headers");
    reveal_strlit("Access-Control-Allow-Credentials");
    reveal_strlit("Access-Control-Max-Age");
    let ko = "Access-Control-Allow-Origin"@;
    let km = "Access-Control-Allow-Methods"@;
    let kh = "Access-Control-Allow-Headers"@;
    let kc = "Access-Control-Allow-Credentials"@;
    let ka = "Access-Control-Max-Age"@;
    assert(ko.len() == 27 && km.len() == 28 && kh.len() == 28 && kc.len() == 32 && ka.len()
        == 22);
    assert(km[21] == 'M' && kh[21] == 'H');
    assert(km != kh);
    let vo = join_spec(views_of(c.origins@), ", "@);
    let vm = join_spec(views_of(c.methods@), ", "@);
    let vh = join_spec(views_of(c.headers@), ", "@);
    let h1 = crate::headers::hdr_insert(h, ko, vo);
    let h2 = crate::headers::hdr_insert(h1, km, vm);
    let h3 = crate::headers::hdr_insert(h2, kh, vh);
    let h4 = if c.allow_credentials {
        crate::headers::hdr_insert(h3, kc, "true"@)
    } else {
        h3
    };
    crate::headers::lemma_lookup_insert_same(h, ko, vo);
    crate::headers::lemma_lookup_insert_other(h1, km, vm, ko);
    crate::headers::lemma_lookup_insert_same(h1, km, vm);
    crate::headers::lemma_lookup_insert_other(h2, kh, vh, ko);
    crate::headers::lemma_lookup_insert_other(h2, kh, vh, km);
    crate::headers::lemma_lookup_insert_same(h2, kh, vh);
    if c.allow_credentials {
        crate::headers::lemma_lookup_insert_other(h3, kc, "true"@, ko);
        crate::headers::lemma_lookup_insert_other(h3, kc, "true"@, km);
        crate::headers::lemma_lookup_insert_other(h3, kc, "true"@, kh);
        crate::headers::lemma_lookup_insert_same(h3, kc, "true"@);
    } else {
        crate::headers::lemma_lookup_insert_other(h1, km, vm, kc);
        crate::headers::lemma_lookup_insert_other(h2, kh, vh, kc);
        crate::headers::lemma_lookup_insert_other(h, ko, vo, kc);
    }
    crate::headers::lemma_lookup_insert_other(h4, ka, dec_str(c.max_age as int), ko);
    crate::headers::lemma_lookup_insert_other(h4, ka, dec_str(c.max_age as int), km);
    crate::headers::lemma_lookup_insert_other(h4, ka, dec_str(c.max_age as int), kh);
    crate::headers::lemma_lookup_insert_other(h4, ka, dec_str(c.max_age as int), kc);
    crate::headers::lemma_lookup_insert_same(h4, ka, dec_str(c.max_age as int));
}

/// The preflight answer carries the policy, header by header: each of
/// the five CORS headers of the no-content response reads as the policy
/// says, with the credentials flag present exactly when credentials are
/// allowed.
pub proof fn lemma_preflight_header_values(c: Cors)
    ensures
        ({
            let r = apply_cors_spec(c, seq![("Content-Type"@, "text/plain"@)]);
            &&& hdr_lookup(r, "Access-Control-Allow-Origin"@) == Some(
                join_spec(views_of(c.origins@), ", "@),
            )
            &&& hdr_lookup(r, "Access-Control-Allow-Methods"@) == Some(
                join_spec(views_of(c.methods@), ", "@),
            )
            &&& hdr_lookup(r, "Access-Control-Allow-Headers"@) == Some(
                join_spec(views_of(c.headers@), ", "@),
            )
            &&& hdr_lookup(r, "Access-Control-Max-Age"@) == Some(dec_str(c.max_age as int))
            &&& hdr_lookup(r, "Access-Control-Allow-Credentials"@) == if c.allow_credentials {
                Some("true"@)
            } else {
                None::<Seq<char>>
            }
        }),
{
    reveal_strlit("Content-Type");
    reveal_strlit("Access-Control-Allow-Credentials");
    let base = seq![("Content-Type"@, "text/plain"@)];
    assert("Content-Type"@.len() == 12 && "Access-Control-Allow-Credentials"@.len() == 32);
    assert(base[0].0 == "Content-Type"@);
    assert(base[0].0 != "Access-Control-Allow-Credentials"@);
    assert(base.drop_first() =~= Seq::<(Seq<char>, Seq<char>)>::empty());
    assert(hdr_lookup(base.drop_first(), "Access-Control-Allow-Credentials"@) is None);
    assert(hdr_lookup(base, "Access-Control-Allow-Credentials"@) is None);
    lemma_cors_header_values(c, base);
}

/// Two policies that read the same write the same headers.
pub open spec fn apply_cors_spec_eq(a: Cors, b: Cors) -> bool {
    forall|h: Seq<(Seq<char>, Seq<char>)>| apply_cors_spec(a, h) == apply_cors_spec(b, h)
}

/// A policy's effect on headers depends only on what its fields read as.
pub proof fn lemma_views_pin_cors(a: Cors, b: Cors)
    requires
        views_of(a.origins@) == views_of(b.origins@),
        views_of(a.methods@) == views_of(b.methods@),
        views_of(a.headers@) == views_of(b.headers@),
        a.allow_credentials == b.allow_credentials,
        a.max_age == b.max_age,
    ensures
        apply_cors_spec_eq(a, b),
{
}

} // verus!
