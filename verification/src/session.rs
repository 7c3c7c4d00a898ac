//! Sessions: the handle a request carries, the store configuration, the
//! session-id lookup in a cookie header, and the cookie the processing
//! stage writes back.

use vstd::prelude::*;

use crate::headers::{hdr_insert, hdr_lookup};
use crate::response::Response;
use crate::strutil::{
    no_sep, split_once_str, split_spec, split_str, str_eq, trim_spec, trim_str,
};

verus! {

/// A session handle: the identifier under which the store keeps its data.
pub struct Session {
    pub id: String,
}

impl Session {
    /// A handle for the given identifier.
    pub fn new(id: String) -> (r: Session)
        ensures
            r.id == id,
    {
        Session { id }
    }

    /// An equal copy of this handle.
    pub fn dup(&self) -> (r: Session)
        ensures
            r == *self,
    {
        Session { id: self.id.clone() }
    }
}

/// The session-store configuration the dispatch core reads: the name of
/// the cookie that carries the session identifier. Resolving and
/// persisting sessions is the store collaborator's own work.
pub struct SessionStore {
    pub cookie_name: String,
}

impl SessionStore {
    /// A store configuration using the given cookie name.
    pub fn new(cookie_name: String) -> (r: SessionStore)
        ensures
            r.cookie_name == cookie_name,
    {
        SessionStore { cookie_name }
    }
}

/// What one `name=value` piece of a cookie header binds, after trimming
/// the piece, its name and its value: the value stands under the name
/// exactly when the piece holds an `=`.
pub open spec fn cookie_piece_value(piece: Seq<char>, name: Seq<char>) -> Option<Seq<char>> {
    let t = trim_spec(piece);
    if !no_sep(t, '=') {
        let before = split_spec(t, '=')[0];
        if trim_spec(before) == name {
            Some(trim_spec(t.skip(before.len() as int + 1)))
        } else {
            None
        }
    } else {
        None
    }
}

/// The value the first matching piece binds to `name`, if any.
pub open spec fn cookie_value_from(pieces: Seq<Seq<char>>, name: Seq<char>) -> Option<Seq<char>>
    decreases pieces.len(),
{
    if pieces.len() == 0 {
        None
    } else {
        match cookie_piece_value(pieces[0], name) {
            Some(v) => Some(v),
            None => cookie_value_from(pieces.drop_first(), name),
        }
    }
}

/// The value bound to `name` in a cookie header: its `;`-separated
/// pieces are searched in order.
pub open spec fn cookie_value(cookies: Seq<char>, name: Seq<char>) -> Option<Seq<char>> {
    cookie_value_from(split_spec(cookies, ';'), name)
}

/// Finds the session identifier in a cookie header: the value of the
/// first `name=value` piece whose trimmed name is the store's cookie
/// name.
#[verifier::loop_isolation(false)]
pub fn extract_session_id_from_cookie(cookie_header: Option<&String>, cookie_name: &str) -> (r:
    Option<String>)
    ensures
        match cookie_header {
            Some(h) => match r {
                Some(v) => cookie_value(h@, cookie_name@) == Some(v@),
                None => cookie_value(h@, cookie_name@) is None,
            },
            None => r is None,
        },
{
    let h = match cookie_header {
        Some(h) => h,
        None => {
            return None;
        },
    };
    let pieces = split_str(h.as_str(), ';');
    let ghost pv = crate::strutil::views_of(pieces@);
    let n = pieces.len();
    let mut i: usize = 0;
    proof {
        assert(pv.skip(0) =~= pv);
    }
    while i < n
        invariant
            i <= n,
            n == pieces@.len(),
            cookie_value(h@, cookie_name@) == cookie_value_from(pv.skip(i as int), cookie_name@),
        decreases n - i,
    {
        proof {
            assert(pv.skip(i as int)[0] == pv[i as int]);
            assert(pv.skip(i as int).drop_first() =~= pv.skip(i + 1));
        }
        let t = trim_str(pieces[i].as_str());
        match split_once_str(t, '=') {
            Some(pair) => {
                proof {
                    let k = choose|k: int|
                        {
                            &&& 0 <= k < t@.len()
                            &&& t@[k] == '='
                            &&& (forall|j: int| 0 <= j < k ==> t@[j] != '=')
                            &&& pair.0@ == t@.take(k)
                            &&& pair.1@ == t@.skip(k + 1)
                        };
                    crate::strutil::lemma_split_at_first(t@, '=', k);
                    assert(split_spec(t@, '=')[0] == t@.take(k));
                    assert(!no_sep(t@, '='));
                }
                let nm = trim_str(pair.0.as_str());
                if str_eq(nm, cookie_name) {
                    let vl = trim_str(pair.1.as_str());
                    return Some(vl.to_owned());
                }
            },
            None => {},
        }
        i = i + 1;
    }
    proof {
        assert(pv.skip(n as int).len() == 0);
    }
    None
}

/// The cookie header written for a session: the store's cookie name
/// bound to the session identifier, valid for the whole site and kept
/// from scripts.
pub open spec fn session_cookie_spec(name: Seq<char>, id: Seq<char>) -> Seq<char> {
    name + "="@ + id + "; Path=/; HttpOnly"@
}

/// Writes the session cookie header for `session` into the response:
/// appended beside an existing `Set-Cookie` pair, inserted otherwise.
pub fn set_session_cookie(response: &mut Response, session: &Session, store: &SessionStore)
    ensures
        final (response).headers@ == if hdr_lookup(old(response).headers@, "Set-Cookie"@)
            is Some {
            old(response).headers@.push(
                ("Set-Cookie"@, session_cookie_spec(store.cookie_name@, session.id@)),
            )
        } else {
            hdr_insert(
                old(response).headers@,
                "Set-Cookie"@,
                session_cookie_spec(store.cookie_name@, session.id@),
            )
        },
        final (response).status == old(response).status,
        final (response).body == old(response).body,
{
    let mut cookie = store.cookie_name.clone();
    cookie.append("=");
    cookie.append(session.id.as_str());
    cookie.append("; Path=/; HttpOnly");
    response.insert_or_append_cookie(cookie);
}

} // verus!
