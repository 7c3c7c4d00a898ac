//! The serialized processing stage's per-message work: binding captured
//! path parameters, and assembling the final response from a handler's
//! outcome in the fixed post-processing order — session cookie first,
//! then CORS headers, then the catcher lookup.

use vstd::prelude::*;

use crate::cors::{apply_cors_spec, Cors};
use crate::catcher::{catcher_lookup, find_catcher, Catcher};
use crate::headers::{hdr_insert, hdr_lookup};
use crate::into_response::{
    convert_spec, convert_to_response, error_response, error_response_spec, HandlerError,
    HandlerErrorKind, HandlerValue,
};
use crate::num::{is_int_str, int_str_val, parse_i64};
use crate::response::{RespView, Response};
use crate::routing::pairs_view;
use crate::session::{session_cookie_spec, set_session_cookie, Session, SessionStore};
use crate::strutil::{no_sep, split_once_str, split_spec, str_eq};

verus! {

/// A path parameter bound for the handler: left a string, or parsed as a
/// signed integer where the parameter name asked for one.
pub enum BoundValue {
    Int(i64),
    Str(String),
}

/// A bound parameter value at the specification level.
#[verifier::ext_equal]
pub enum BoundView {
    Int(int),
    Str(Seq<char>),
}

impl View for BoundValue {
    type V = BoundView;

    open spec fn view(&self) -> BoundView {
        match self {
            BoundValue::Int(n) => BoundView::Int(*n as int),
            BoundValue::Str(s) => BoundView::Str(s@),
        }
    }
}

/// The views of a list of bound parameters.
pub open spec fn bound_view(v: Seq<(String, BoundValue)>) -> Seq<(Seq<char>, BoundView)> {
    v.map_values(|p: (String, BoundValue)| (p.0@, p.1@))
}

/// The declared type of a parameter key, where the key is written
/// `name:type`; nothing for a plain key.
pub open spec fn key_ty(k: Seq<char>) -> Option<Seq<char>> {
    if no_sep(k, ':') {
        None
    } else {
        Some(k.skip(split_spec(k, ':')[0].len() as int + 1))
    }
}

/// Whether a parameter key declares a supported type: none, `str`, or
/// `int`.
pub open spec fn ty_supported(k: Seq<char>) -> bool {
    match key_ty(k) {
        None => true,
        Some(t) => t == "str"@ || t == "int"@,
    }
}

/// What one captured parameter binds: a plain key keeps its value as a
/// string under the key; `name:str` binds the value as a string under
/// `name`; `name:int` binds the value read as a decimal integer under
/// `name`, and fails when the value is no integer or does not fit.
pub open spec fn bind_one(k: Seq<char>, v: Seq<char>) -> Option<(Seq<char>, BoundView)> {
    if no_sep(k, ':') {
        Some((k, BoundView::Str(v)))
    } else {
        let name = split_spec(k, ':')[0];
        let ty = k.skip(name.len() as int + 1);
        if ty == "str"@ {
            Some((name, BoundView::Str(v)))
        } else if ty == "int"@ {
            if is_int_str(v) && -0x8000_0000_0000_0000 <= int_str_val(v)
                < 0x8000_0000_0000_0000 {
                Some((name, BoundView::Int(int_str_val(v))))
            } else {
                None
            }
        } else {
            None
        }
    }
}

/// What a parameter list binds, in order; nothing as soon as one
/// parameter fails to bind.
pub open spec fn bind_all(pairs: Seq<(Seq<char>, Seq<char>)>) -> Option<
    Seq<(Seq<char>, BoundView)>,
>
    decreases pairs.len(),
{
    if pairs.len() == 0 {
        Some(Seq::<(Seq<char>, BoundView)>::empty())
    } else {
        match bind_one(pairs[0].0, pairs[0].1) {
            None => None,
            Some(b) => match bind_all(pairs.drop_first()) {
                None => None,
                Some(rest) => Some(seq![b] + rest),
            },
        }
    }
}

/// The failure of parameter binding: a value declared `int` that is no
/// integer or does not fit.
#[derive(Clone, Copy, Debug, PartialEq, Eq, Structural)]
pub struct BindError {}

/// Binds the captured parameters for the handler invocation, in order.
#[verifier::loop_isolation(false)]
pub fn bind_params(params: &Vec<(String, String)>) -> (r: Result<
    Vec<(String, BoundValue)>,
    BindError,
>)
    requires
        forall|i: int|
            0 <= i < params@.len() ==> ty_supported(#[trigger] pairs_view(params@)[i].0),
    ensures
        match r {
            Ok(b) => bind_all(pairs_view(params@)) == Some(bound_view(b@)),
            Err(_) => bind_all(pairs_view(params@)) is None,
        },
{
    let ghost pv = pairs_view(params@);
    let n = params.len();
    let mut out: Vec<(String, BoundValue)> = Vec::new();
    let mut i: usize = 0;
    proof {
        assert(pv.skip(0) =~= pv);
        assert(bound_view(out@) =~= Seq::<(Seq<char>, BoundView)>::empty());
    }
    while i < n
        invariant
            i <= n,
            n == params@.len(),
            bind_all(pv) is Some <==> bind_all(pv.skip(i as int)) is Some,
            bind_all(pv) matches Some(all) ==> bind_all(pv.skip(i as int)) matches Some(rest)
                && all == bound_view(out@) + rest,
        decreases n - i,
    {
        let ghost suf = pv.skip(i as int);
        proof {
            assert(suf[0] == pv[i as int]);
            assert(suf.drop_first() =~= pv.skip(i + 1));
        }
        let key = &params[i].0;
        let value = &params[i].1;
        match split_once_str(key.as_str(), ':') {
            Some(pair) => {
                proof {
                    let k = choose|k: int|
                        {
                            &&& 0 <= k < key@.len()
                            &&& key@[k] == ':'
                            &&& (forall|j: int| 0 <= j < k ==> key@[j] != ':')
                            &&& pair.0@ == key@.take(k)
                            &&& pair.1@ == key@.skip(k + 1)
                        };
                    crate::strutil::lemma_split_at_first(key@, ':', k);
                    assert(split_spec(key@, ':')[0] == key@.take(k));
                    assert(!no_sep(key@, ':'));
                    reveal_strlit("int");
                    reveal_strlit("str");
                    assert("int"@[0] != "str"@[0]);
                }
                if str_eq(pair.1.as_str(), "int") {
                    match parse_i64(value.as_str()) {
                        Some(parsed) => {
                            out.push((pair.0, BoundValue::Int(parsed)));
                            proof {
                                assert(bind_one(suf[0].0, suf[0].1) == Some(
                                    (pair.0@, BoundView::Int(parsed as int)),
                                ));
                            }
                        },
                        None => {
                            proof {
                                assert(bind_one(suf[0].0, suf[0].1) is None);
                                assert(bind_all(suf) is None);
                            }
                            return Err(BindError {});
                        },
                    }
                } else if str_eq(pair.1.as_str(), "str") {
                    out.push((pair.0, BoundValue::Str(value.clone())));
                    proof {
                        assert(bind_one(suf[0].0, suf[0].1) == Some(
                            (pair.0@, BoundView::Str(value@)),
                        ));
                    }
                } else {
                    proof {
                        assert(pairs_view(params@)[i as int].0 == key@);
                        assert(false);
                    }
                    return Err(BindError {});
                }
            },
            None => {
                out.push((key.clone(), BoundValue::Str(value.clone())));
                proof {
                    assert(bind_one(suf[0].0, suf[0].1) == Some((key@, BoundView::Str(value@))));
                }
            },
        }
        proof {
            let b = bind_one(suf[0].0, suf[0].1);
            assert(b is Some);
            assert(bound_view(out@).last() == b.unwrap());
            assert(bound_view(out@) =~= bound_view(out@.drop_last()).push(b.unwrap()));
            match bind_all(pv) {
                Some(all) => {
                    let rest = bind_all(suf).unwrap();
                    let rest2 = bind_all(pv.skip(i + 1)).unwrap();
                    assert(rest =~= seq![b.unwrap()] + rest2);
                    assert(bound_view(out@.drop_last()).push(b.unwrap()) + rest2 =~= bound_view(
                        out@.drop_last(),
                    ) + (seq![b.unwrap()] + rest2));
                    assert(all =~= bound_view(out@) + rest2);
                },
                None => {},
            }
        }
        i = i + 1;
    }
    proof {
        assert(pv.skip(n as int).len() == 0);
        assert(bind_all(pv.skip(n as int)) == Some(Seq::<(Seq<char>, BoundView)>::empty()));
        match bind_all(pv) {
            Some(all) => {
                assert(all =~= bound_view(out@));
            },
            None => {},
        }
    }
    Ok(out)
}

/// A response with the session cookie header written in.
pub open spec fn with_session_cookie(r: RespView, cookie: Seq<char>) -> RespView {
    RespView {
        status: r.status,
        body: r.body,
        headers: if hdr_lookup(r.headers, "Set-Cookie"@) is Some {
            r.headers.push(("Set-Cookie"@, cookie))
        } else {
            hdr_insert(r.headers, "Set-Cookie"@, cookie)
        },
    }
}

/// A response with a CORS policy's headers written in.
pub open spec fn with_cors(c: Cors, r: RespView) -> RespView {
    RespView { status: r.status, body: r.body, headers: apply_cors_spec(c, r.headers) }
}

/// The response a handler outcome yields before post-processing: the
/// converted value on success, the error response on failure, and the
/// conversion-failure response for an unsupported shape.
pub open spec fn base_response_spec(outcome: Result<HandlerValue, HandlerError>) -> RespView {
    match outcome {
        Ok(v) => match convert_spec(v@) {
            Some(rv) => rv,
            None => error_response_spec(
                HandlerErrorKind::Other,
                "Failed to convert this type to response"@,
            ),
        },
        Err(e) => error_response_spec(e.kind, e.message@),
    }
}

/// The final response for a handler outcome: the base response, then the
/// session cookie if one is owed, then the CORS headers if a policy is
/// configured — in that order.
pub open spec fn prepare_spec(
    outcome: Result<HandlerValue, HandlerError>,
    cookie: Option<Seq<char>>,
    cors: Option<Cors>,
) -> RespView {
    let r0 = base_response_spec(outcome);
    let r1 = match cookie {
        Some(ck) => with_session_cookie(r0, ck),
        None => r0,
    };
    match cors {
        Some(c) => with_cors(c, r1),
        None => r1,
    }
}

/// Assembles the response for a handler outcome: conversion or error
/// response first, then the session cookie when the request carries a
/// session and a store is configured, then the CORS headers when a
/// policy is configured.
pub fn prepare_response(
    outcome: Result<HandlerValue, HandlerError>,
    session: Option<&Session>,
    store: Option<&SessionStore>,
    cors: Option<&Cors>,
) -> (r: Response)
    ensures
        r@ == prepare_spec(
            outcome,
            match (session, store) {
                (Some(s), Some(st)) => Some(session_cookie_spec(st.cookie_name@, s.id@)),
                _ => None,
            },
            match cors {
                Some(c) => Some(*c),
                None => None,
            },
        ),
{
    let mut resp = match outcome {
        Ok(v) => match convert_to_response(v) {
            Ok(converted) => converted,
            Err(_) => error_response(
                HandlerError {
                    kind: HandlerErrorKind::Other,
                    message: "Failed to convert this type to response".to_owned(),
                },
            ),
        },
        Err(e) => error_response(e),
    };
    match (session, store) {
        (Some(s), Some(st)) => {
            set_session_cookie(&mut resp, s, st);
        },
        _ => {},
    }
    match cors {
        Some(c) => {
            c.apply_headers(&mut resp);
        },
        None => {},
    }
    resp
}

/// The catcher owed for the final response's status, looked up in the
/// snapshot the message carries.
pub fn pick_catcher(catchers: &Vec<Catcher>, resp: &Response) -> (r: Option<u64>)
    ensures
        r == catcher_lookup(catchers@, resp.status.code),
{
    find_catcher(catchers, resp.status)
}

} // verus!
