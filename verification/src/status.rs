//! HTTP status codes, carried as their bare three-digit number.

use vstd::prelude::*;

verus! {

/// The status line of a response, as its numeric code.
#[derive(Clone, Copy, Debug, PartialEq, Eq, Structural)]
pub struct Status {
    pub code: u16,
}

impl Status {
    /// A status with the given numeric code.
    pub fn from_code(code: u16) -> (r: Status)
        ensures
            r.code == code,
    {
        Status { code }
    }

    /// 200 OK.
    pub fn ok() -> (r: Status)
        ensures
            r.code == 200,
    {
        Status { code: 200 }
    }

    /// 204 No Content.
    pub fn no_content() -> (r: Status)
        ensures
            r.code == 204,
    {
        Status { code: 204 }
    }

    /// 301 Moved Permanently.
    pub fn moved_permanently() -> (r: Status)
        ensures
            r.code == 301,
    {
        Status { code: 301 }
    }

    /// 400 Bad Request.
    pub fn bad_request() -> (r: Status)
        ensures
            r.code == 400,
    {
        Status { code: 400 }
    }

    /// 401 Unauthorized.
    pub fn unauthorized() -> (r: Status)
        ensures
            r.code == 401,
    {
        Status { code: 401 }
    }

    /// 404 Not Found.
    pub fn not_found() -> (r: Status)
        ensures
            r.code == 404,
    {
        Status { code: 404 }
    }

    /// 500 Internal Server Error.
    pub fn internal_server_error() -> (r: Status)
        ensures
            r.code == 500,
    {
        Status { code: 500 }
    }
}

} // verus!
