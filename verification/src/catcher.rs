//! Catchers: per-status override handlers, their table, and the
//! substitution rule for a catcher's result.

use vstd::prelude::*;

use crate::into_response::{
    convert_spec, convert_to_response, HandlerError, HandlerValue,
};
use crate::response::Response;
use crate::status::Status;

verus! {

/// A catcher: the handler called in place of a response of this status.
/// The handler itself lives outside the library.
#[derive(Clone, Copy, PartialEq, Eq, Structural)]
pub struct Catcher {
    pub status: Status,
    pub handler: u64,
}

impl Catcher {
    /// A catcher for the given status.
    pub fn new(status: Status, handler: u64) -> (r: Catcher)
        ensures
            r.status == status,
            r.handler == handler,
    {
        Catcher { status, handler }
    }
}

/// A catcher for the given status.
pub fn catcher(status: Status, handler: u64) -> (r: Catcher)
    ensures
        r.status == status,
        r.handler == handler,
{
    Catcher::new(status, handler)
}

/// The handler of the catcher registered last for this status code: a
/// later registration for the same status replaces an earlier one.
pub open spec fn catcher_lookup(cs: Seq<Catcher>, code: u16) -> Option<u64>
    decreases cs.len(),
{
    if cs.len() == 0 {
        None
    } else if cs.last().status.code == code {
        Some(cs.last().handler)
    } else {
        catcher_lookup(cs.drop_last(), code)
    }
}

/// Finds the catcher registered for this status, if any.
#[verifier::loop_isolation(false)]
pub fn find_catcher(catchers: &Vec<Catcher>, status: Status) -> (r: Option<u64>)
    ensures
        r == catcher_lookup(catchers@, status.code),
{
    let n = catchers.len();
    let mut i: usize = n;
    proof {
        assert(catchers@.take(n as int) =~= catchers@);
    }
    while i > 0
        invariant
            i <= n,
            n == catchers@.len(),
            catcher_lookup(catchers@, status.code) == catcher_lookup(
                catchers@.take(i as int),
                status.code,
            ),
        decreases i,
    {
        proof {
            assert(catchers@.take(i as int).last() == catchers@[i - 1]);
            assert(catchers@.take(i as int).drop_last() =~= catchers@.take(i - 1));
        }
        if catchers[i - 1].status.code == status.code {
            return Some(catchers[i - 1].handler);
        }
        i = i - 1;
    }
    None
}

/// Settles a catcher invocation: the catcher's successful result
/// replaces the original response when it converts to a valid response;
/// a catcher failure, an unconvertible result, or no invocation at all
/// leaves the original response intact.
pub fn apply_catcher_outcome(
    original: Response,
    outcome: Option<Result<HandlerValue, HandlerError>>,
) -> (r: Response)
    ensures
        match outcome {
            Some(Ok(v)) => (convert_spec(v@) matches Some(cv) ==> r@ == cv) && (convert_spec(v@)
                is None ==> r@ == original@),
            Some(Err(_)) => r@ == original@,
            None => r@ == original@,
        },
{
    match outcome {
        Some(Ok(v)) => match convert_to_response(v) {
            Ok(replacement) => replacement,
            Err(_) => original,
        },
        Some(Err(_)) => original,
        None => original,
    }
}

} // verus!
