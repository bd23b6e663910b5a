//! The local control API: who may use it, and what it answers.

use crate::text::{after_prefix, same_text, strip_prefix};
use vstd::prelude::*;

verus! {

pub const OK_STATUS: u16 = 200;

pub const UNAUTHORIZED: u16 = 401;

pub const NOT_IMPLEMENTED: u16 = 501;

/// Whether a request may be served. Without a token the API is reachable from this
/// machine alone, which the settings are checked for.
pub open spec fn authorized(token: Option<Seq<char>>, header: Option<Seq<char>>) -> bool {
    match token {
        None => true,
        Some(expected) => header matches Some(h) && after_prefix(h, "Bearer "@) == Some(expected),
    }
}

pub open spec fn seen(o: Option<&str>) -> Option<Seq<char>> {
    match o {
        Some(s) => Some(s@),
        None => None,
    }
}

/// Bearer check of an authorization header, where there is one that is text.
pub fn authorize(token: Option<&str>, header: Option<&str>) -> (r: Result<(), u16>)
    ensures
        authorized(seen(token), seen(header)) ==> r == Ok::<(), u16>(()),
        !authorized(seen(token), seen(header)) ==> r == Err::<(), u16>(UNAUTHORIZED),
{
    let expected = match token {
        Some(expected) => expected,
        None => return Ok(()),
    };
    let presented = match header {
        Some(h) => strip_prefix(h, "Bearer "),
        None => None,
    };
    match presented {
        Some(presented) => if same_text(presented.as_str(), expected) {
            Ok(())
        } else {
            Err(UNAUTHORIZED)
        },
        None => Err(UNAUTHORIZED),
    }
}

/// What is asked of the API.
#[derive(Clone, Copy, Debug, PartialEq, Eq, Structural)]
pub enum Route {
    /// Liveness. Deliberately open to everyone, so that a probe needs no credentials.
    Health,
    Status,
    StartInput,
    StopInput,
    Metrics,
}

/// The status of an answer.
pub fn answer(route: Route, token: Option<&str>, header: Option<&str>) -> (r: u16)
    ensures
        r == (if route == Route::Health {
            OK_STATUS
        } else if !authorized(seen(token), seen(header)) {
            UNAUTHORIZED
        } else if route == Route::StartInput || route == Route::StopInput {
            NOT_IMPLEMENTED
        } else {
            OK_STATUS
        }),
{
    if route == Route::Health {
        return OK_STATUS;
    }
    match authorize(token, header) {
        Err(status) => status,
        Ok(_) => if route == Route::StartInput || route == Route::StopInput {
            NOT_IMPLEMENTED
        } else {
            OK_STATUS
        },
    }
}

/// Where a token is set, nothing but liveness is answered to a request without exactly
/// that token.
pub proof fn law_a_token_guards_everything_but_liveness(
    token: Seq<char>,
    header: Option<Seq<char>>,
)
    requires
        header matches Some(h) ==> h != "Bearer "@ + token,
    ensures
        !authorized(Some(token), header),
{
    if let Some(h) = header {
        if after_prefix(h, "Bearer "@) == Some(token) {
            assert(h =~= "Bearer "@ + token);
        }
    }
}

/// A request is let in when it carries the token behind the scheme's name, and always
/// where no token is set; a token behind anything else, or alone, lets nobody in.
pub proof fn law_the_token_lets_a_request_in(
    token: Seq<char>,
    other: Seq<char>,
    header: Option<Seq<char>>,
)
    ensures
        authorized(Some(token), Some("Bearer "@ + token)),
        authorized(Some(token), Some("Bearer "@ + other)) <==> other == token,
        !authorized(Some(token), None),
        authorized(None, header),
{
    let h = "Bearer "@ + token;
    let o = "Bearer "@ + other;
    let n = "Bearer "@.len() as int;
    assert(h.subrange(0, n) =~= "Bearer "@);
    assert(h.subrange(n, h.len() as int) =~= token);
    assert(o.subrange(0, n) =~= "Bearer "@);
    assert(o.subrange(n, o.len() as int) =~= other);
}

} // verus!
