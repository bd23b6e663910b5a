//! Open Live authentication: a static key sent as it is, or an OSC personal access token
//! exchanged for a short-lived service token.

use crate::openlive::{expiring, is_expiring, CachedToken};
use crate::text::{quote, quoted_text, same_text};
use vstd::prelude::*;

verus! {

/// How requests to Open Live authenticate.
#[derive(Debug)]
pub enum Auth {
    /// A static bearer token.
    Direct { key: String },
    /// A personal access token, exchanged for a short-lived one.
    Osc { pat: String, cache: Option<CachedToken> },
}

/// What a request needs before it can be sent.
#[derive(Debug)]
pub enum Bearer {
    /// Send this token.
    Present(String),
    /// Exchange this personal access token first.
    Exchange(String),
}

/// What is said of an authentication mode that does not exist.
pub open spec fn unknown_mode(mode: Seq<char>) -> Seq<char> {
    "unknown open_live.auth_mode "@ + quoted_text(mode) + " (expected \"direct\" or \"osc\")"@
}

impl Auth {
    /// A mode that is neither of the two is refused rather than defaulted.
    pub fn new(mode: &str, key: &str) -> (r: Result<Auth, String>)
        ensures
            if mode@ == "direct"@ {
                r matches Ok(Auth::Direct { key: k }) && k@ == key@
            } else if mode@ == "osc"@ {
                r matches Ok(Auth::Osc { pat, cache }) && pat@ == key@ && cache is None
            } else {
                r matches Err(e) && e@ == unknown_mode(mode@)
            },
    {
        if same_text(mode, "direct") {
            Ok(Auth::Direct { key: key.to_owned() })
        } else if same_text(mode, "osc") {
            Ok(Auth::Osc { pat: key.to_owned(), cache: None })
        } else {
            Err(
                "unknown open_live.auth_mode ".to_owned().concat(quote(mode).as_str()).concat(
                    " (expected \"direct\" or \"osc\")",
                ),
            )
        }
    }

    /// The bearer token for a request at `now`, or that one has to be exchanged first.
    pub fn bearer(&self, now: u64) -> (r: Bearer)
        ensures
            match self {
                Auth::Direct { key } => r matches Bearer::Present(k) && k@ == key@,
                Auth::Osc { pat, cache } => match cache {
                    Some(c) => if !expiring(c.expires_at, now) {
                        r matches Bearer::Present(k) && k@ == c.token@
                    } else {
                        r matches Bearer::Exchange(p) && p@ == pat@
                    },
                    None => r matches Bearer::Exchange(p) && p@ == pat@,
                },
            },
    {
        match self {
            Auth::Direct { key } => Bearer::Present(key.clone()),
            Auth::Osc { pat, cache } => {
                if let Some(c) = cache {
                    if !is_expiring(c, now) {
                        return Bearer::Present(c.token.clone());
                    }
                }
                Bearer::Exchange(pat.clone())
            },
        }
    }

    /// Keeps an exchanged token and presents it. A static key is not replaced.
    pub fn accept(&mut self, fresh: CachedToken) -> (r: String)
        ensures
            match *old(self) {
                Auth::Direct { key } => *final(self) == *old(self) && r@ == key@,
                Auth::Osc { pat, .. } => *final(self) == (Auth::Osc { pat, cache: Some(fresh) })
                    && r@ == fresh.token@,
            },
    {
        match self {
            Auth::Direct { key } => key.clone(),
            Auth::Osc { cache, .. } => {
                let token = fresh.token.clone();
                *cache = Some(fresh);
                token
            },
        }
    }
}

} // verus!
