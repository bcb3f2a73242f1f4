//! Credentials for the monitored endpoints, and how their base URLs are
//! normalised.

use vstd::prelude::*;
use crate::text::chars_of;

verus! {

/// Authentication for Actuator endpoints.
#[derive(Debug, Clone)]
pub enum ActuatorAuth {
    NoAuth,
    Basic { username: String, password: String },
    Bearer { token: String },
}

impl Default for ActuatorAuth {
    /// No authentication.
    fn default() -> (r: ActuatorAuth)
        ensures
            r is NoAuth,
    {
        ActuatorAuth::NoAuth
    }
}

/// Authentication for a Jolokia agent.
#[derive(Debug, Clone)]
pub enum JolokiaAuth {
    NoAuth,
    Basic { username: String, password: String },
    Bearer { token: String },
}

impl Default for JolokiaAuth {
    /// No authentication.
    fn default() -> (r: JolokiaAuth)
        ensures
            r is NoAuth,
    {
        JolokiaAuth::NoAuth
    }
}

/// `str::trim_end_matches('/')`: every trailing slash dropped.
pub open spec fn without_trailing_slashes(s: Seq<char>) -> Seq<char>
    decreases s.len(),
{
    if s.len() > 0 && s.last() == '/' {
        without_trailing_slashes(s.drop_last())
    } else {
        s
    }
}

/// The base URL a client keeps: the given one without trailing slashes.
pub fn base_url_of(url: &str) -> (r: String)
    ensures
        r@ == without_trailing_slashes(url@),
{
    let v = chars_of(url);
    let mut n = v.len();
    assert(v@.take(n as int) =~= v@);
    while n > 0 && v[n - 1] == '/'
        invariant
            n <= v@.len(),
            without_trailing_slashes(v@) == without_trailing_slashes(v@.take(n as int)),
        decreases n,
    {
        assert(v@.take(n as int).drop_last() =~= v@.take(n - 1));
        n -= 1;
    }
    let r = crate::text::string_of(&crate::text::slice_of(&v, 0, n));
    assert(v@.subrange(0, n as int) =~= v@.take(n as int));
    r
}

} // verus!
