//! How many requests one client address may make.

use vstd::prelude::*;

verus! {

/// A request budget: `per_second` requests are given back every second, and no more
/// than `burst_size` can be saved up.
#[derive(Clone, Copy, Debug, PartialEq, Eq, Structural)]
pub struct RateLimit {
    /// Requests given back per second.
    pub per_second: u64,
    /// Most requests in one burst.
    pub burst_size: u32,
}

/// The budget of the login and logout endpoints: tight, since each login attempt is a
/// guess at a password.
pub fn login_rate_limit() -> (limit: RateLimit)
    ensures
        limit == (RateLimit { per_second: 1, burst_size: 5 }),
{
    RateLimit { per_second: 1, burst_size: 5 }
}

/// The budget of the endpoints that change content.
pub fn admin_rate_limit() -> (limit: RateLimit)
    ensures
        limit == (RateLimit { per_second: 1, burst_size: 3 }),
{
    RateLimit { per_second: 1, burst_size: 3 }
}

/// The budget of the public endpoints.
pub fn public_rate_limit() -> (limit: RateLimit)
    ensures
        limit == (RateLimit { per_second: 5, burst_size: 10 }),
{
    RateLimit { per_second: 5, burst_size: 10 }
}

/// Largest body of a login request, in bytes.
pub const LOGIN_BODY_LIMIT: usize = 65536;

/// Largest body of a request that changes content, in bytes.
pub const ADMIN_BODY_LIMIT: usize = 8388608;

} // verus!
