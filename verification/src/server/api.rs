use vstd::prelude::*;

use crate::text::{has_prefix, starts_with};

verus! {

/// The largest request body that the API reads, in bytes
pub const BODY_LIMIT: u64 = 65536;

/// Whether a request with this user agent comes from a web browser, which the
/// API turns away: the agents of browsers start with `Mozilla/`
pub fn is_browser_user_agent(user_agent: &str) -> (r: bool)
    ensures
        r == has_prefix(user_agent@, "Mozilla/"@),
{
    starts_with(user_agent, "Mozilla/")
}

} // verus!
