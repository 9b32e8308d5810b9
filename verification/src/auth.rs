//! The one decision the authentication status display makes: which message
//! describes the stored credentials.

use vstd::prelude::*;

verus! {

/// The status line shown for the stored credentials: a long-lived refresh
/// token present, or no authentication at all.
pub open spec fn auth_status_spec(has_refresh_token: bool) -> Seq<char> {
    if has_refresh_token {
        "Currently authenticated with long lived refresh token"@
    } else {
        "User is not currently authenticated"@
    }
}

/// Picks the status line for whether a long-lived refresh token is stored.
pub fn auth_status_message(has_refresh_token: bool) -> (r: &'static str)
    ensures
        r@ == auth_status_spec(has_refresh_token),
{
    if has_refresh_token {
        "Currently authenticated with long lived refresh token"
    } else {
        "User is not currently authenticated"
    }
}

} // verus!
