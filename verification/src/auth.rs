//! The bearer-token check in front of the MCP endpoint. The health check on
//! `GET /` stays open on purpose, so that container health checks need no
//! token.
use vstd::prelude::*;

use crate::logging::RejectReason;
use crate::text::{push_str, str_eq};

verus! {

/// `Bearer <token>`: the only `Authorization` value that is let through.
pub open spec fn bearer_header(token: Seq<char>) -> Seq<char> {
    "Bearer "@ + token
}

/// Decides whether a request may pass: `received` is the `Authorization`
/// header as text (`None` when it is absent or not visible ASCII). A
/// request passes exactly when the header is `Bearer <expected_token>`;
/// otherwise the reason is "Authorization-Header fehlt" when there is no
/// header and "Bearer-Token stimmt nicht überein" when it differs.
pub fn check_bearer_token(expected_token: &str, received: Option<&str>) -> (r: Option<RejectReason>)
    ensures
        r is None <==> (received matches Some(v) && v@ == bearer_header(expected_token@)),
        received is None ==> (r matches Some(reason) && reason.0@ == "Authorization-Header fehlt"@),
        (received matches Some(v) && v@ != bearer_header(expected_token@)) ==> (r matches Some(
            reason,
        ) && reason.0@ == "Bearer-Token stimmt nicht überein"@),
{
    let mut expected_header = String::new();
    push_str(&mut expected_header, "Bearer ");
    push_str(&mut expected_header, expected_token);
    match received {
        None => Some(RejectReason("Authorization-Header fehlt")),
        Some(v) => {
            if !str_eq(v, expected_header.as_str()) {
                Some(RejectReason("Bearer-Token stimmt nicht überein"))
            } else {
                None
            }
        },
    }
}

} // verus!
