//! Small status helpers: the greeting used by the shell's smoke test
//! and the success/failure texts of the connection check.

use vstd::prelude::*;

use crate::utils::StatusResponse;

verus! {

/// The greeting the shell shows when asked.
pub fn greet(name: &str) -> (r: String)
    ensures
        r@ == "Hello, "@ + name@ + "! You've been greeted from Rust!"@,
{
    let mut s = String::from_str("Hello, ");
    s.append(name);
    s.append("! You've been greeted from Rust!");
    s
}

/// The response reported when the shop endpoint answered with success.
pub fn connection_ok_response() -> (r: StatusResponse)
    ensures
        r.status@ == "success"@,
        r.message@ == "Successfully connected to Shopify"@,
{
    StatusResponse {
        status: String::from_str("success"),
        message: String::from_str("Successfully connected to Shopify"),
    }
}

} // verus!
