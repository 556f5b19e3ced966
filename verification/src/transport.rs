//! Construction of the outbound call's wire strings: the endpoint URL
//! and the authorization header value. The HTTP transport itself lives
//! outside the library and consumes these.
use vstd::prelude::*;

verus! {

/// The target endpoint of a completion call: the base URL followed by
/// the completions path.
pub fn endpoint_url(base_url: &str) -> (r: String)
    ensures
        r@ == base_url@ + "/chat/completions"@,
{
    String::from_str(base_url).concat("/chat/completions")
}

/// The `Authorization` header value carrying the API key as a bearer
/// token.
pub fn bearer_token(api_key: &str) -> (r: String)
    ensures
        r@ == "Bearer "@ + api_key@,
{
    String::from_str("Bearer ").concat(api_key)
}

/// The `Content-Type` header value of every outbound request.
pub fn json_content_type() -> (r: String)
    ensures
        r@ == "application/json"@,
{
    String::from_str("application/json")
}

} // verus!
