//! The gateway's failure taxonomy and the classification of HTTP
//! response statuses.
use vstd::prelude::*;

verus! {

/// Why a call failed.
///
/// `Transport` is a connection-level failure (DNS, TCP, TLS, or a
/// mid-stream disconnect); `Api` is a non-success HTTP status and
/// carries the response body text the server sent; `Decode` is a
/// blocking-mode response body that does not match the expected schema.
#[derive(Debug)]
pub enum GatewayError {
    Transport(String),
    Api(String),
    Decode(String),
}

impl GatewayError {
    /// The user-visible text of this failure.
    pub open spec fn spec_message(&self) -> Seq<char> {
        match self {
            GatewayError::Transport(d) => "Failed to send request: "@ + d@,
            GatewayError::Api(d) => "API Error: "@ + d@,
            GatewayError::Decode(d) => "Failed to parse response: "@ + d@,
        }
    }

    /// Renders the failure as text: a fixed prefix naming the kind,
    /// followed by the detail the failure carries.
    pub fn message(&self) -> (r: String)
        ensures
            r@ == self.spec_message(),
    {
        match self {
            GatewayError::Transport(d) => String::from_str("Failed to send request: ").concat(
                d.as_str(),
            ),
            GatewayError::Api(d) => String::from_str("API Error: ").concat(d.as_str()),
            GatewayError::Decode(d) => String::from_str("Failed to parse response: ").concat(
                d.as_str(),
            ),
        }
    }
}

/// Whether an HTTP status is a success status.
pub open spec fn spec_status_success(status: u16) -> bool {
    200 <= status < 300
}

/// The body text an `Api` failure carries when the response body could
/// not be read.
pub open spec fn spec_api_error_detail(body_text: Option<String>) -> Seq<char> {
    match body_text {
        Some(b) => b@,
        None => "Unknown error"@,
    }
}

/// Classifies an HTTP response status: a success status passes, any
/// other status becomes an `Api` failure carrying the response body
/// text, or a fixed placeholder when the body could not be read.
pub fn check_status(status: u16, body_text: Option<String>) -> (r: Result<(), GatewayError>)
    ensures
        r is Ok <==> spec_status_success(status),
        !spec_status_success(status) ==> (r matches Err(e) && e matches GatewayError::Api(d)
            && d@ == spec_api_error_detail(body_text)),
{
    if 200 <= status && status < 300 {
        Ok(())
    } else {
        let detail = match body_text {
            Some(b) => b,
            None => String::from_str("Unknown error"),
        };
        Err(GatewayError::Api(detail))
    }
}

} // verus!
