use vstd::prelude::*;
use vstd::string::StringExecFns;

verus! {

/// Every failure the grant state machine can hand back to a client.
/// `Internal` stands for a storage-layer failure (a key that should have
/// been fresh was already taken); the remaining variants are the
/// validation outcomes of the two flows.
#[derive(Clone, Copy, Debug, PartialEq, Eq, Structural)]
pub enum WebError {
    UnknownClient,
    RedirectUriMismatch,
    ResponseTypeMismatch,
    BadRequest,
    InvalidGrant,
    Internal,
}

impl WebError {
    /// The HTTP status each outcome maps to.
    pub open spec fn spec_status_code(self) -> u16 {
        match self {
            WebError::UnknownClient => 403,
            WebError::RedirectUriMismatch => 400,
            WebError::ResponseTypeMismatch => 400,
            WebError::BadRequest => 400,
            WebError::InvalidGrant => 400,
            WebError::Internal => 500,
        }
    }

    pub fn status_code(&self) -> (s: u16)
        ensures
            s == self.spec_status_code(),
    {
        match self {
            WebError::UnknownClient => 403,
            WebError::RedirectUriMismatch => 400,
            WebError::ResponseTypeMismatch => 400,
            WebError::BadRequest => 400,
            WebError::InvalidGrant => 400,
            WebError::Internal => 500,
        }
    }

    /// The plain-text message of each outcome.
    pub open spec fn spec_message(self) -> Seq<char> {
        match self {
            WebError::UnknownClient => "Unknown OAuth2 Client"@,
            WebError::RedirectUriMismatch => "Redirect URI provided does not match known redirect URI for this client"@,
            WebError::ResponseTypeMismatch => "Response type does not match expectations"@,
            WebError::BadRequest => "Bad request"@,
            WebError::InvalidGrant => "Invalid grant"@,
            WebError::Internal => "Internal server error"@,
        }
    }

    pub fn message(&self) -> (m: String)
        ensures
            m@ == self.spec_message(),
    {
        match self {
            WebError::UnknownClient => String::from_str("Unknown OAuth2 Client"),
            WebError::RedirectUriMismatch => String::from_str(
                "Redirect URI provided does not match known redirect URI for this client",
            ),
            WebError::ResponseTypeMismatch => String::from_str(
                "Response type does not match expectations",
            ),
            WebError::BadRequest => String::from_str("Bad request"),
            WebError::InvalidGrant => String::from_str("Invalid grant"),
            WebError::Internal => String::from_str("Internal server error"),
        }
    }

    /// The body a client sees: the JSON `invalid_grant` document for
    /// `InvalidGrant`, the plain message otherwise.
    pub open spec fn spec_response_body(self) -> Seq<char> {
        if self is InvalidGrant {
            "{\"error\": \"invalid_grant\"}"@
        } else {
            self.spec_message()
        }
    }

    /// Whether the response body is the JSON document (and so is served as
    /// JSON rather than plain text).
    pub fn body_is_json(&self) -> (b: bool)
        ensures
            b == (self is InvalidGrant),
    {
        match self {
            WebError::InvalidGrant => true,
            _ => false,
        }
    }

    pub fn response_body(&self) -> (m: String)
        ensures
            m@ == self.spec_response_body(),
    {
        match self {
            WebError::InvalidGrant => String::from_str("{\"error\": \"invalid_grant\"}"),
            _ => self.message(),
        }
    }
}

} // verus!
