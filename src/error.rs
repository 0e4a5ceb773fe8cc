//! The kinds of failure of a visit.
use vstd::prelude::*;

verus! {

/// Why a visit produced no page.
#[derive(Clone, Copy, Debug, PartialEq, Eq, Structural)]
pub enum ClientError {
    /// The locator is malformed or its host does not resolve.
    Parse,
    /// No connection could be opened within the time allowed.
    Connect,
    /// The encrypted session could not be negotiated.
    Handshake,
    /// The request line could not be written.
    Send,
    /// The response could not be read to its end.
    Receive,
}

/// The text shown in place of a page for each kind of failure.
pub open spec fn error_message(e: ClientError) -> Seq<char> {
    match e {
        ClientError::Parse => "Could not resolve host"@,
        ClientError::Connect => "Failed to connect to socket"@,
        ClientError::Handshake => "Failed to negotiate a secure session"@,
        ClientError::Send => "Failed to send the request"@,
        ClientError::Receive => "Failed to read the response"@,
    }
}

impl ClientError {
    /// A short human-readable description of the failure.
    pub fn message(&self) -> (r: String)
        ensures
            r@ == error_message(*self),
    {
        match self {
            ClientError::Parse => String::from_str("Could not resolve host"),
            ClientError::Connect => String::from_str("Failed to connect to socket"),
            ClientError::Handshake => String::from_str("Failed to negotiate a secure session"),
            ClientError::Send => String::from_str("Failed to send the request"),
            ClientError::Receive => String::from_str("Failed to read the response"),
        }
    }
}

} // verus!
