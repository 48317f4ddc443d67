//! What a transport for vote commitment tree sync answers.

use vstd::prelude::*;

verus! {

/// Response returned by a tree-sync transport request.
#[derive(Clone, Debug, Eq, PartialEq)]
pub struct TransportResponse {
    pub status: u16,
    pub body: Vec<u8>,
}

/// Errors returned by a concrete tree-sync transport.
#[derive(Clone, Debug, Eq, PartialEq)]
pub enum TransportError {
    Request(String),
}

impl TransportError {
    /// The error as it is shown to users.
    pub fn text(&self) -> (text: String)
        ensures
            match self {
                TransportError::Request(reason) => text@ == "request failed: "@ + reason@,
            },
    {
        match self {
            TransportError::Request(reason) => "request failed: ".to_owned().concat(
                reason.as_str(),
            ),
        }
    }
}

} // verus!
