//! The receiving client's error type.

use vstd::prelude::*;
use crate::text::push_str;
use crate::transport::error::{push_transport_error, transport_error_text, TransportError};

verus! {

#[derive(Debug)]
pub enum ClientError {
    /// The server address is invalid, with the parser's message.
    Address(String),
    /// The network endpoint failed, with the I/O error's message.
    Endpoint(String),
    Transport(TransportError),
    UnsupportedStream(String),
    Runtime(String),
}

/// The text of a client error, as its display shows it.
pub open spec fn client_error_text(e: ClientError) -> Seq<char> {
    match e {
        ClientError::Address(m) => "server address is invalid: "@ + m@,
        ClientError::Endpoint(m) => "network endpoint failed: "@ + m@,
        ClientError::Transport(t) => "transport failed: "@ + transport_error_text(t),
        ClientError::UnsupportedStream(m) => "unsupported stream format: "@ + m@,
        ClientError::Runtime(m) => "native runtime failed: "@ + m@,
    }
}

impl ClientError {
    /// The error's message.
    pub fn message(&self) -> (text: String)
        ensures
            text@ == client_error_text(*self),
    {
        let mut text = String::new();
        match self {
            ClientError::Address(m) => {
                push_str(&mut text, "server address is invalid: ");
                push_str(&mut text, m.as_str());
            },
            ClientError::Endpoint(m) => {
                push_str(&mut text, "network endpoint failed: ");
                push_str(&mut text, m.as_str());
            },
            ClientError::Transport(t) => {
                push_str(&mut text, "transport failed: ");
                push_transport_error(&mut text, t);
            },
            ClientError::UnsupportedStream(m) => {
                push_str(&mut text, "unsupported stream format: ");
                push_str(&mut text, m.as_str());
            },
            ClientError::Runtime(m) => {
                push_str(&mut text, "native runtime failed: ");
                push_str(&mut text, m.as_str());
            },
        }
        assert(text@ =~= client_error_text(*self));
        text
    }
}

} // verus!
