//! The transport layer's error type.

use vstd::prelude::*;
use crate::text::{decimal_digits, push_decimal, push_str};

verus! {

#[derive(Clone, Debug, PartialEq, Eq)]
pub enum TransportError {
    /// A QUIC transport error, with its message.
    Quinn(String),
    /// A control message longer than the framing allows.
    ControlMessageTooLarge { actual: usize, maximum: usize },
    /// The remote control stream closed.
    ControlStreamClosed,
    /// The QUIC peer does not advertise datagram support.
    DatagramUnsupported,
    /// An audio datagram larger than the path allows.
    DatagramTooLarge { actual: usize, maximum: usize },
    /// Creating, loading or checking the certificate failed, with the reason.
    Certificate(String),
}

/// The text of a transport error, as its display shows it.
pub open spec fn transport_error_text(e: TransportError) -> Seq<char> {
    match e {
        TransportError::Quinn(m) => "QUIC transport error: "@ + m@,
        TransportError::ControlMessageTooLarge { actual, maximum } => "control message is "@ + decimal_digits(
            actual as nat,
        ) + " bytes; maximum is "@ + decimal_digits(maximum as nat),
        TransportError::ControlStreamClosed => "remote control stream closed"@,
        TransportError::DatagramUnsupported => "QUIC peer does not advertise datagram support"@,
        TransportError::DatagramTooLarge { actual, maximum } => "audio datagram is "@ + decimal_digits(
            actual as nat,
        ) + " bytes; maximum supported is "@ + decimal_digits(maximum as nat),
        TransportError::Certificate(m) => "failed to create self-signed server certificate: "@ + m@,
    }
}

/// Appends the error's message.
pub fn push_transport_error(s: &mut String, e: &TransportError)
    ensures
        final(s)@ == old(s)@ + transport_error_text(*e),
{
    match e {
        TransportError::Quinn(m) => {
            push_str(s, "QUIC transport error: ");
            push_str(s, m.as_str());
        },
        TransportError::ControlMessageTooLarge { actual, maximum } => {
            push_str(s, "control message is ");
            push_decimal(s, *actual as u64);
            push_str(s, " bytes; maximum is ");
            push_decimal(s, *maximum as u64);
        },
        TransportError::ControlStreamClosed => push_str(s, "remote control stream closed"),
        TransportError::DatagramUnsupported => push_str(s, "QUIC peer does not advertise datagram support"),
        TransportError::DatagramTooLarge { actual, maximum } => {
            push_str(s, "audio datagram is ");
            push_decimal(s, *actual as u64);
            push_str(s, " bytes; maximum supported is ");
            push_decimal(s, *maximum as u64);
        },
        TransportError::Certificate(m) => {
            push_str(s, "failed to create self-signed server certificate: ");
            push_str(s, m.as_str());
        },
    }
    assert(final(s)@ =~= old(s)@ + transport_error_text(*e));
}

impl TransportError {
    /// The error's message.
    pub fn message(&self) -> (text: String)
        ensures
            text@ == transport_error_text(*self),
    {
        let mut text = String::new();
        push_transport_error(&mut text, self);
        assert(text@ =~= transport_error_text(*self));
        text
    }
}

} // verus!
