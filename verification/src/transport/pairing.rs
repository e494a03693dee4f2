//! The pairing URI that the server shows as a QR code.

use vstd::prelude::*;
use crate::text::{decimal_digits, push_char, push_decimal, push_str};
use crate::transport::fingerprint::{hex_text, push_hex_byte};

verus! {

/// The URI scheme used by QR pairing codes.
pub const PAIRING_URI_SCHEME: &'static str = "soundwave";
/// The URI authority used by QR pairing codes.
pub const PAIRING_URI_AUTHORITY: &'static str = "pair";
/// The URI path used by the first pairing-code format.
pub const PAIRING_URI_PATH: &'static str = "/v1";

/// Public connection information encoded into a pairing QR code: an IPv4
/// endpoint and the certificate pin. Private key material, certificate bytes
/// and session credentials are never included.
#[derive(Clone, Debug, PartialEq, Eq)]
pub struct PairingUri {
    host: [u8; 4],
    port: u16,
    fingerprint: [u8; 32],
}

/// Dotted-decimal text of an IPv4 address.
pub open spec fn ipv4_text(octets: Seq<u8>) -> Seq<char> {
    decimal_digits(octets[0] as nat) + seq!['.'] + decimal_digits(octets[1] as nat) + seq!['.']
        + decimal_digits(octets[2] as nat) + seq!['.'] + decimal_digits(octets[3] as nat)
}

/// The canonical pairing URI text.
pub open spec fn pairing_uri_text(host: Seq<u8>, port: u16, fingerprint: Seq<u8>) -> Seq<char> {
    "soundwave://pair/v1?host="@ + ipv4_text(host) + "&port="@ + decimal_digits(port as nat) + "&fp="@
        + hex_text(fingerprint)
}

/// Appends dotted-decimal text of an IPv4 address.
pub fn push_ipv4(s: &mut String, octets: &[u8; 4])
    ensures
        final(s)@ == old(s)@ + ipv4_text(octets@),
{
    push_decimal(s, octets[0] as u64);
    push_char(s, '.');
    push_decimal(s, octets[1] as u64);
    push_char(s, '.');
    push_decimal(s, octets[2] as u64);
    push_char(s, '.');
    push_decimal(s, octets[3] as u64);
    assert(final(s)@ =~= old(s)@ + ipv4_text(octets@));
}

impl PairingUri {
    /// Creates a V1 pairing URI for an IPv4 LAN endpoint.
    pub fn new(host: [u8; 4], port: u16, fingerprint: [u8; 32]) -> (uri: Self)
        ensures
            uri.host() == host@,
            uri.port() == port,
            uri.fingerprint() == fingerprint@,
    {
        PairingUri { host, port, fingerprint }
    }

    pub closed spec fn host(&self) -> Seq<u8> {
        self.host@
    }

    pub closed spec fn port(&self) -> u16 {
        self.port
    }

    pub closed spec fn fingerprint(&self) -> Seq<u8> {
        self.fingerprint@
    }

    /// Returns the canonical, compact URI encoded in the server QR code.
    pub fn encode(&self) -> (text: String)
        ensures
            text@ == pairing_uri_text(self.host(), self.port(), self.fingerprint()),
    {
        let mut fingerprint = String::new();
        let mut i: usize = 0;
        while i < 32
            invariant
                i <= 32,
                self.fingerprint@.len() == 32,
                fingerprint@ == hex_text(self.fingerprint@.take(i as int)),
            decreases 32 - i,
        {
            push_hex_byte(&mut fingerprint, self.fingerprint[i]);
            proof {
                assert(self.fingerprint@.take(i + 1).drop_last() =~= self.fingerprint@.take(i as int));
            }
            i += 1;
        }
        assert(self.fingerprint@.take(32) =~= self.fingerprint@);
        let mut text = String::new();
        push_str(&mut text, PAIRING_URI_SCHEME);
        push_str(&mut text, "://");
        push_str(&mut text, PAIRING_URI_AUTHORITY);
        push_str(&mut text, PAIRING_URI_PATH);
        push_str(&mut text, "?host=");
        push_ipv4(&mut text, &self.host);
        push_str(&mut text, "&port=");
        push_decimal(&mut text, self.port as u64);
        push_str(&mut text, "&fp=");
        push_str(&mut text, fingerprint.as_str());
        proof {
            reveal_strlit("soundwave");
            reveal_strlit("://");
            reveal_strlit("pair");
            reveal_strlit("/v1");
            reveal_strlit("?host=");
            reveal_strlit("soundwave://pair/v1?host=");
        }
        assert(text@ =~= pairing_uri_text(self.host(), self.port(), self.fingerprint()));
        text
    }
}

} // verus!
