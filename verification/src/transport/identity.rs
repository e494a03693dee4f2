//! Deciding how to obtain the server identity from what the identity
//! directory holds.

use vstd::prelude::*;
use crate::text::push_str;
use crate::transport::error::TransportError;

verus! {

/// The file that holds the server certificate, DER encoded.
pub const CERTIFICATE_FILE_NAME: &'static str = "server-cert.der";
/// The file that holds the server's private key, PKCS#8 DER encoded.
pub const PRIVATE_KEY_FILE_NAME: &'static str = "server-key.der";

/// The outcome of reading one identity file.
#[derive(Debug)]
pub enum IdentityRead {
    Read(Vec<u8>),
    /// The file does not exist; the I/O error's message.
    NotFound(String),
    /// Reading failed otherwise; the I/O error's message.
    Failed(String),
}

/// What to do about the server identity.
#[derive(Debug)]
pub enum IdentityPlan {
    /// Both files were read: use them.
    Use { certificate_der: Vec<u8>, private_key_der: Vec<u8> },
    /// Neither file exists: create a new identity and write both files.
    Create,
    /// Anything else leaves the identity incomplete or unreadable.
    Fail(TransportError),
}

/// How a read is described in the failure message.
pub open spec fn read_description(read: IdentityRead) -> Seq<char> {
    match read {
        IdentityRead::Read(_) => "ok"@,
        IdentityRead::NotFound(m) => m@,
        IdentityRead::Failed(m) => m@,
    }
}

pub fn describe_identity_read(read: &IdentityRead) -> (text: String)
    ensures
        text@ == read_description(*read),
{
    match read {
        IdentityRead::Read(_) => {
            let mut text = String::new();
            push_str(&mut text, "ok");
            text
        },
        IdentityRead::NotFound(m) => m.clone(),
        IdentityRead::Failed(m) => m.clone(),
    }
}

/// An I/O failure on the identity directory.
pub fn identity_io_error(message: &str) -> (error: TransportError)
    ensures
        error matches TransportError::Certificate(m) && m@ == "server identity I/O error: "@ + message@,
{
    let mut text = String::new();
    push_str(&mut text, "server identity I/O error: ");
    push_str(&mut text, message);
    TransportError::Certificate(text)
}

/// The message for an incomplete or unreadable identity.
pub open spec fn incomplete_identity_message(dir: Seq<char>, certificate: IdentityRead, private_key: IdentityRead) -> Seq<char> {
    "incomplete or unreadable server identity in "@ + dir + " (certificate: "@ + read_description(certificate)
        + ", key: "@ + read_description(private_key) + ")"@
}

/// Loads an identity only when both files were read, creates one only when
/// neither exists, and refuses every other combination.
pub fn plan_identity(identity_dir: &str, certificate: IdentityRead, private_key: IdentityRead) -> (plan: IdentityPlan)
    ensures
        match (certificate, private_key) {
            (IdentityRead::Read(c), IdentityRead::Read(k)) => plan matches IdentityPlan::Use {
                certificate_der,
                private_key_der,
            } && certificate_der@ == c@ && private_key_der@ == k@,
            (IdentityRead::NotFound(_), IdentityRead::NotFound(_)) => plan is Create,
            _ => plan matches IdentityPlan::Fail(TransportError::Certificate(m)) && m@
                == incomplete_identity_message(identity_dir@, certificate, private_key),
        },
{
    let ghost c0 = certificate;
    let ghost k0 = private_key;
    match (certificate, private_key) {
        (IdentityRead::Read(c), IdentityRead::Read(k)) => IdentityPlan::Use { certificate_der: c, private_key_der: k },
        (IdentityRead::NotFound(_), IdentityRead::NotFound(_)) => IdentityPlan::Create,
        (c, k) => {
            let mut text = String::new();
            push_str(&mut text, "incomplete or unreadable server identity in ");
            push_str(&mut text, identity_dir);
            push_str(&mut text, " (certificate: ");
            let cd = describe_identity_read(&c);
            push_str(&mut text, cd.as_str());
            push_str(&mut text, ", key: ");
            let kd = describe_identity_read(&k);
            push_str(&mut text, kd.as_str());
            push_str(&mut text, ")");
            assert(text@ =~= incomplete_identity_message(identity_dir@, c0, k0));
            IdentityPlan::Fail(TransportError::Certificate(text))
        },
    }
}

} // verus!
