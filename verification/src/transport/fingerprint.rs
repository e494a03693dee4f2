//! SHA-256 certificate fingerprints: computing, pinning, printing and parsing.

use vstd::prelude::*;
use sha2::{Digest, Sha256};
use crate::text::{decimal_digits, push_char, push_decimal, push_str};
use crate::transport::error::TransportError;

verus! {

/// The SHA-256 digest of `data`.
pub uninterp spec fn sha256(data: Seq<u8>) -> Seq<u8>;

/// `Sha256::digest` from `sha2`: the 32-byte SHA-256 digest of `data`.
#[verifier::external_body]
fn sha256_digest(data: &[u8]) -> (digest: [u8; 32])
    ensures
        digest@ == sha256(data@),
{
    Sha256::digest(data).into()
}

/// Certificate DER and its SHA-256 fingerprint used to pair an Android client.
#[derive(Clone, Debug)]
pub struct CertificateIdentity {
    pub certificate_der: Vec<u8>,
    pub sha256_fingerprint: [u8; 32],
}

pub fn certificate_fingerprint(certificate_der: &[u8]) -> (fingerprint: [u8; 32])
    ensures
        fingerprint@ == sha256(certificate_der@),
{
    sha256_digest(certificate_der)
}

/// The public identity of a server certificate: its DER and its fingerprint.
pub fn certificate_identity(certificate_der: Vec<u8>) -> (identity: CertificateIdentity)
    ensures
        identity.certificate_der@ == certificate_der@,
        identity.sha256_fingerprint@ == sha256(certificate_der@),
{
    let sha256_fingerprint = certificate_fingerprint(certificate_der.as_slice());
    CertificateIdentity { certificate_der, sha256_fingerprint }
}

/// The pinning decision: a server certificate is accepted exactly when its
/// SHA-256 digest equals the pinned fingerprint.
pub fn certificate_matches_pin(end_entity_der: &[u8], expected: &[u8; 32]) -> (accepted: bool)
    ensures
        accepted == (sha256(end_entity_der@) == expected@),
{
    let actual = sha256_digest(end_entity_der);
    let mut i: usize = 0;
    while i < 32
        invariant
            i <= 32,
            actual@ == sha256(end_entity_der@),
            forall|j: int| 0 <= j < i ==> actual@[j] == expected@[j],
        decreases 32 - i,
    {
        if actual[i] != expected[i] {
            return false;
        }
        i += 1;
    }
    assert(actual@ =~= expected@);
    true
}

/// The reason given when a server certificate does not match the pin.
pub open spec fn pin_mismatch_message() -> Seq<char> {
    "server certificate fingerprint does not match the pinned fingerprint"@
}

/// Accepts the server's end-entity certificate exactly when its SHA-256
/// digest is the pinned fingerprint, and otherwise gives the reason.
pub fn verify_pinned_certificate(end_entity_der: &[u8], expected: &[u8; 32]) -> (result: Result<(), String>)
    ensures
        (result is Ok) <==> sha256(end_entity_der@) == expected@,
        result matches Err(m) ==> m@ == pin_mismatch_message(),
{
    if certificate_matches_pin(end_entity_der, expected) {
        Ok(())
    } else {
        let mut text = String::new();
        push_str(&mut text, "server certificate fingerprint does not match the pinned fingerprint");
        Err(text)
    }
}

/// The upper-case hexadecimal digit of a value below sixteen.
pub open spec fn hex_digit(v: nat) -> char {
    if v < 10 {
        (('0' as nat) + v) as char
    } else {
        (('A' as nat) + v - 10) as char
    }
}

/// Two upper-case hexadecimal digits of a byte.
pub open spec fn hex_byte(b: u8) -> Seq<char> {
    seq![hex_digit(b as nat / 16), hex_digit(b as nat % 16)]
}

/// Bytes as upper-case hexadecimal pairs separated by colons.
pub open spec fn fingerprint_text(bytes: Seq<u8>) -> Seq<char>
    decreases bytes.len(),
{
    if bytes.len() == 0 {
        Seq::empty()
    } else if bytes.len() == 1 {
        hex_byte(bytes[0])
    } else {
        fingerprint_text(bytes.drop_last()) + seq![':'] + hex_byte(bytes.last())
    }
}

/// Appends the upper-case hexadecimal digit of `v`.
pub fn push_hex_digit(s: &mut String, v: u8)
    requires
        v < 16,
    ensures
        final(s)@ == old(s)@.push(hex_digit(v as nat)),
{
    let c: char = if v < 10 { (48u8 + v) as char } else { (65u8 + (v - 10)) as char };
    push_char(s, c);
}

/// Appends the two upper-case hexadecimal digits of `b`.
pub fn push_hex_byte(s: &mut String, b: u8)
    ensures
        final(s)@ == old(s)@ + hex_byte(b),
{
    push_hex_digit(s, b / 16);
    push_hex_digit(s, b % 16);
    assert(final(s)@ =~= old(s)@ + hex_byte(b));
}

/// Formats a SHA-256 fingerprint for terminal display and Android copy/paste.
pub fn format_fingerprint(fingerprint: &[u8; 32]) -> (text: String)
    ensures
        text@ == fingerprint_text(fingerprint@),
{
    let mut text = String::new();
    let mut i: usize = 0;
    while i < 32
        invariant
            i <= 32,
            fingerprint@.len() == 32,
            text@ == fingerprint_text(fingerprint@.take(i as int)),
        decreases 32 - i,
    {
        if i > 0 {
            push_char(&mut text, ':');
        }
        push_hex_byte(&mut text, fingerprint[i]);
        proof {
            let t = fingerprint@.take(i + 1);
            assert(t.drop_last() =~= fingerprint@.take(i as int));
            if i == 0 {
                assert(text@ =~= fingerprint_text(t));
            } else {
                assert(text@ =~= fingerprint_text(t.drop_last()) + seq![':'] + hex_byte(t.last()));
            }
        }
        i += 1;
    }
    assert(fingerprint@.take(32) =~= fingerprint@);
    text
}

/// The separators that fingerprint input may contain between digits.
pub open spec fn is_fingerprint_separator(c: char) -> bool {
    c == ':' || c == '-' || c == ' ' || c == '\t' || c == '\r' || c == '\n'
}

/// Keeps every character but the separators.
pub open spec fn fingerprint_keep() -> spec_fn(char) -> bool {
    |c: char| !is_fingerprint_separator(c)
}

/// The input without separators.
pub open spec fn compact_fingerprint(input: Seq<char>) -> Seq<char> {
    input.filter(fingerprint_keep())
}

/// The value of an ASCII hexadecimal digit byte, in either case.
pub open spec fn hex_value(b: u8) -> Option<u8> {
    if 48 <= b <= 57 {
        Some((b - 48) as u8)
    } else if 97 <= b <= 102 {
        Some((b - 97 + 10) as u8)
    } else if 65 <= b <= 70 {
        Some((b - 65 + 10) as u8)
    } else {
        None
    }
}

pub fn hex_nibble(byte: u8) -> (value: Option<u8>)
    ensures
        value == hex_value(byte),
{
    // '0'..='9', 'a'..='f', 'A'..='F'
    if 48 <= byte && byte <= 57 {
        Some(byte - 48)
    } else if 97 <= byte && byte <= 102 {
        Some(byte - 97 + 10)
    } else if 65 <= byte && byte <= 70 {
        Some(byte - 65 + 10)
    } else {
        None
    }
}

/// The bytes spelled by 64 hexadecimal digit bytes.
pub open spec fn hex_pairs_value(digits: Seq<u8>) -> Seq<u8> {
    Seq::new(
        32,
        |i: int| (hex_value(digits[2 * i]).unwrap() * 16 + hex_value(digits[2 * i + 1]).unwrap()) as u8,
    )
}

/// The message for compacted input whose UTF-8 length is not 64 bytes.
pub open spec fn wrong_length_message(n: nat) -> Seq<char> {
    "certificate fingerprint needs 64 hexadecimal digits, got "@ + decimal_digits(n)
}

/// The message for 64 bytes of compacted input that are not all hexadecimal digits.
pub open spec fn non_hex_message() -> Seq<char> {
    "certificate fingerprint contains non-hexadecimal data"@
}

/// What `parse_fingerprint` gives for an input.
pub open spec fn parsed_fingerprint(input: Seq<char>, result: Result<[u8; 32], TransportError>) -> bool {
    let digits = vstd::utf8::encode_utf8(compact_fingerprint(input));
    if digits.len() != 64 {
        result matches Err(TransportError::Certificate(m)) && m@ == wrong_length_message(
            digits.len(),
        )
    } else if forall|j: int| 0 <= j < 64 ==> (#[trigger] hex_value(digits[j])) is Some {
        result matches Ok(bytes) && bytes@ == hex_pairs_value(digits)
    } else {
        result matches Err(TransportError::Certificate(m)) && m@ == non_hex_message()
    }
}

/// Parses colon, hyphen, or whitespace separated SHA-256 fingerprint hex.
pub fn parse_fingerprint(input: &str) -> (result: Result<[u8; 32], TransportError>)
    ensures
        parsed_fingerprint(input@, result),
        result is Ok ==> vstd::utf8::encode_utf8(compact_fingerprint(input@)).len() == 64,
{
    let mut compact = String::new();
    for c in it: input.chars()
        invariant
            it.seq() == input@,
            compact@ == it.seq().take(it.index() as int).filter(fingerprint_keep()),
            it.index() == it.seq().len() ==> compact@ == compact_fingerprint(input@),
    {
        if !(c == ':' || c == '-' || c == ' ' || c == '\t' || c == '\r' || c == '\n') {
            push_char(&mut compact, c);
        }
        proof {
            assert(c == it.seq()[it.index() as int]);
            let t = it.seq().take(it.index() + 1);
            assert(t.drop_last() =~= it.seq().take(it.index() as int));
            reveal(Seq::filter);
            assert(t.last() == c);
            assert((fingerprint_keep())(c) == !is_fingerprint_separator(c));
            assert(compact@ =~= t.filter(fingerprint_keep()));
        }
        assert(it.index() + 1 == it.seq().len() ==> it.seq().take(it.index() + 1) =~= input@);
    }
    assert(compact@ == compact_fingerprint(input@));
    let compact_str = compact.as_str();
    let digits = compact_str.as_bytes();
    let n = digits.len();
    if n != 64 {
        let mut message = String::new();
        push_str(&mut message, "certificate fingerprint needs 64 hexadecimal digits, got ");
        push_decimal(&mut message, n as u64);
        return Err(TransportError::Certificate(message));
    }
    let mut fingerprint: [u8; 32] = [0u8; 32];
    let mut index: usize = 0;
    while index < 32
        invariant
            index <= 32,
            digits@.len() == 64,
            digits@ == vstd::utf8::encode_utf8(compact_fingerprint(input@)),
            forall|j: int| 0 <= j < 2 * index ==> (#[trigger] hex_value(digits@[j])) is Some,
            forall|j: int| 0 <= j < index ==> fingerprint@[j] == hex_pairs_value(digits@)[j],
        decreases 32 - index,
    {
        let high = match hex_nibble(digits[2 * index]) {
            Some(v) => v,
            None => {
                let mut message = String::new();
                push_str(&mut message, "certificate fingerprint contains non-hexadecimal data");
                assert(hex_value(digits@[2 * index as int]) is None);
                assert(message@ =~= non_hex_message());
                return Err(TransportError::Certificate(message));
            },
        };
        let low = match hex_nibble(digits[2 * index + 1]) {
            Some(v) => v,
            None => {
                let mut message = String::new();
                push_str(&mut message, "certificate fingerprint contains non-hexadecimal data");
                assert(hex_value(digits@[2 * index + 1]) is None);
                assert(message@ =~= non_hex_message());
                return Err(TransportError::Certificate(message));
            },
        };
        assert(high < 16 && low < 16);
        assert((high << 4) | low == high * 16 + low) by (bit_vector)
            requires
                high < 16,
                low < 16,
        ;
        fingerprint[index] = (high << 4) | low;
        index += 1;
    }
    assert(fingerprint@ =~= hex_pairs_value(digits@));
    Ok(fingerprint)
}

/// A fingerprint is accepted only when the input without separators is
/// exactly 64 bytes long; any other length `n` is refused with a message that
/// gives `n`.
pub proof fn lemma_fingerprint_needs_64_digits(input: Seq<char>, result: Result<[u8; 32], TransportError>)
    requires
        parsed_fingerprint(input, result),
    ensures
        result is Ok ==> vstd::utf8::encode_utf8(input.filter(fingerprint_keep())).len() == 64,
        vstd::utf8::encode_utf8(input.filter(fingerprint_keep())).len() != 64 ==> (result matches Err(
            TransportError::Certificate(m),
        ) && m@ == "certificate fingerprint needs 64 hexadecimal digits, got "@ + decimal_digits(
            vstd::utf8::encode_utf8(input.filter(fingerprint_keep())).len(),
        )),
{
}

/// Upper-case hexadecimal of every byte, without separators.
pub open spec fn hex_text(bytes: Seq<u8>) -> Seq<char>
    decreases bytes.len(),
{
    if bytes.len() == 0 {
        Seq::empty()
    } else {
        hex_text(bytes.drop_last()) + hex_byte(bytes.last())
    }
}

proof fn lemma_hex_digit_char(v: nat)
    requires
        v < 16,
    ensures
        !is_fingerprint_separator(hex_digit(v)),
        '\0' <= hex_digit(v) <= '\u{7f}',
        hex_value(hex_digit(v) as u8) == Some(v as u8),
{
}

proof fn lemma_keep_all(s: Seq<char>)
    requires
        forall|i: int| 0 <= i < s.len() ==> !is_fingerprint_separator(#[trigger] s[i]),
    ensures
        s.filter(fingerprint_keep()) == s,
    decreases s.len(),
{
    reveal(Seq::filter);
    if s.len() > 0 {
        lemma_keep_all(s.drop_last());
        assert(s.drop_last().push(s.last()) =~= s);
    }
}

proof fn lemma_hex_text(b: Seq<u8>)
    ensures
        hex_text(b).len() == 2 * b.len(),
        forall|i: int| 0 <= i < b.len() ==> hex_text(b)[2 * i] == hex_digit(b[i] as nat / 16) && hex_text(b)[2 * i + 1]
            == hex_digit(b[i] as nat % 16),
    decreases b.len(),
{
    if b.len() > 0 {
        lemma_hex_text(b.drop_last());
        let t = hex_text(b.drop_last());
        assert forall|i: int| 0 <= i < b.len() implies hex_text(b)[2 * i] == hex_digit(b[i] as nat / 16)
            && hex_text(b)[2 * i + 1] == hex_digit(b[i] as nat % 16) by {
            if i < b.len() - 1 {
                assert(b[i] == b.drop_last()[i]);
            }
        }
    }
}

proof fn lemma_compact_fingerprint_text(b: Seq<u8>)
    ensures
        compact_fingerprint(fingerprint_text(b)) == hex_text(b),
    decreases b.len(),
{
    broadcast use Seq::filter_distributes_over_add;
    if b.len() == 0 {
        reveal(Seq::filter);
    } else {
        lemma_hex_digit_char(b.last() as nat / 16);
        lemma_hex_digit_char(b.last() as nat % 16);
        lemma_keep_all(hex_byte(b.last()));
        if b.len() == 1 {
            assert(b.drop_last() =~= Seq::<u8>::empty());
            assert(hex_text(b.drop_last()) == Seq::<char>::empty());
            assert(hex_text(b) =~= hex_byte(b[0]));
        } else {
            lemma_compact_fingerprint_text(b.drop_last());
            reveal(Seq::filter);
            assert(seq![':'].filter(fingerprint_keep()) =~= Seq::<char>::empty()) by {
                reveal(Seq::filter);
                let colon = seq![':'];
                assert(colon.drop_last() =~= Seq::<char>::empty());
                assert(colon.drop_last().filter(fingerprint_keep()) =~= Seq::<char>::empty());
                assert(!(fingerprint_keep())(colon.last()));
            }
            assert(compact_fingerprint(fingerprint_text(b)) =~= hex_text(b.drop_last()) + Seq::<char>::empty()
                + hex_byte(b.last()));
        }
    }
}

/// Parsing the formatted text of any fingerprint gives back that fingerprint.
pub proof fn lemma_parse_format_round_trip(fingerprint: Seq<u8>, result: Result<[u8; 32], TransportError>)
    requires
        fingerprint.len() == 32,
        parsed_fingerprint(fingerprint_text(fingerprint), result),
    ensures
        result matches Ok(bytes) && bytes@ == fingerprint,
{
    lemma_compact_fingerprint_text(fingerprint);
    lemma_hex_text(fingerprint);
    let h = hex_text(fingerprint);
    assert forall|j: int| 0 <= j < h.len() implies '\0' <= #[trigger] h[j] <= '\u{7f}'
        && !is_fingerprint_separator(h[j]) && hex_value(h[j] as u8) is Some by {
        let i = j / 2;
        assert(j == 2 * i || j == 2 * i + 1);
        lemma_hex_digit_char(fingerprint[i] as nat / 16);
        lemma_hex_digit_char(fingerprint[i] as nat % 16);
    }
    vstd::utf8::is_ascii_chars_encode_utf8(h);
    let digits = vstd::utf8::encode_utf8(h);
    assert(forall|j: int| 0 <= j < 64 ==> digits[j] == h[j] as u8);
    assert forall|j: int| 0 <= j < 64 implies (#[trigger] hex_value(digits[j])) is Some by {
        assert(digits[j] == h[j] as u8);
    }
    assert forall|i: int| 0 <= i < 32 implies #[trigger] hex_pairs_value(digits)[i] == fingerprint[i] by {
        lemma_hex_digit_char(fingerprint[i] as nat / 16);
        lemma_hex_digit_char(fingerprint[i] as nat % 16);
        assert(digits[2 * i] == h[2 * i] as u8);
        assert(digits[2 * i + 1] == h[2 * i + 1] as u8);
    }
    assert(hex_pairs_value(digits) =~= fingerprint);
}

} // verus!
