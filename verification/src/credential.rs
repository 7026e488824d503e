//! The credential of HTTP Basic authentication: `name` or `name:password`,
//! encoded in base64, and the header line that carries it.

use vstd::prelude::*;
use vstd::string::*;
use vstd::utf8::encode_utf8;
use data_encoding::BASE64;
use crate::request::authorization_line;
use crate::text::{chars_of, ends_with, starts_with};

verus! {

/// The padded base64 text of `bytes`, as `data_encoding::BASE64` encodes it.
pub uninterp spec fn base64_text(bytes: Seq<u8>) -> Seq<char>;

/// The bytes that `text` decodes to, as `data_encoding::BASE64` decodes it;
/// `None` where it refuses the text.
pub uninterp spec fn base64_bytes(text: Seq<char>) -> Option<Seq<u8>>;

/// The longest input that the encoder takes.
pub open spec fn max_plain_len() -> int {
    (usize::MAX / 512) as int
}

/// The longest text that the decoder takes.
pub open spec fn max_encoded_len() -> int {
    (usize::MAX / 8) as int
}

/// Encodes `input` in base64.
///
/// Trusted: calls `data_encoding::BASE64.encode`. Its result is named
/// `base64_text`; the crate documents that decoding what it encoded gives the
/// input back. The encoder may panic on inputs over `usize::MAX / 512` bytes.
#[verifier::external_body]
pub(crate) fn base64_encode(input: &[u8]) -> (text: String)
    requires
        input@.len() <= max_plain_len(),
    ensures
        text@ == base64_text(input@),
        base64_bytes(text@) == Some(input@),
{
    BASE64.encode(input)
}

/// Decodes a base64 text.
///
/// Trusted: calls `data_encoding::BASE64.decode`. Its result is named
/// `base64_bytes`, with `None` for every error. The decoder may panic on
/// texts over `usize::MAX / 8` bytes.
#[verifier::external_body]
pub(crate) fn base64_decode(text: &str) -> (bytes: Option<Vec<u8>>)
    requires
        text.spec_bytes().len() <= max_encoded_len(),
    ensures
        match bytes {
            Some(decoded) => base64_bytes(text@) == Some(decoded@),
            None => base64_bytes(text@) is None,
        },
{
    BASE64.decode(text.as_bytes()).ok()
}

/// The encoded credential that an authorization line carries: what stands
/// between `Proxy-Authorization: Basic ` and the end of the line.
pub open spec fn payload_of(line: Seq<char>) -> Option<Seq<char>> {
    let prefix = "Proxy-Authorization: Basic "@;
    let end = "\r\n"@;
    if prefix.len() + end.len() <= line.len() && line.take(prefix.len() as int) == prefix
        && line.skip(line.len() - end.len()) == end {
        Some(line.subrange(prefix.len() as int, line.len() - end.len()))
    } else {
        None
    }
}

/// Takes the encoded credential out of an authorization line.
pub fn authorization_payload(line: &str) -> (payload: Option<String>)
    ensures
        match payload {
            Some(encoded) => payload_of(line@) == Some(encoded@),
            None => payload_of(line@) is None,
        },
{
    let text = chars_of(line);
    let prefix = chars_of("Proxy-Authorization: Basic ");
    let end = chars_of("\r\n");
    if text.len() < prefix.len() || text.len() - prefix.len() < end.len() {
        return None;
    }
    if starts_with(&text, &prefix) && ends_with(&text, &end) {
        Some(line.substring_char(prefix.len(), text.len() - end.len()).to_owned())
    } else {
        None
    }
}

/// The bytes of `name` or `name:password` that an authorization line carries.
/// A line without a credential, or with one that is too long to decode or is
/// not base64, carries none.
pub open spec fn credential_of_line(line: Seq<char>) -> Option<Seq<u8>> {
    match payload_of(line) {
        Some(encoded) => if encode_utf8(encoded).len() <= max_encoded_len() {
            base64_bytes(encoded)
        } else {
            None
        },
        None => None,
    }
}

/// Reads an authorization line back: takes the encoded credential out of it
/// and decodes it.
pub fn credential_in(line: &str) -> (plain: Option<Vec<u8>>)
    ensures
        match plain {
            Some(bytes) => credential_of_line(line@) == Some(bytes@),
            None => credential_of_line(line@) is None,
        },
{
    match authorization_payload(line) {
        Some(encoded) => if encoded.as_str().as_bytes().len() <= usize::MAX / 8 {
            base64_decode(encoded.as_str())
        } else {
            None
        },
        None => None,
    }
}

/// The authorization line that is written for a credential gives that
/// credential back.
pub proof fn lemma_payload_round_trip(encoded: Seq<char>)
    ensures
        payload_of(authorization_line(Some(encoded))) == Some(encoded),
{
    let prefix = "Proxy-Authorization: Basic "@;
    let end = "\r\n"@;
    let line = prefix + encoded + end;
    assert(line.take(prefix.len() as int) =~= prefix);
    assert(line.skip(line.len() - end.len()) =~= end);
    assert(line.subrange(prefix.len() as int, line.len() - end.len()) =~= encoded);
}

/// A credential that decodes to `plain`, as every result of `User::encoded`
/// does, is read back as `plain` from the authorization line that is written
/// with it, provided it is short enough for the decoder.
pub proof fn lemma_credential_round_trip(plain: Seq<u8>, encoded: Seq<char>)
    requires
        base64_bytes(encoded) == Some(plain),
        encode_utf8(encoded).len() <= max_encoded_len(),
    ensures
        credential_of_line(authorization_line(Some(encoded))) == Some(plain),
{
    lemma_payload_round_trip(encoded);
}

} // verus!
