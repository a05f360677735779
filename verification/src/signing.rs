//! Signing of webhook deliveries: HMAC-SHA256 over the timestamp and the payload.

use crate::text;
use hmac::Mac;
use vstd::prelude::*;

verus! {

/// Value of the `X-Webhook-Signature-Version` header: the signature is over
/// `{timestamp}.{payload}`.
pub const WEBHOOK_SIGNATURE_VERSION: &'static str = "v2";

/// The HMAC-SHA256 tag of a message under a key.
pub uninterp spec fn hmac_sha256_tag(key: Seq<u8>, message: Seq<u8>) -> Seq<u8>;

/// `hmac::Hmac<sha2::Sha256>`: `new_from_slice`, which takes a key of any length, the message,
/// and the finished tag of 32 bytes.
#[verifier::external_body]
pub(crate) fn hmac_sha256(key: &[u8], message: &[u8]) -> (tag: Option<Vec<u8>>)
    ensures
        tag is Some,
        tag->0@ == hmac_sha256_tag(key@, message@),
        tag->0@.len() == 32,
{
    let mac = hmac::Hmac::<sha2::Sha256>::new_from_slice(key).ok()?;
    Some(mac.chain_update(message).finalize().into_bytes().to_vec())
}

/// The lower-case hexadecimal digit for `n`, which is below sixteen.
pub open spec fn hex_digit(n: u8) -> char {
    if n < 10 {
        ('0' as u8 + n) as char
    } else {
        ('a' as u8 + (n - 10)) as char
    }
}

/// Two lower-case hexadecimal digits for every byte, the high one first.
pub open spec fn hex_text(bytes: Seq<u8>) -> Seq<char> {
    Seq::new(
        2 * bytes.len(),
        |i: int|
            if i % 2 == 0 {
                hex_digit(bytes[i / 2] / 16)
            } else {
                hex_digit(bytes[i / 2] % 16)
            },
    )
}

/// `hex::encode`: two lower-case digits for every byte.
#[verifier::external_body]
fn hex_encode(bytes: &[u8]) -> (encoded: String)
    ensures
        encoded@ == hex_text(bytes@),
{
    hex::encode(bytes)
}

/// What is signed: the timestamp in decimal, a dot, and the payload.
pub open spec fn signed_text(timestamp: i64, payload: Seq<char>) -> Seq<char> {
    text::decimal(timestamp as int) + "."@ + payload
}

/// The value of the signature header for a tag.
pub open spec fn signature_of_tag(tag: Seq<u8>) -> Seq<char> {
    "sha256="@ + hex_text(tag)
}

/// The value of the `X-Webhook-Signature` header.
pub open spec fn signature(secret: Seq<char>, timestamp: i64, payload: Seq<char>) -> Seq<char> {
    signature_of_tag(
        hmac_sha256_tag(
            vstd::utf8::encode_utf8(secret),
            vstd::utf8::encode_utf8(signed_text(timestamp, payload)),
        ),
    )
}

/// The text that is signed for `payload` at `timestamp`.
pub fn signing_input(timestamp: i64, payload: &str) -> (input: String)
    ensures
        input@ == signed_text(timestamp, payload@),
{
    let mut input = text::i64_text(timestamp);
    input.append(".");
    input.append(payload);
    input
}

/// The signature header's value for a finished tag.
pub fn signature_header(tag: &Vec<u8>) -> (value: String)
    ensures
        value@ == signature_of_tag(tag@),
{
    let mut value = "sha256=".to_owned();
    value.append(hex_encode(tag.as_slice()).as_str());
    value
}

/// The signature header's value for `payload`, sent at `timestamp`.
pub fn sign(secret: &str, timestamp: i64, payload: &str) -> (value: Option<String>)
    ensures
        value is Some,
        value->0@ == signature(secret@, timestamp, payload@),
{
    let input = signing_input(timestamp, payload);
    match hmac_sha256(secret.as_bytes(), input.as_str().as_bytes()) {
        Some(tag) => Some(signature_header(&tag)),
        None => None,
    }
}

/// A header's name and value.
pub open spec fn header(name: Seq<char>, value: Seq<char>) -> (Seq<char>, Seq<char>) {
    (name, value)
}

/// The headers of a delivery: the last one only where it is signed.
pub open spec fn delivery_headers(timestamp: i64, signature: Option<Seq<char>>) -> Seq<
    (Seq<char>, Seq<char>),
> {
    let plain = seq![
        header("Content-Type"@, "application/json"@),
        header("X-Webhook-Timestamp"@, text::decimal(timestamp as int)),
        header("X-Webhook-Signature-Version"@, WEBHOOK_SIGNATURE_VERSION@),
    ];
    match signature {
        Some(value) => plain.push(header("X-Webhook-Signature"@, value)),
        None => plain,
    }
}

/// The views of a list of headers.
pub open spec fn header_views(headers: Seq<(String, String)>) -> Seq<(Seq<char>, Seq<char>)> {
    headers.map_values(|h: (String, String)| header(h.0@, h.1@))
}

/// The headers of one delivery attempt of `payload` at `timestamp`, signed where there is a
/// secret.
pub fn request_headers(timestamp: i64, secret: &Option<String>, payload: &str) -> (headers: Vec<
    (String, String),
>)
    ensures
        header_views(headers@) == delivery_headers(
            timestamp,
            match *secret {
                Some(key) => Some(signature(key@, timestamp, payload@)),
                None => None,
            },
        ),
{
    let mut headers: Vec<(String, String)> = Vec::new();
    headers.push(("Content-Type".to_owned(), "application/json".to_owned()));
    headers.push(("X-Webhook-Timestamp".to_owned(), text::i64_text(timestamp)));
    headers.push(
        ("X-Webhook-Signature-Version".to_owned(), WEBHOOK_SIGNATURE_VERSION.to_owned()),
    );
    match secret {
        Some(key) => {
            match sign(key.as_str(), timestamp, payload) {
                Some(value) => headers.push(("X-Webhook-Signature".to_owned(), value)),
                None => {},
            }
        },
        None => {},
    }
    headers
}

} // verus!
